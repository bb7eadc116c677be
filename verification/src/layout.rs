//! The layout of one unit: from its raw text to its page events.

use crate::config::{LayoutConfig, LayoutParams};
use crate::event::{event_views, lines_of, page_count, EventView, PageEvent};
use crate::packing::{
    law_line_numbers_follow_source, law_one_segment_per_line, law_packed_shape,
    lemma_packed_begins_with_page, numbered_by_source, one_line_each,
};
use crate::paginate::{all_segments, packed, pages_needed, paginate, Segment};
use crate::text::{expand_tabs, expanded, logical_lines, split_lines, texts};
use crate::unit::CodeFile;
use crate::wrap::{
    all_fit, every_line_has_a_segment, fits_unwrapped, lemma_all_fit_unbroken,
    short_lines_unbroken, without_trailing_spaces, wrap_lines, wrapped, wrapped_lines,
};
use vstd::prelude::*;

verus! {

/// The logical lines of `text` after its tabs were expanded.
pub open spec fn source_lines(text: Seq<char>, tab_width: nat) -> Seq<Seq<char>> {
    logical_lines(expanded(text, tab_width))
}

/// The wrapped segments of `text`, line by line.
pub open spec fn wrapped_source(text: Seq<char>, cfg: LayoutParams) -> Seq<Seq<Seq<char>>> {
    wrapped_lines(source_lines(text, cfg.tab_width), cfg.wrap_width)
}

/// The segments of `text` in reading order.
pub open spec fn layout_segments(text: Seq<char>, cfg: LayoutParams) -> Seq<Segment> {
    all_segments(wrapped_source(text, cfg))
}

/// The page events of the unit with the given name and text.
pub open spec fn layout_events(name: Seq<char>, text: Seq<char>, cfg: LayoutParams) -> Seq<
    EventView,
> {
    packed(name, layout_segments(text, cfg), cfg.page_height_lines, cfg.show_line_numbers)
}

/// Lays out one unit: expands its tabs, splits it into logical lines, wraps
/// each line at `cfg.wrap_width()` columns and packs the segments onto pages.
///
/// The first clause fixes the events, given what the wrapping returned.  The
/// next two say of that wrapping what holds whatever the text: no line is left
/// without a segment, and no line that fits is broken, so that a blank line
/// takes one slot.  The others hold of every text.  The first event opens a
/// page, and as many pages are opened as the segments need, one at least.
/// Line numbers follow the source lines, however the lines are wrapped and
/// wherever the pages break.  Where every line fits there are no extra wraps:
/// each logical line gives exactly one line event.
pub fn layout(unit: &CodeFile, cfg: &LayoutConfig) -> (events: Vec<PageEvent>)
    ensures
        event_views(events@) == layout_events(unit.name@, unit.text@, cfg@),
        every_line_has_a_segment(wrapped_source(unit.text@, cfg@)),
        short_lines_unbroken(
            source_lines(unit.text@, cfg@.tab_width),
            wrapped_source(unit.text@, cfg@),
            cfg@.wrap_width,
        ),
        events.len() >= 1,
        events[0]@ == EventView::NewPage(unit.name@),
        page_count(event_views(events@)) == pages_needed(
            layout_segments(unit.text@, cfg@).len(),
            cfg@.page_height_lines,
        ),
        numbered_by_source(
            lines_of(event_views(events@)),
            source_lines(unit.text@, cfg@.tab_width).len(),
            cfg@.show_line_numbers,
        ),
        all_fit(source_lines(unit.text@, cfg@.tab_width), cfg@.wrap_width) ==> one_line_each(
            lines_of(event_views(events@)),
            source_lines(unit.text@, cfg@.tab_width),
        ),
{
    let height = cfg.page_height_lines();
    let normal = expand_tabs(unit.text.as_str(), cfg.tab_width());
    let lines = split_lines(normal.as_str());
    let segments = wrap_lines(&lines, cfg.wrap_width());
    proof {
        let source = source_lines(unit.text@, cfg@.tab_width);
        let width = cfg@.wrap_width;
        assert(source == texts(lines@));
        assert forall|i: int| 0 <= i < source.len() implies (#[trigger] wrapped_source(
            unit.text@,
            cfg@,
        )[i]).len() >= 1 by {
            assert(wrapped(lines[i]@, width).len() >= 1);
        }
        assert forall|i: int| 0 <= i < source.len() && fits_unwrapped(source[i], width) implies (
        #[trigger] wrapped_source(unit.text@, cfg@)[i]) == seq![
            without_trailing_spaces(source[i]),
        ] by {
            assert(wrapped(lines[i]@, width) == seq![without_trailing_spaces(lines[i]@)]);
        }
        lemma_packed_begins_with_page(
            unit.name@,
            layout_segments(unit.text@, cfg@),
            cfg@.page_height_lines,
            cfg@.show_line_numbers,
        );
        law_packed_shape(
            unit.name@,
            layout_segments(unit.text@, cfg@),
            height as nat,
            cfg@.show_line_numbers,
        );
        law_line_numbers_follow_source(
            unit.name@,
            wrapped_source(unit.text@, cfg@),
            height as nat,
            cfg@.show_line_numbers,
        );
        if all_fit(source, width) {
            lemma_all_fit_unbroken(source, wrapped_source(unit.text@, cfg@), width);
            law_one_segment_per_line(unit.name@, source, height as nat, cfg@.show_line_numbers);
        }
    }
    paginate(unit.name.as_str(), &segments, cfg)
}

} // verus!
