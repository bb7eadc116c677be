//! What holds of every layout and of its rendering.

use crate::config::LayoutParams;
use crate::event::{page_count, EventView};
use crate::layout::{layout_events, layout_segments, source_lines, wrapped_source};
use crate::packing::lemma_packed_begins_with_page;
use crate::paginate::{packed, placed_line, Segment};
use crate::render::{
    bookmark_count, lemma_outcome_defined, lemma_outcome_push, lemma_page_ops, lemma_render_line,
    lemma_render_next_page, opened_pages, outcome, OpView, RenderState,
};
use crate::text::{
    expanded, has_tab, lemma_expanded_has_no_tab, lemma_expanded_without_tab,
    lemma_logical_lines_have_no_newline, lemma_logical_lines_of_ascii, logical_lines,
};
use crate::wrap::{all_fit, lemma_ascii_line_fits};
use vstd::prelude::*;
use vstd::utf8::{encode_utf8, is_ascii_chars};

verus! {

/// Laying out text whose tabs were already replaced by `tab_width` spaces
/// gives the same events as laying out the raw text with that tab width.
pub proof fn law_tab_expansion_is_absorbed(name: Seq<char>, text: Seq<char>, cfg: LayoutParams)
    ensures
        layout_events(name, expanded(text, cfg.tab_width), cfg) == layout_events(name, text, cfg),
        wrapped_source(expanded(text, cfg.tab_width), cfg) == wrapped_source(text, cfg),
{
    lemma_expanded_has_no_tab(text, cfg.tab_width);
    lemma_expanded_without_tab(expanded(text, cfg.tab_width), cfg.tab_width);
}

/// Text without tabs whose logical lines are each shorter than the wrap width,
/// counted in bytes of UTF-8, needs no wrapping: every line fits.
pub proof fn law_short_lines_fit(text: Seq<char>, cfg: LayoutParams)
    requires
        !has_tab(text),
        forall|i: int|
            0 <= i < logical_lines(text).len() ==> encode_utf8(
                #[trigger] logical_lines(text)[i],
            ).len() < cfg.wrap_width,
    ensures
        source_lines(text, cfg.tab_width) == logical_lines(text),
        all_fit(source_lines(text, cfg.tab_width), cfg.wrap_width),
{
    lemma_expanded_without_tab(text, cfg.tab_width);
    lemma_logical_lines_have_no_newline(text);
}

/// For ASCII text the length of a line in bytes is its number of characters:
/// where such text has no tab and every logical line has fewer characters
/// than the wrap width, every line fits.
pub proof fn law_short_ascii_lines_fit(text: Seq<char>, cfg: LayoutParams)
    requires
        is_ascii_chars(text),
        !has_tab(text),
        forall|i: int|
            0 <= i < logical_lines(text).len() ==> (#[trigger] logical_lines(text)[i]).len()
                < cfg.wrap_width,
    ensures
        source_lines(text, cfg.tab_width) == logical_lines(text),
        all_fit(source_lines(text, cfg.tab_width), cfg.wrap_width),
{
    lemma_logical_lines_of_ascii(text);
    lemma_logical_lines_have_no_newline(text);
    assert forall|i: int| 0 <= i < logical_lines(text).len() implies encode_utf8(
        #[trigger] logical_lines(text)[i],
    ).len() < cfg.wrap_width by {
        lemma_ascii_line_fits(logical_lines(text)[i], cfg.wrap_width);
    }
    law_short_lines_fit(text, cfg);
}

/// The first event of every layout opens a page, whatever the text, and every
/// layout can be rendered: the builder ends with a page open.
pub proof fn law_layout_can_be_rendered(name: Seq<char>, text: Seq<char>, cfg: LayoutParams)
    ensures
        layout_events(name, text, cfg).len() >= 1,
        layout_events(name, text, cfg)[0] == EventView::NewPage(name),
        outcome(layout_events(name, text, cfg)) matches Some((state, _)) && state
            == RenderState::PageOpen,
{
    let events = layout_events(name, text, cfg);
    lemma_packed_begins_with_page(
        name,
        layout_segments(text, cfg),
        cfg.page_height_lines,
        cfg.show_line_numbers,
    );
    lemma_outcome_defined(events);
}

/// Exactly one bookmark is registered for a unit, and it points at the page
/// that the unit's first event opened: the operations begin with the opening
/// of that page, its header and the bookmark, and no later operation is a
/// bookmark.  As many pages are opened as the events ask for.
pub proof fn law_one_bookmark_per_unit(
    name: Seq<char>,
    segments: Seq<Segment>,
    height: nat,
    numbered: bool,
)
    ensures
        outcome(packed(name, segments, height, numbered)) matches Some((state, ops)) && ({
            &&& state == RenderState::PageOpen
            &&& bookmark_count(ops) == 1
            &&& opened_pages(ops) == page_count(packed(name, segments, height, numbered))
            &&& ops.len() >= 3
            &&& ops[0] == OpView::OpenPage(name)
            &&& ops[1] == OpView::Header(name)
            &&& ops[2] == OpView::Bookmark(name)
        }),
    decreases segments.len(),
{
    let events = packed(name, segments, height, numbered);
    if segments.len() == 0 {
        let none = Seq::<EventView>::empty();
        lemma_outcome_push(none, EventView::NewPage(name));
        lemma_page_ops(name, true);
        reveal_with_fuel(page_count, 2);
    } else {
        let front = packed(name, segments.drop_last(), height, numbered);
        let position = (segments.len() - 1) as nat;
        let line = placed_line(segments.last(), position, height, numbered);
        law_one_bookmark_per_unit(name, segments.drop_last(), height, numbered);
        reveal_with_fuel(page_count, 3);
        if position > 0 && position % height == 0 {
            let paged = front.push(EventView::NewPage(name));
            assert(events == paged.push(EventView::Line(line)));
            lemma_render_next_page(front, name);
            lemma_render_line(paged, line);
            assert(paged.drop_last() == front);
            assert(events.drop_last() == paged);
        } else {
            assert(events == front.push(EventView::Line(line)));
            lemma_render_line(front, line);
            assert(events.drop_last() == front);
        }
    }
}

} // verus!
