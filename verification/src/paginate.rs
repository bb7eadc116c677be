//! Packing wrapped segments onto pages.

use crate::config::LayoutConfig;
use crate::event::{event_views, EventView, LineView, PageEvent, RenderedLine};
use crate::text::{decimal, decimal_string};
use crate::wrap::segment_texts;
use vstd::arithmetic::div_mod::{lemma_fundamental_div_mod, lemma_fundamental_div_mod_converse};
use vstd::prelude::*;

verus! {

/// A wrapped segment together with its place in the source text.
pub struct Segment {
    pub content: Seq<char>,
    pub line_number: nat,
    pub first_of_line: bool,
}

/// The segments of the logical line of the given number.
pub open spec fn line_segments(segments: Seq<Seq<char>>, number: nat) -> Seq<Segment> {
    Seq::new(
        segments.len(),
        |j: int| Segment { content: segments[j], line_number: number, first_of_line: j == 0 },
    )
}

/// The segments of all lines in reading order, each with the index of its line.
pub open spec fn all_segments(lines: Seq<Seq<Seq<char>>>) -> Seq<Segment>
    decreases lines.len(),
{
    if lines.len() == 0 {
        Seq::empty()
    } else {
        all_segments(lines.drop_last()) + line_segments(lines.last(), (lines.len() - 1) as nat)
    }
}

/// The label of a logical line: its number in decimal notation and one space.
pub open spec fn line_label(number: nat) -> Seq<char> {
    decimal(number).push(' ')
}

/// The line event of the segment that is the `position`th of its unit, from 0,
/// on pages of `height` lines.
pub open spec fn placed_line(segment: Segment, position: nat, height: nat, numbered: bool) -> LineView {
    LineView {
        content: segment.content,
        label: if numbered && segment.first_of_line {
            Some(line_label(segment.line_number))
        } else {
            None
        },
        line_number: segment.line_number,
        first_segment: segment.first_of_line,
        slot: position % height + 1,
        first_on_page: position % height == 0,
    }
}

/// The events of one segment: its line, after a page break where the segment
/// is the first of a page other than the unit's first page.
pub open spec fn placed(
    name: Seq<char>,
    segment: Segment,
    position: nat,
    height: nat,
    numbered: bool,
) -> Seq<EventView> {
    let line = EventView::Line(placed_line(segment, position, height, numbered));
    if position > 0 && position % height == 0 {
        seq![EventView::NewPage(name), line]
    } else {
        seq![line]
    }
}

/// The events of a unit: its first page is opened, then each segment is placed.
pub open spec fn packed(name: Seq<char>, segments: Seq<Segment>, height: nat, numbered: bool) -> Seq<
    EventView,
>
    decreases segments.len(),
{
    if segments.len() == 0 {
        seq![EventView::NewPage(name)]
    } else {
        packed(name, segments.drop_last(), height, numbered) + placed(
            name,
            segments.last(),
            (segments.len() - 1) as nat,
            height,
            numbered,
        )
    }
}

/// The number of pages that `count` segments take on pages of `height` lines:
/// one page even where there is nothing to place.
pub open spec fn pages_needed(count: nat, height: nat) -> nat {
    if count == 0 {
        1
    } else {
        ((count - 1) as nat) / height + 1
    }
}

/// The slot of the last segment placed, 0 where none was.
pub open spec fn slot_after(count: nat, height: nat) -> nat {
    if count == 0 {
        0
    } else {
        ((count - 1) as nat) % height + 1
    }
}

/// Quotient and remainder of the successor.
pub proof fn lemma_mod_successor(k: nat, h: nat)
    requires
        h > 0,
    ensures
        (k + 1) % h == (if k % h == h - 1 {
            0
        } else {
            k % h + 1
        }),
        (k + 1) / h == (if k % h == h - 1 {
            k / h + 1
        } else {
            k / h
        }),
{
    let q = k as int / h as int;
    let r = k as int % h as int;
    lemma_fundamental_div_mod(k as int, h as int);
    assert(k == q * h + r) by (nonlinear_arith)
        requires
            k == h * q + r,
    ;
    if r == h - 1 {
        assert(k + 1 == (q + 1) * h + 0) by (nonlinear_arith)
            requires
                k == q * h + r,
                r == h - 1,
        ;
        lemma_fundamental_div_mod_converse(k as int + 1, h as int, q + 1, 0);
    } else {
        lemma_fundamental_div_mod_converse(k as int + 1, h as int, q, r + 1);
    }
}

/// Packs the wrapped segments of a unit's lines onto pages of
/// `cfg.page_height_lines()` lines.  A line without segments places nothing
/// and still counts as a line.
pub fn paginate(name: &str, lines: &Vec<Vec<String>>, cfg: &LayoutConfig) -> (events: Vec<PageEvent>)
    ensures
        event_views(events@) == packed(
            name@,
            all_segments(segment_texts(lines@)),
            cfg@.page_height_lines,
            cfg@.show_line_numbers,
        ),
{
    let height = cfg.page_height_lines();
    let numbered = cfg.show_line_numbers();
    let ghost source = segment_texts(lines@);
    let mut events: Vec<PageEvent> = Vec::new();
    events.push(PageEvent::NewPage(name.to_owned()));
    let mut slot: usize = 0;
    let ghost mut placed_so_far: Seq<Segment> = Seq::empty();
    let mut i: usize = 0;
    while i < lines.len()
        invariant
            i <= lines.len(),
            height > 0,
            source == segment_texts(lines@),
            placed_so_far == all_segments(source.take(i as int)),
            event_views(events@) == packed(name@, placed_so_far, height as nat, numbered),
            slot == slot_after(placed_so_far.len(), height as nat),
        decreases lines.len() - i,
    {
        let line = &lines[i];
        let ghost before = placed_so_far;
        let ghost this_line = line_segments(source[i as int], i as nat);
        let mut j: usize = 0;
        while j < line.len()
            invariant
                j <= line.len(),
                i < lines.len(),
                height > 0,
                line == &lines[i as int],
                source == segment_texts(lines@),
                this_line == line_segments(source[i as int], i as nat),
                placed_so_far == before + this_line.take(j as int),
                event_views(events@) == packed(name@, placed_so_far, height as nat, numbered),
                slot == slot_after(placed_so_far.len(), height as nat),
            decreases line.len() - j,
        {
            let ghost position = placed_so_far.len();
            let ghost segment = this_line[j as int];
            let ghost earlier = event_views(events@);
            proof {
                if position > 0 {
                    lemma_mod_successor((position - 1) as nat, height as nat);
                }
            }
            if slot >= height {
                events.push(PageEvent::NewPage(name.to_owned()));
                slot = 0;
            }
            slot = slot + 1;
            let label = if numbered && j == 0 {
                let mut label = decimal_string(i);
                label.push(' ');
                Some(label)
            } else {
                None
            };
            let rendered = RenderedLine {
                content: line[j].clone(),
                label,
                line_number: i,
                first_segment: j == 0,
                slot,
                first_on_page: slot == 1,
            };
            assert(rendered@ == placed_line(segment, position, height as nat, numbered));
            events.push(PageEvent::Line(rendered));
            proof {
                placed_so_far = placed_so_far.push(segment);
                assert(placed_so_far.drop_last() == before + this_line.take(j as int));
                assert(event_views(events@) == earlier + placed(
                    name@,
                    segment,
                    position,
                    height as nat,
                    numbered,
                ));
            }
            j = j + 1;
        }
        proof {
            assert(source.take(i + 1).drop_last() == source.take(i as int));
        }
        i = i + 1;
    }
    assert(source.take(i as int) == source);
    events
}

} // verus!
