//! What holds of every packing of segments onto pages.

use crate::event::{
    lemma_lines_of_concat, lemma_page_count_concat, lines_of, page_count, EventView, LineView,
};
use crate::paginate::{
    all_segments, lemma_mod_successor, line_label, packed, pages_needed, placed, placed_line,
    Segment,
};
use crate::wrap::{every_line_has_a_segment, unwrapped_lines, without_trailing_spaces};
use vstd::arithmetic::div_mod::{
    lemma_basic_div, lemma_div_basics, lemma_div_is_ordered, lemma_fundamental_div_mod,
    lemma_fundamental_div_mod_converse,
};
use vstd::prelude::*;

verus! {

/// The event at index `e` of a packing, in closed form.  Pages are blocks of
/// `height + 1` events: the opening of the page, then its lines.
pub open spec fn event_at(
    name: Seq<char>,
    segments: Seq<Segment>,
    height: nat,
    numbered: bool,
    e: int,
) -> EventView {
    let block = height as int + 1;
    if e % block == 0 {
        EventView::NewPage(name)
    } else {
        let k = e - e / block - 1;
        EventView::Line(placed_line(segments[k], k as nat, height, numbered))
    }
}

/// Line events whose numbers follow `line_count` source lines.  The first
/// belongs to line 0, each further one either continues the line of the one
/// before or begins the next line, and the last belongs to the last line.  An
/// event carries a label exactly where numbers are shown and it begins its
/// line, and the label is that line's number.
pub open spec fn numbered_by_source(drawn: Seq<LineView>, line_count: nat, numbered: bool) -> bool {
    &&& drawn.len() >= line_count
    &&& line_count > 0 ==> drawn[0].line_number == 0 && drawn[0].first_segment
        && drawn.last().line_number == line_count - 1
    &&& forall|k: int|
        0 < k < drawn.len() ==> (#[trigger] drawn[k]).line_number == drawn[k - 1].line_number + (
        if drawn[k].first_segment {
            1nat
        } else {
            0nat
        })
    &&& forall|k: int|
        0 <= k < drawn.len() ==> (#[trigger] drawn[k]).label == (if numbered
            && drawn[k].first_segment {
            Some(line_label(drawn[k].line_number))
        } else {
            None
        })
}

/// Line events that are the given lines, one event each: the event of line
/// `i` begins that line, carries the number `i` and holds the line without the
/// spaces at its end.
pub open spec fn one_line_each(drawn: Seq<LineView>, lines: Seq<Seq<char>>) -> bool {
    &&& drawn.len() == lines.len()
    &&& forall|i: int|
        0 <= i < lines.len() ==> {
            &&& (#[trigger] drawn[i]).content == without_trailing_spaces(lines[i])
            &&& drawn[i].line_number == i
            &&& drawn[i].first_segment
        }
}

/// The events of any segments begin with the opening of a page.
pub proof fn lemma_packed_begins_with_page(
    name: Seq<char>,
    segments: Seq<Segment>,
    height: nat,
    numbered: bool,
)
    ensures
        packed(name, segments, height, numbered).len() >= 1,
        packed(name, segments, height, numbered)[0] == EventView::NewPage(name),
    decreases segments.len(),
{
    if segments.len() > 0 {
        lemma_packed_begins_with_page(name, segments.drop_last(), height, numbered);
    }
}

/// What one placed segment adds: one line, and one page exactly where the
/// segment starts a page other than the first.
pub proof fn lemma_placed(
    name: Seq<char>,
    segment: Segment,
    position: nat,
    height: nat,
    numbered: bool,
)
    ensures
        lines_of(placed(name, segment, position, height, numbered)) == seq![
            placed_line(segment, position, height, numbered),
        ],
        page_count(placed(name, segment, position, height, numbered)) == (if position > 0
            && position % height == 0 {
            1nat
        } else {
            0nat
        }),
{
    reveal_with_fuel(lines_of, 3);
    reveal_with_fuel(page_count, 3);
}

/// The shape of every packing, whatever the page breaks: the lines are the
/// segments in order, each in the slot that its position gives it, and the
/// number of pages is the number needed.
pub proof fn law_packed_shape(name: Seq<char>, segments: Seq<Segment>, height: nat, numbered: bool)
    requires
        height > 0,
    ensures
        lines_of(packed(name, segments, height, numbered)) == Seq::new(
            segments.len(),
            |k: int| placed_line(segments[k], k as nat, height, numbered),
        ),
        page_count(packed(name, segments, height, numbered)) == pages_needed(segments.len(), height),
        packed(name, segments, height, numbered).len() == segments.len() + pages_needed(
            segments.len(),
            height,
        ),
    decreases segments.len(),
{
    let events = packed(name, segments, height, numbered);
    if segments.len() == 0 {
        reveal_with_fuel(lines_of, 2);
        reveal_with_fuel(page_count, 2);
    } else {
        let front = segments.drop_last();
        let position = (segments.len() - 1) as nat;
        let step = placed(name, segments.last(), position, height, numbered);
        law_packed_shape(name, front, height, numbered);
        lemma_placed(name, segments.last(), position, height, numbered);
        lemma_lines_of_concat(packed(name, front, height, numbered), step);
        lemma_page_count_concat(packed(name, front, height, numbered), step);
        if position > 0 {
            lemma_mod_successor((position - 1) as nat, height);
        }
        assert(lines_of(events) =~= Seq::new(
            segments.len(),
            |k: int| placed_line(segments[k], k as nat, height, numbered),
        ));
    }
}

/// A unit whose segments exactly fill one page takes one page, and one
/// segment more takes two.
pub proof fn law_page_break_boundary(
    name: Seq<char>,
    segments: Seq<Segment>,
    height: nat,
    numbered: bool,
)
    requires
        height > 0,
    ensures
        segments.len() == height ==> page_count(packed(name, segments, height, numbered)) == 1,
        segments.len() == height + 1 ==> page_count(packed(name, segments, height, numbered)) == 2,
        page_count(packed(name, segments, height, numbered)) >= 1,
{
    law_packed_shape(name, segments, height, numbered);
    lemma_basic_div(height as int - 1, height as int);
    lemma_div_basics(height as int);
}

/// Where the line of the segment at `position` stands among the events: after
/// the lines before it and the pages opened so far.
pub proof fn lemma_line_index(position: nat, height: nat)
    requires
        height > 0,
    ensures
        ({
            let index = position as int + position as int / height as int + 1;
            let block = height as int + 1;
            &&& index % block == position % height + 1
            &&& index / block == position / height
            &&& (index - (position % height + 1)) % block == 0
        }),
{
    let q = position as int / height as int;
    let r = position as int % height as int;
    let index = position + q + 1;
    lemma_fundamental_div_mod(position as int, height as int);
    assert(index == q * (height + 1) + (r + 1)) by (nonlinear_arith)
        requires
            position == height * q + r,
            index == position + q + 1,
    ;
    lemma_fundamental_div_mod_converse(index, height as int + 1, q, r + 1);
    lemma_fundamental_div_mod_converse(index - (r + 1), height as int + 1, q, 0);
}

/// The index of an event that is a line names a segment that exists.
pub proof fn lemma_event_segment_in_range(e: int, count: nat, height: nat)
    requires
        height > 0,
        0 <= e < count + pages_needed(count, height),
        e % (height as int + 1) != 0,
    ensures
        0 <= e - e / (height as int + 1) - 1 < count,
{
    let q = e / (height as int + 1);
    let r = e % (height as int + 1);
    lemma_fundamental_div_mod(e, height as int + 1);
    assert(e == q * height + q + r) by (nonlinear_arith)
        requires
            e == (height + 1) * q + r,
    ;
    let k = e - q - 1;
    assert(0 <= q) by (nonlinear_arith)
        requires
            e == q * height + q + r,
            0 <= e,
            0 < r <= height,
            height > 0,
    ;
    assert(0 <= k) by (nonlinear_arith)
        requires
            k == q * height + (r - 1),
            0 <= q,
            r >= 1,
            height > 0,
    ;
    if count > 0 {
        lemma_fundamental_div_mod_converse(k, height as int, q, r - 1);
        if k >= count {
            lemma_div_is_ordered(count - 1, k, height as int);
        }
    }
}

/// Every packing in closed form: the event at each index is the opening of a
/// page where the index is a multiple of `height + 1`, and else the line of
/// the segment that [`event_at`] names.
pub proof fn law_event_positions(
    name: Seq<char>,
    segments: Seq<Segment>,
    height: nat,
    numbered: bool,
)
    requires
        height > 0,
    ensures
        packed(name, segments, height, numbered).len() == segments.len() + pages_needed(
            segments.len(),
            height,
        ),
        forall|e: int|
            0 <= e < packed(name, segments, height, numbered).len() ==> #[trigger] packed(
                name,
                segments,
                height,
                numbered,
            )[e] == event_at(name, segments, height, numbered, e),
    decreases segments.len(),
{
    let events = packed(name, segments, height, numbered);
    law_packed_shape(name, segments, height, numbered);
    if segments.len() == 0 {
        assert(events[0] == event_at(name, segments, height, numbered, 0));
    } else {
        let earlier = segments.drop_last();
        let front = packed(name, earlier, height, numbered);
        let position = (segments.len() - 1) as nat;
        law_event_positions(name, earlier, height, numbered);
        law_packed_shape(name, earlier, height, numbered);
        lemma_line_index(position, height);
        if position > 0 {
            lemma_mod_successor((position - 1) as nat, height);
        } else {
            lemma_basic_div(0, height as int);
        }
        assert forall|e: int| 0 <= e < events.len() implies #[trigger] events[e] == event_at(
            name,
            segments,
            height,
            numbered,
            e,
        ) by {
            if e < front.len() && e % (height as int + 1) != 0 {
                lemma_event_segment_in_range(e, earlier.len(), height);
            }
        }
    }
}

/// Numbering by segments: the first segment belongs to line 0, each further
/// segment either continues its line or begins the next one, and the last
/// belongs to the last line.
pub proof fn lemma_segment_numbers(lines: Seq<Seq<Seq<char>>>)
    requires
        every_line_has_a_segment(lines),
    ensures
        all_segments(lines).len() >= lines.len(),
        lines.len() > 0 ==> all_segments(lines)[0].line_number == 0 && all_segments(
            lines,
        )[0].first_of_line && all_segments(lines).last().line_number == lines.len() - 1,
        forall|k: int|
            0 < k < all_segments(lines).len() ==> (#[trigger] all_segments(lines)[k]).line_number
                == all_segments(lines)[k - 1].line_number + (if all_segments(
                lines,
            )[k].first_of_line {
                1nat
            } else {
                0nat
            }),
    decreases lines.len(),
{
    if lines.len() > 0 {
        lemma_segment_numbers(lines.drop_last());
    }
}

/// Line numbers follow the source lines, however many segments a line is
/// wrapped into and wherever the pages break.
pub proof fn law_line_numbers_follow_source(
    name: Seq<char>,
    lines: Seq<Seq<Seq<char>>>,
    height: nat,
    numbered: bool,
)
    requires
        height > 0,
        every_line_has_a_segment(lines),
    ensures
        numbered_by_source(
            lines_of(packed(name, all_segments(lines), height, numbered)),
            lines.len(),
            numbered,
        ),
{
    let segments = all_segments(lines);
    lemma_segment_numbers(lines);
    law_packed_shape(name, segments, height, numbered);
}

/// No extra wraps: lines that are not broken give exactly one line event each.
pub proof fn law_one_segment_per_line(
    name: Seq<char>,
    lines: Seq<Seq<char>>,
    height: nat,
    numbered: bool,
)
    requires
        height > 0,
    ensures
        all_segments(unwrapped_lines(lines)) == Seq::new(
            lines.len(),
            |i: int|
                Segment {
                    content: without_trailing_spaces(lines[i]),
                    line_number: i as nat,
                    first_of_line: true,
                },
        ),
        one_line_each(
            lines_of(packed(name, all_segments(unwrapped_lines(lines)), height, numbered)),
            lines,
        ),
    decreases lines.len(),
{
    let single = Seq::new(
        lines.len(),
        |i: int|
            Segment {
                content: without_trailing_spaces(lines[i]),
                line_number: i as nat,
                first_of_line: true,
            },
    );
    if lines.len() > 0 {
        let front = lines.drop_last();
        law_one_segment_per_line(name, front, height, numbered);
        assert(unwrapped_lines(lines).drop_last() =~= unwrapped_lines(front));
        assert(all_segments(unwrapped_lines(lines)) =~= single);
    }
    law_packed_shape(name, single, height, numbered);
}

} // verus!
