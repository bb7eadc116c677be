//! The document builder's decisions: which drawing operations an event asks for.
//!
//! The builder itself draws nothing.  It turns page events into operations on
//! a document that the caller owns and performs in order.  The events of one
//! unit are rendered from the state [`RenderState::AwaitingPage`]; their end
//! ends the unit, and the next unit starts from that state again.

use crate::event::{event_views, EventView, LineView, PageEvent};
use vstd::prelude::*;

verus! {

/// The mathematical content of a [`DrawOp`].
pub enum OpView {
    OpenPage(Seq<char>),
    Header(Seq<char>),
    Bookmark(Seq<char>),
    Text { text: Seq<char>, slot: nat },
}

/// One operation on the document.
#[derive(Clone, Debug, PartialEq, Eq)]
pub enum DrawOp {
    /// Append a page for the unit of this name and make it the current page.
    OpenPage(String),
    /// Write the unit's name as the header line of the current page.
    Header(String),
    /// Register a bookmark with this label that points at the current page.
    Bookmark(String),
    /// Write `text` at the left margin in body slot `slot` of the current page.
    Text { text: String, slot: usize },
}

impl View for DrawOp {
    type V = OpView;

    open spec fn view(&self) -> OpView {
        match self {
            DrawOp::OpenPage(name) => OpView::OpenPage(name@),
            DrawOp::Header(name) => OpView::Header(name@),
            DrawOp::Bookmark(name) => OpView::Bookmark(name@),
            DrawOp::Text { text, slot } => OpView::Text { text: text@, slot: *slot as nat },
        }
    }
}

/// The views of a sequence of operations.
pub open spec fn op_views(ops: Seq<DrawOp>) -> Seq<OpView> {
    ops.map_values(|op: DrawOp| op@)
}

/// Where the builder stands within one unit.
#[derive(Clone, Copy, Debug, PartialEq, Eq, Structural)]
pub enum RenderState {
    /// No page of the unit is open yet.
    AwaitingPage,
    /// A page of the unit is open and takes lines.
    PageOpen,
}

/// Why an event could not be rendered.
#[derive(Clone, Copy, Debug, PartialEq, Eq, Structural)]
pub enum RenderError {
    /// A line came before the unit's first page was opened.
    NoOpenPage,
}

/// The operations that open a page for the unit `name`.  Only the unit's first
/// page gets the bookmark.
pub open spec fn page_ops(name: Seq<char>, first: bool) -> Seq<OpView> {
    if first {
        seq![OpView::OpenPage(name), OpView::Header(name), OpView::Bookmark(name)]
    } else {
        seq![OpView::OpenPage(name), OpView::Header(name)]
    }
}

/// One transition: the next state and the operations to perform, or `None`
/// where the event has no place in the state.
pub open spec fn step(state: RenderState, event: EventView) -> Option<(RenderState, Seq<OpView>)> {
    match event {
        EventView::NewPage(name) => Some(
            (RenderState::PageOpen, page_ops(name, state == RenderState::AwaitingPage)),
        ),
        EventView::Line(line) => match state {
            RenderState::AwaitingPage => None,
            RenderState::PageOpen => Some(
                (RenderState::PageOpen, seq![OpView::Text { text: line.text(), slot: line.slot }]),
            ),
        },
    }
}

/// The state reached and the operations asked for by a whole event sequence,
/// starting without a page, or `None` where some event has no place.
pub open spec fn outcome(events: Seq<EventView>) -> Option<(RenderState, Seq<OpView>)>
    decreases events.len(),
{
    if events.len() == 0 {
        Some((RenderState::AwaitingPage, Seq::empty()))
    } else {
        match outcome(events.drop_last()) {
            None => None,
            Some((state, ops)) => match step(state, events.last()) {
                None => None,
                Some((next, more)) => Some((next, ops + more)),
            },
        }
    }
}

/// The number of bookmarks that a sequence of operations registers.
pub open spec fn bookmark_count(ops: Seq<OpView>) -> nat
    decreases ops.len(),
{
    if ops.len() == 0 {
        0
    } else if ops.last() is Bookmark {
        bookmark_count(ops.drop_last()) + 1
    } else {
        bookmark_count(ops.drop_last())
    }
}

/// The number of pages that a sequence of operations opens.
pub open spec fn opened_pages(ops: Seq<OpView>) -> nat
    decreases ops.len(),
{
    if ops.len() == 0 {
        0
    } else if ops.last() is OpenPage {
        opened_pages(ops.drop_last()) + 1
    } else {
        opened_pages(ops.drop_last())
    }
}

/// The operations for one event in one state.
pub fn render_step(state: RenderState, event: &PageEvent) -> (r: Result<
    (RenderState, Vec<DrawOp>),
    RenderError,
>)
    ensures
        (match r {
            Ok((next, ops)) => step(state, event@) == Some((next, op_views(ops@))),
            Err(e) => step(state, event@) is None && e == RenderError::NoOpenPage,
        }),
{
    let mut ops: Vec<DrawOp> = Vec::new();
    match event {
        PageEvent::NewPage(name) => {
            ops.push(DrawOp::OpenPage(name.clone()));
            ops.push(DrawOp::Header(name.clone()));
            match state {
                RenderState::AwaitingPage => {
                    ops.push(DrawOp::Bookmark(name.clone()));
                },
                RenderState::PageOpen => {},
            }
            Ok((RenderState::PageOpen, ops))
        },
        PageEvent::Line(line) => match state {
            RenderState::AwaitingPage => Err(RenderError::NoOpenPage),
            RenderState::PageOpen => {
                ops.push(DrawOp::Text { text: line.text(), slot: line.slot });
                Ok((RenderState::PageOpen, ops))
            },
        },
    }
}

/// The operations for the events of one unit, in order.
///
/// Fails if and only if the sequence begins with a line.
pub fn render(events: &Vec<PageEvent>) -> (r: Result<Vec<DrawOp>, RenderError>)
    ensures
        r is Ok <==> (events.len() > 0 ==> events[0]@ is NewPage),
        (match r {
            Ok(ops) => outcome(event_views(events@)) matches Some((_, drawn)) && drawn == op_views(
                ops@,
            ),
            Err(e) => outcome(event_views(events@)) is None && e == RenderError::NoOpenPage,
        }),
{
    let ghost views = event_views(events@);
    let mut state = RenderState::AwaitingPage;
    let mut ops: Vec<DrawOp> = Vec::new();
    let mut i: usize = 0;
    while i < events.len()
        invariant
            i <= events.len(),
            views == event_views(events@),
            outcome(views.take(i as int)) == Some((state, op_views(ops@))),
        decreases events.len() - i,
    {
        assert(views.take(i + 1).drop_last() == views.take(i as int));
        match render_step(state, &events[i]) {
            Ok((next, mut more)) => {
                ops.append(&mut more);
                state = next;
            },
            Err(e) => {
                proof {
                    lemma_outcome_defined(views.take(i + 1));
                    lemma_outcome_defined(views);
                }
                return Err(e);
            },
        }
        i = i + 1;
    }
    proof {
        assert(views.take(i as int) == views);
        lemma_outcome_defined(views);
    }
    Ok(ops)
}

/// An event sequence can be rendered if and only if it does not begin with a
/// line.
pub proof fn lemma_outcome_defined(events: Seq<EventView>)
    ensures
        outcome(events) is Some <==> (events.len() > 0 ==> events[0] is NewPage),
        outcome(events) matches Some((state, _)) ==> (state == RenderState::AwaitingPage
            <==> events.len() == 0),
    decreases events.len(),
{
    if events.len() > 0 {
        lemma_outcome_defined(events.drop_last());
    }
}

/// Rendering one more event.
pub proof fn lemma_outcome_push(events: Seq<EventView>, event: EventView)
    ensures
        outcome(events.push(event)) == (match outcome(events) {
            None => None,
            Some((state, ops)) => match step(state, event) {
                None => None,
                Some((next, more)) => Some((next, ops + more)),
            },
        }),
{
    assert(events.push(event).drop_last() == events);
}

/// Bookmarks registered by a concatenation.
pub proof fn lemma_bookmark_count_concat(a: Seq<OpView>, b: Seq<OpView>)
    ensures
        bookmark_count(a + b) == bookmark_count(a) + bookmark_count(b),
        opened_pages(a + b) == opened_pages(a) + opened_pages(b),
    decreases b.len(),
{
    if b.len() > 0 {
        assert((a + b).drop_last() == a + b.drop_last());
        lemma_bookmark_count_concat(a, b.drop_last());
    }
}

/// The operations that open a page hold one bookmark for the first page and
/// none for a later one.
pub proof fn lemma_page_ops(name: Seq<char>, first: bool)
    ensures
        bookmark_count(page_ops(name, first)) == (if first {
            1nat
        } else {
            0nat
        }),
        opened_pages(page_ops(name, first)) == 1,
{
    reveal_with_fuel(bookmark_count, 4);
    reveal_with_fuel(opened_pages, 4);
}

/// What rendering a line on an open page adds.
pub proof fn lemma_render_line(events: Seq<EventView>, line: LineView)
    requires
        outcome(events) matches Some((state, _)) && state == RenderState::PageOpen,
    ensures
        outcome(events.push(EventView::Line(line))) == Some(
            (
                RenderState::PageOpen,
                outcome(events)->Some_0.1.push(OpView::Text { text: line.text(), slot: line.slot }),
            ),
        ),
        bookmark_count(outcome(events.push(EventView::Line(line)))->Some_0.1) == bookmark_count(
            outcome(events)->Some_0.1,
        ),
        opened_pages(outcome(events.push(EventView::Line(line)))->Some_0.1) == opened_pages(
            outcome(events)->Some_0.1,
        ),
{
    let ops = outcome(events)->Some_0.1;
    let op = OpView::Text { text: line.text(), slot: line.slot };
    lemma_outcome_push(events, EventView::Line(line));
    assert(ops.push(op).drop_last() == ops);
}

/// What rendering a further page adds.
pub proof fn lemma_render_next_page(events: Seq<EventView>, name: Seq<char>)
    requires
        outcome(events) matches Some((state, _)) && state == RenderState::PageOpen,
    ensures
        outcome(events.push(EventView::NewPage(name))) == Some(
            (RenderState::PageOpen, outcome(events)->Some_0.1 + page_ops(name, false)),
        ),
        bookmark_count(outcome(events.push(EventView::NewPage(name)))->Some_0.1) == bookmark_count(
            outcome(events)->Some_0.1,
        ),
        opened_pages(outcome(events.push(EventView::NewPage(name)))->Some_0.1) == opened_pages(
            outcome(events)->Some_0.1,
        ) + 1,
{
    let ops = outcome(events)->Some_0.1;
    lemma_outcome_push(events, EventView::NewPage(name));
    lemma_page_ops(name, false);
    lemma_bookmark_count_concat(ops, page_ops(name, false));
}

} // verus!
