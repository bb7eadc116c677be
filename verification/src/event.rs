//! Page events: what the layout hands to the document builder.

use vstd::prelude::*;
use vstd::string::StringExecFns;

verus! {

/// The mathematical content of a [`RenderedLine`].
pub struct LineView {
    pub content: Seq<char>,
    pub label: Option<Seq<char>>,
    pub line_number: nat,
    pub first_segment: bool,
    pub slot: nat,
    pub first_on_page: bool,
}

impl LineView {
    /// The text as drawn: the label, where there is one, and then the content.
    pub open spec fn text(self) -> Seq<char> {
        match self.label {
            Some(label) => label + self.content,
            None => self.content,
        }
    }
}

/// The mathematical content of a [`PageEvent`].
pub enum EventView {
    NewPage(Seq<char>),
    Line(LineView),
}

/// One wrapped segment of a logical line, placed on a page.
#[derive(Clone, Debug, PartialEq, Eq)]
pub struct RenderedLine {
    /// The segment's text.
    pub content: String,
    /// The line-number label that leads the text, if the segment carries one.
    pub label: Option<String>,
    /// Index of the logical line that the segment belongs to, from 0.
    pub line_number: usize,
    /// Whether this is the first segment of its logical line.
    pub first_segment: bool,
    /// Position in the body of its page, from 1.
    pub slot: usize,
    /// Whether this is the first line on its page.
    pub first_on_page: bool,
}

impl View for RenderedLine {
    type V = LineView;

    open spec fn view(&self) -> LineView {
        LineView {
            content: self.content@,
            label: match self.label {
                Some(label) => Some(label@),
                None => None,
            },
            line_number: self.line_number as nat,
            first_segment: self.first_segment,
            slot: self.slot as nat,
            first_on_page: self.first_on_page,
        }
    }
}

impl RenderedLine {
    /// The text to draw: the label, where there is one, and then the content.
    pub fn text(&self) -> (out: String)
        ensures
            out@ == self@.text(),
    {
        let mut out = String::new();
        match &self.label {
            Some(label) => {
                out.append(label.as_str());
            },
            None => {},
        }
        out.append(self.content.as_str());
        out
    }
}

/// An event of the layout of one unit: a page is opened for the unit of the
/// given name, or a line is placed on the open page.
#[derive(Clone, Debug, PartialEq, Eq)]
pub enum PageEvent {
    NewPage(String),
    Line(RenderedLine),
}

impl View for PageEvent {
    type V = EventView;

    open spec fn view(&self) -> EventView {
        match self {
            PageEvent::NewPage(name) => EventView::NewPage(name@),
            PageEvent::Line(line) => EventView::Line(line@),
        }
    }
}

/// The views of a sequence of events.
pub open spec fn event_views(events: Seq<PageEvent>) -> Seq<EventView> {
    events.map_values(|e: PageEvent| e@)
}

/// The number of pages that a sequence of events opens.
pub open spec fn page_count(events: Seq<EventView>) -> nat
    decreases events.len(),
{
    if events.len() == 0 {
        0
    } else if events.last() is NewPage {
        page_count(events.drop_last()) + 1
    } else {
        page_count(events.drop_last())
    }
}

/// The lines of a sequence of events, in order.
pub open spec fn lines_of(events: Seq<EventView>) -> Seq<LineView>
    decreases events.len(),
{
    if events.len() == 0 {
        Seq::empty()
    } else {
        match events.last() {
            EventView::Line(line) => lines_of(events.drop_last()).push(line),
            EventView::NewPage(_) => lines_of(events.drop_last()),
        }
    }
}

/// Pages opened by a concatenation.
pub proof fn lemma_page_count_concat(a: Seq<EventView>, b: Seq<EventView>)
    ensures
        page_count(a + b) == page_count(a) + page_count(b),
    decreases b.len(),
{
    if b.len() > 0 {
        assert((a + b).drop_last() == a + b.drop_last());
        lemma_page_count_concat(a, b.drop_last());
    }
}

/// Lines of a concatenation.
pub proof fn lemma_lines_of_concat(a: Seq<EventView>, b: Seq<EventView>)
    ensures
        lines_of(a + b) == lines_of(a) + lines_of(b),
    decreases b.len(),
{
    if b.len() > 0 {
        assert((a + b).drop_last() == a + b.drop_last());
        lemma_lines_of_concat(a, b.drop_last());
    }
}

} // verus!
