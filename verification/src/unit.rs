//! A source unit: one file's display name and text.

use crate::config::LayoutConfig;
use crate::event::PageEvent;
use crate::laws::{
    law_layout_can_be_rendered, law_one_bookmark_per_unit, law_tab_expansion_is_absorbed,
};
use crate::layout::{layout, layout_events, layout_segments};
use crate::render::{bookmark_count, op_views, outcome, render, DrawOp, OpView, RenderState};
use crate::text::{expand_tabs, expanded};
use vstd::pervasive::unreached;
use vstd::prelude::*;

verus! {

/// One file to render: the name under which it is shown, and its text.
#[derive(Clone, Debug, PartialEq, Eq)]
pub struct CodeFile {
    pub name: String,
    pub text: String,
}

impl CodeFile {
    /// A unit with the given display name and text.
    pub fn new(name: &str, text: &str) -> (unit: CodeFile)
        ensures
            unit.name@ == name@,
            unit.text@ == text@,
    {
        CodeFile { name: name.to_owned(), text: text.to_owned() }
    }

    /// Lays the unit out and returns the drawing operations for its pages, in
    /// the order in which they are to be performed.  The unit's text is left
    /// with its tabs expanded.
    ///
    /// The operations are those of the unit's layout.  Whatever the text, they
    /// open the first page, write its header and register the unit's one
    /// bookmark on it.
    pub fn print_page(&mut self, cfg: &LayoutConfig) -> (ops: Vec<DrawOp>)
        ensures
            final(self).name@ == old(self).name@,
            final(self).text@ == expanded(old(self).text@, cfg@.tab_width),
            outcome(layout_events(old(self).name@, old(self).text@, cfg@)) == Some(
                (RenderState::PageOpen, op_views(ops@)),
            ),
            ops.len() >= 3,
            ops[0]@ == OpView::OpenPage(old(self).name@),
            ops[1]@ == OpView::Header(old(self).name@),
            ops[2]@ == OpView::Bookmark(old(self).name@),
            bookmark_count(op_views(ops@)) == 1,
    {
        let normal = expand_tabs(self.text.as_str(), cfg.tab_width());
        let ghost raw = self.text@;
        self.text = normal;
        let events: Vec<PageEvent> = layout(self, cfg);
        proof {
            law_tab_expansion_is_absorbed(self.name@, raw, cfg@);
            law_layout_can_be_rendered(self.name@, raw, cfg@);
            law_one_bookmark_per_unit(
                self.name@,
                layout_segments(raw, cfg@),
                cfg@.page_height_lines,
                cfg@.show_line_numbers,
            );
        }
        match render(&events) {
            Ok(ops) => ops,
            // A layout begins with a page, so its rendering cannot fail.
            Err(_) => unreached(),
        }
    }

    /// The operation that writes the unit's name at the top of a page.
    pub fn put_fname_on_top(&self) -> (op: DrawOp)
        ensures
            op@ == OpView::Header(self.name@),
    {
        DrawOp::Header(self.name.clone())
    }
}

} // verus!
