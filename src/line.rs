use vstd::prelude::*;
use crate::chat::{ChatContent, ChatPosition};
use crate::tag::Tagged;

verus! {

/// A line of narration, which moves on to `next` by itself.
pub struct Line {
    text: &'static str,
    tags: &'static [&'static str],
    next: ChatPosition,
}

impl Line {
    /// The characters of the line's text.
    pub closed spec fn text(&self) -> Seq<char> {
        self.text@
    }

    /// The position that follows the line.
    pub closed spec fn next(&self) -> ChatPosition {
        self.next
    }

    /// The text of the line.
    pub fn get_text(&self) -> (r: &'static str)
        ensures
            r@ == self.text(),
    {
        self.text
    }

    /// The position to go on to after the line.
    pub fn get_next(&self) -> (r: ChatPosition)
        ensures
            r == self.next(),
    {
        self.next
    }

    /// A narration node with the given text and tags, followed by the node at
    /// `next`, or by the end where `next` is `None`.
    pub fn new(
        text: &'static str,
        tags: &'static [&'static str],
        next: Option<usize>,
    ) -> (r: ChatContent)
        ensures
            r is Line,
            r->Line_0.text() == text@,
            r->Line_0.tag_names() == tags@,
            r->Line_0.next().index() == next,
    {
        ChatContent::Line(Line { text, tags, next: ChatPosition::from_next(next) })
    }
}

impl Tagged for Line {
    closed spec fn tag_names(&self) -> Seq<&'static str> {
        self.tags@
    }

    fn get_tag_names(&self) -> (r: &'static [&'static str]) {
        self.tags
    }
}

} // verus!
