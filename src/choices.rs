use vstd::prelude::*;
use crate::chat::{ChatContent, ChatPosition};
use crate::tag::Tagged;

verus! {

/// One option of a choice group, which moves on to `next` when it is picked.
pub struct Choice {
    text: &'static str,
    tags: &'static [&'static str],
    next: ChatPosition,
}

impl Choice {
    /// The characters of the option's text.
    pub closed spec fn text(&self) -> Seq<char> {
        self.text@
    }

    /// The position that follows the option when it is picked.
    pub closed spec fn next(&self) -> ChatPosition {
        self.next
    }

    /// The text of the option.
    pub fn get_text(&self) -> (r: &'static str)
        ensures
            r@ == self.text(),
    {
        self.text
    }

    /// The position to go on to after the option.
    pub fn get_next(&self) -> (r: ChatPosition)
        ensures
            r == self.next(),
    {
        self.next
    }

    /// An option with the given text and tags, followed by the node at `next`,
    /// or by the end where `next` is `None`.
    pub fn new(text: &'static str, tags: &'static [&'static str], next: Option<usize>) -> (r: Choice)
        ensures
            r.text() == text@,
            r.tag_names() == tags@,
            r.next().index() == next,
    {
        Choice { text, tags, next: ChatPosition::from_next(next) }
    }

    /// A choice group that offers `choices`, in the given order. A group with
    /// no options is accepted, and is a dead end: nothing can be picked.
    pub fn new_group(choices: Vec<Choice>) -> (r: ChatContent)
        ensures
            r == ChatContent::Choices(choices),
    {
        ChatContent::Choices(choices)
    }
}

impl Tagged for Choice {
    closed spec fn tag_names(&self) -> Seq<&'static str> {
        self.tags@
    }

    fn get_tag_names(&self) -> (r: &'static [&'static str]) {
        self.tags
    }
}

} // verus!
