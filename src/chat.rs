use vstd::prelude::*;
use crate::choices::Choice;
use crate::line::Line;

verus! {

/// An address in a [`Chat`]: either the index of a node or the end of the
/// conversation.
#[derive(Copy, Clone, PartialEq, Eq, Structural, PartialOrd, Ord, Debug)]
pub struct ChatPosition(pub(crate) Option<usize>);

impl ChatPosition {
    /// The index this position addresses, or `None` at the end.
    pub closed spec fn index(self) -> Option<usize> {
        self.0
    }

    /// The position past the last node: resolving it yields no node.
    pub fn end() -> (r: ChatPosition)
        ensures
            r.index() == None::<usize>,
    {
        ChatPosition(None)
    }

    /// The position of the node at offset `i`.
    pub fn start_with_index(i: usize) -> (r: ChatPosition)
        ensures
            r.index() == Some(i),
    {
        ChatPosition(Some(i))
    }

    /// The position that a stored link `next` stands for: the node at that
    /// offset, or the end where there is none.
    pub(crate) fn from_next(next: Option<usize>) -> (r: ChatPosition)
        ensures
            r.index() == next,
    {
        ChatPosition(next)
    }

    /// The position of the first node.
    pub fn start() -> (r: ChatPosition)
        ensures
            r.index() == Some(0usize),
    {
        ChatPosition(Some(0))
    }
}

/// A node of a chat: a line of narration, or a group of options to pick from.
pub enum ChatContent {
    Line(Line),
    Choices(Vec<Choice>),
}

/// A whole chat: its nodes, in order, fixed when it is made.
pub struct Chat {
    content: Vec<ChatContent>,
}

impl View for Chat {
    type V = Seq<ChatContent>;

    closed spec fn view(&self) -> Seq<ChatContent> {
        self.content@
    }
}

impl Chat {
    /// The node that `position` addresses: none at the end, and none for an
    /// index past the last node.
    pub open spec fn resolve(&self, position: ChatPosition) -> Option<ChatContent> {
        match position.index() {
            Some(i) => if i < self@.len() {
                Some(self@[i as int])
            } else {
                None
            },
            None => None,
        }
    }

    /// The node at `position`, or `None` at the end of the chat or where the
    /// index is past the last node.
    pub fn get(&self, position: ChatPosition) -> (r: Option<&ChatContent>)
        ensures
            r.is_some() == self.resolve(position).is_some(),
            r.is_some() ==> *r.unwrap() == self.resolve(position).unwrap(),
    {
        match position.0 {
            Some(pos) => if pos < self.content.len() {
                Some(&self.content[pos])
            } else {
                None
            },
            None => None,
        }
    }

    /// A chat of the given nodes; position `i` addresses `content[i]`.
    pub fn new(content: Vec<ChatContent>) -> (r: Chat)
        ensures
            r@ == content@,
    {
        Chat { content }
    }
}

/// Resolving the end yields no node, whatever nodes the chat holds.
pub proof fn lemma_end_resolves_to_no_node(chat: Chat, p: ChatPosition)
    requires
        p.index() is None,
    ensures
        chat.resolve(p) is None,
{
}

/// Resolving an index inside the chat yields the node stored at that offset
/// when the chat was made; resolving is a function of the chat and the
/// position alone, so repeating it yields the same node.
pub proof fn lemma_index_resolves_to_stored_node(chat: Chat, p: ChatPosition, i: usize)
    requires
        p.index() == Some(i),
        i < chat@.len(),
    ensures
        chat.resolve(p) == Some(chat@[i as int]),
{
}

/// Resolving an index at or past the length of the chat yields no node.
pub proof fn lemma_out_of_range_resolves_to_no_node(chat: Chat, p: ChatPosition, i: usize)
    requires
        p.index() == Some(i),
        i >= chat@.len(),
    ensures
        chat.resolve(p) is None,
{
}

/// A position is determined by the index it addresses: a link stored with
/// `Some(i)` is the position `start_with_index(i)`, and one stored with `None`
/// is `end()`.
pub proof fn lemma_position_determined_by_index(p: ChatPosition, q: ChatPosition)
    requires
        p.index() == q.index(),
    ensures
        p == q,
{
}

} // verus!
