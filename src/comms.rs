//! Change notifications that the text buffer hands to its listeners.
use vstd::prelude::*;

verus! {

/// What an edit inserted or took away.
pub enum EventData {
    Char(char),
    CharRange(String),
}

/// One change of the buffer's contents, anchored at an absolute offset:
/// insertions and deletions run forward from it, removals backward.
pub enum Event {
    INSERTION(usize, EventData),
    DELETION(usize, EventData),
    REMOVAL(usize, EventData),
}

/// A party interested in the buffer's changes, such as a rendering layer.
pub trait EventListener {
    fn on_event(&self, evt: Event);
}

} // verus!
