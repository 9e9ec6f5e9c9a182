//! The shared work queue: a last-in-first-out container of pending path
//! items. The driver guards one instance with a mutex and pairs it with a
//! "work available" condition variable; the container itself, and the exact
//! effect of each operation on its contents, is verified here.
//!
//! Ordering is last-in-first-out per producer; nothing more is promised to
//! the walk, and nothing more is needed.

use vstd::prelude::*;

verus! {

/// A LIFO queue of pending path items.
pub struct WorkQueue {
    items: Vec<String>,
}

impl WorkQueue {
    /// The pending items, oldest first; the last element is popped next.
    pub closed spec fn view(&self) -> Seq<String> {
        self.items@
    }

    /// An empty queue.
    pub fn empty() -> (q: WorkQueue)
        ensures
            q@ == Seq::<String>::empty(),
    {
        WorkQueue { items: Vec::new() }
    }

    /// A queue holding the given items, which will be popped in reverse of
    /// the order given.
    pub fn with_items(items: Vec<String>) -> (q: WorkQueue)
        ensures
            q@ == items@,
    {
        WorkQueue { items }
    }

    /// Append one pending item.
    pub fn push(&mut self, item: String)
        ensures
            final(self)@ == old(self)@.push(item),
    {
        self.items.push(item);
    }

    /// Remove and return the most recently pushed item, or report empty.
    pub fn pop(&mut self) -> (r: Option<String>)
        ensures
            old(self)@.len() == 0 ==> r is None && final(self)@ == old(self)@,
            old(self)@.len() > 0 ==> r == Some(old(self)@.last()) && final(self)@ == old(
                self,
            )@.drop_last(),
    {
        self.items.pop()
    }

    /// The number of pending items.
    pub fn len(&self) -> (n: usize)
        ensures
            n == self@.len(),
    {
        self.items.len()
    }

    /// True iff nothing is pending.
    pub fn is_empty(&self) -> (r: bool)
        ensures
            r == (self@.len() == 0),
    {
        self.items.len() == 0
    }
}

} // verus!
