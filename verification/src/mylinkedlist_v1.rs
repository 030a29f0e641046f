//! A last-in-first-out list of `i32` values: the simplest version, with a
//! fixed element type.  Elements enter and leave at the head.

use vstd::prelude::*;

verus! {

/// A LIFO list of `i32` values.  The view is the sequence of elements from
/// the oldest to the most recently pushed.
pub struct MyLinkedList {
    elems: Vec<i32>,
}

impl View for MyLinkedList {
    type V = Seq<i32>;

    closed spec fn view(&self) -> Seq<i32> {
        self.elems@
    }
}

impl Default for MyLinkedList {
    /// An empty list, same as `new`.
    fn default() -> (r: Self)
        ensures
            r@ == Seq::<i32>::empty(),
    {
        Self::new()
    }
}

impl MyLinkedList {
    /// An empty list.
    pub fn new() -> (r: Self)
        ensures
            r@ == Seq::<i32>::empty(),
    {
        MyLinkedList { elems: Vec::new() }
    }

    /// Add `element` at the head.
    pub fn push(&mut self, element: i32)
        ensures
            final(self)@ == old(self)@.push(element),
    {
        self.elems.push(element);
    }

    /// Remove and return the head element; `None` on an empty list.
    pub fn pop(&mut self) -> (r: Option<i32>)
        ensures
            old(self)@.len() == 0 ==> r is None && final(self)@ == old(self)@,
            old(self)@.len() > 0 ==> r == Some(old(self)@.last()) && final(self)@ == old(
                self,
            )@.drop_last(),
    {
        self.elems.pop()
    }
}

} // verus!
