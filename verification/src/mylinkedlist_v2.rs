//! A last-in-first-out list over any element type, with head access and
//! three ways to walk the elements: by value, by shared reference, and by
//! mutable reference.

use vstd::prelude::*;

verus! {

/// A LIFO list of `T` values.  The view is the sequence of elements from
/// the oldest to the most recently pushed; the head is the last entry.
pub struct MyLinkedList<T> {
    elems: Vec<T>,
}

impl<T> View for MyLinkedList<T> {
    type V = Seq<T>;

    closed spec fn view(&self) -> Seq<T> {
        self.elems@
    }
}

impl<T> Default for MyLinkedList<T> {
    /// An empty list, same as `new`.
    fn default() -> (r: Self)
        ensures
            r@ == Seq::<T>::empty(),
    {
        Self::new()
    }
}

impl<T> MyLinkedList<T> {
    /// An empty list.
    pub fn new() -> (r: Self)
        ensures
            r@ == Seq::<T>::empty(),
    {
        MyLinkedList { elems: Vec::new() }
    }

    /// Add `element` at the head.
    pub fn push(&mut self, element: T)
        ensures
            final(self)@ == old(self)@.push(element),
    {
        self.elems.push(element);
    }

    /// Remove and return the head element; `None` on an empty list.
    pub fn pop(&mut self) -> (r: Option<T>)
        ensures
            old(self)@.len() == 0 ==> r is None && final(self)@ == old(self)@,
            old(self)@.len() > 0 ==> r == Some(old(self)@.last()) && final(self)@ == old(
                self,
            )@.drop_last(),
    {
        self.elems.pop()
    }

    /// Borrow the head element; `None` on an empty list.
    pub fn peek(&self) -> (r: Option<&T>)
        ensures
            self@.len() == 0 ==> r is None,
            self@.len() > 0 ==> r is Some && *r.unwrap() == self@.last(),
    {
        if self.elems.len() == 0 {
            None
        } else {
            Some(&self.elems[self.elems.len() - 1])
        }
    }

    /// Mutably borrow the head element; `None` on an empty list.  Whatever
    /// the caller writes through the borrow becomes the new head.
    pub fn peek_mut(&mut self) -> (r: Option<&mut T>)
        ensures
            old(self)@.len() == 0 ==> r is None && final(self)@ == old(self)@,
            old(self)@.len() > 0 ==> r is Some && *r.unwrap() == old(self)@.last()
                && final(self)@ == old(self)@.update(old(self)@.len() - 1, *final(r.unwrap())),
    {
        if self.elems.len() == 0 {
            None
        } else {
            let i: usize = self.elems.len() - 1;
            Some(&mut self.elems[i])
        }
    }

    /// Turn the list into an iterator that hands the elements out by value,
    /// head first.
    pub fn into_iter(self) -> (it: IntoIter<T>)
        ensures
            it@ == self@,
    {
        IntoIter { list: self }
    }

    /// An iterator over shared references to the elements, head first.
    pub fn iter(&self) -> (it: Iter<'_, T>)
        ensures
            it.inv(),
            it.spec_list() == self@,
            it.spec_remaining() == self@.len(),
    {
        Iter { list: self, remaining: self.elems.len() }
    }
}

/// Walks a consumed list by value, head first.
pub struct IntoIter<T> {
    list: MyLinkedList<T>,
}

impl<T> View for IntoIter<T> {
    type V = Seq<T>;

    closed spec fn view(&self) -> Seq<T> {
        self.list@
    }
}

impl<T> IntoIter<T> {
    /// The next element by value: the head of what remains.
    pub fn next(&mut self) -> (r: Option<T>)
        ensures
            old(self)@.len() == 0 ==> r is None && final(self)@ == old(self)@,
            old(self)@.len() > 0 ==> r == Some(old(self)@.last()) && final(self)@ == old(
                self,
            )@.drop_last(),
    {
        self.list.pop()
    }
}

/// Walks a borrowed list by shared reference, head first.
pub struct Iter<'a, T> {
    list: &'a MyLinkedList<T>,
    remaining: usize,
}

impl<'a, T> Iter<'a, T> {
    /// The borrowed list's elements.
    pub closed spec fn spec_list(&self) -> Seq<T> {
        self.list@
    }

    /// How many elements are still to be handed out.
    pub closed spec fn spec_remaining(&self) -> int {
        self.remaining as int
    }

    /// The cursor never exceeds the list.
    pub closed spec fn inv(&self) -> bool {
        self.remaining <= self.list@.len()
    }

    /// The next element by shared reference, from the head downwards.
    pub fn next(&mut self) -> (r: Option<&'a T>)
        requires
            old(self).inv(),
        ensures
            final(self).inv(),
            final(self).spec_list() == old(self).spec_list(),
            old(self).spec_remaining() == 0 ==> r is None && final(self).spec_remaining() == 0,
            old(self).spec_remaining() > 0 ==> {
                &&& r is Some
                &&& *r.unwrap() == old(self).spec_list()[old(self).spec_remaining() - 1]
                &&& final(self).spec_remaining() == old(self).spec_remaining() - 1
            },
    {
        if self.remaining == 0 {
            None
        } else {
            self.remaining = self.remaining - 1;
            Some(&self.list.elems[self.remaining])
        }
    }
}

} // verus!
