use vstd::prelude::*;

use crate::lists::LinkedList;

verus! {

/// A deque on a linked list: both ends are cheap to reach.
pub struct LinkedListDeque<T: Copy + PartialEq> {
    buffer: LinkedList<T>,
}

impl<T: Copy + PartialEq> View for LinkedListDeque<T> {
    type V = Seq<T>;

    /// The values, front to back.
    closed spec fn view(&self) -> Seq<T> {
        self.buffer@
    }
}

impl<T: Copy + PartialEq> LinkedListDeque<T> {
    /// The list below keeps its books right.
    pub closed spec fn wf(&self) -> bool {
        self.buffer.wf()
    }

    /// An empty deque.
    pub fn new() -> (deque: Self)
        ensures
            deque.wf(),
            deque@ == Seq::<T>::empty(),
    {
        LinkedListDeque { buffer: LinkedList::new() }
    }

    /// Puts a value before the first one.
    pub fn push_front(&mut self, elt: T)
        requires
            old(self).wf(),
        ensures
            final(self).wf(),
            final(self)@ == seq![elt] + old(self)@,
    {
        self.buffer.push_front(elt)
    }

    /// Puts a value behind the last one.
    pub fn push_back(&mut self, elt: T)
        requires
            old(self).wf(),
        ensures
            final(self).wf(),
            final(self)@ == old(self)@.push(elt),
    {
        self.buffer.push_back(elt)
    }

    /// Takes the first value off, if there is one.
    pub fn pop_front(&mut self) -> (elt: Option<T>)
        requires
            old(self).wf(),
        ensures
            final(self).wf(),
            old(self)@.len() == 0 ==> elt is None && final(self)@ == old(self)@,
            old(self)@.len() > 0 ==> elt == Some(old(self)@.first())
                && final(self)@ == old(self)@.drop_first(),
    {
        self.buffer.pop_front()
    }

    /// Takes the last value off, if there is one.
    pub fn pop_back(&mut self) -> (elt: Option<T>)
        requires
            old(self).wf(),
        ensures
            final(self).wf(),
            old(self)@.len() == 0 ==> elt is None && final(self)@ == old(self)@,
            old(self)@.len() > 0 ==> elt == Some(old(self)@.last())
                && final(self)@ == old(self)@.drop_last(),
    {
        self.buffer.pop_back()
    }

    /// The number of values.
    pub fn len(&self) -> (len: usize)
        requires
            self.wf(),
        ensures
            len == self@.len(),
    {
        self.buffer.len()
    }

    /// Whether the deque holds no value.
    pub fn is_empty(&self) -> (empty: bool)
        requires
            self.wf(),
        ensures
            empty == (self@.len() == 0),
    {
        self.buffer.is_empty()
    }

    /// A copy of the values, front to back.
    pub fn collect(&self) -> (items: Vec<T>)
        requires
            self.wf(),
        ensures
            items@ == self@,
    {
        self.buffer.collect()
    }
}

} // verus!
