use vstd::prelude::*;

use crate::lists::LinkedList;

verus! {

/// A queue on a linked list: values join at the list's back and leave at its
/// front.
pub struct LinkedListQueue<T: Copy + PartialEq> {
    buffer: LinkedList<T>,
}

impl<T: Copy + PartialEq> View for LinkedListQueue<T> {
    type V = Seq<T>;

    /// The values, the next one to leave first.
    closed spec fn view(&self) -> Seq<T> {
        self.buffer@
    }
}

impl<T: Copy + PartialEq> LinkedListQueue<T> {
    /// The list below keeps its books right.
    pub closed spec fn wf(&self) -> bool {
        self.buffer.wf()
    }

    /// An empty queue.
    pub fn new() -> (queue: Self)
        ensures
            queue.wf(),
            queue@ == Seq::<T>::empty(),
    {
        LinkedListQueue { buffer: LinkedList::new() }
    }

    /// Lets `elt` join at the back.
    pub fn enqueue(&mut self, elt: T)
        requires
            old(self).wf(),
        ensures
            final(self).wf(),
            final(self)@ == old(self)@.push(elt),
    {
        self.buffer.push_back(elt)
    }

    /// Lets the first value leave, if there is one.
    pub fn dequeue(&mut self) -> (elt: Option<T>)
        requires
            old(self).wf(),
        ensures
            final(self).wf(),
            old(self)@.len() == 0 ==> elt is None && final(self)@ == old(self)@,
            old(self)@.len() > 0 ==> elt == Some(old(self)@.first())
                && final(self)@ == old(self)@.drop_first(),
    {
        self.buffer.pop_front()
    }

    /// The value that leaves next, if there is one.
    pub fn top(&self) -> (elt: Option<&T>)
        requires
            self.wf(),
        ensures
            self@.len() == 0 ==> elt is None,
            self@.len() > 0 ==> elt == Some(&self@.first()),
    {
        if self.buffer.is_empty() {
            None
        } else {
            self.buffer.get(0)
        }
    }

    /// The number of values.
    pub fn len(&self) -> (len: usize)
        requires
            self.wf(),
        ensures
            len == self@.len(),
    {
        self.buffer.len()
    }

    /// Whether the queue holds no value.
    pub fn is_empty(&self) -> (empty: bool)
        requires
            self.wf(),
        ensures
            empty == (self@.len() == 0),
    {
        self.buffer.is_empty()
    }

    /// A copy of the values, the next one to leave first.
    pub fn collect(&self) -> (items: Vec<T>)
        requires
            self.wf(),
        ensures
            items@ == self@,
    {
        self.buffer.collect()
    }
}

} // verus!
