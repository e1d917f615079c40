use vstd::prelude::*;

use crate::lists::LinkedList;

verus! {

/// A stack on a linked list: the top is the list's back.
pub struct LinkedListStack<T: Copy + PartialEq> {
    buffer: LinkedList<T>,
}

impl<T: Copy + PartialEq> View for LinkedListStack<T> {
    type V = Seq<T>;

    /// The values, the bottom first and the top last.
    closed spec fn view(&self) -> Seq<T> {
        self.buffer@
    }
}

impl<T: Copy + PartialEq> LinkedListStack<T> {
    /// The list below keeps its books right.
    pub closed spec fn wf(&self) -> bool {
        self.buffer.wf()
    }

    /// An empty stack.
    pub fn new() -> (stack: Self)
        ensures
            stack.wf(),
            stack@ == Seq::<T>::empty(),
    {
        LinkedListStack { buffer: LinkedList::new() }
    }

    /// Puts `elt` on top.
    pub fn push(&mut self, elt: T)
        requires
            old(self).wf(),
        ensures
            final(self).wf(),
            final(self)@ == old(self)@.push(elt),
    {
        self.buffer.push_back(elt)
    }

    /// Takes the top value off, if there is one.
    pub fn pop(&mut self) -> (elt: Option<T>)
        requires
            old(self).wf(),
        ensures
            final(self).wf(),
            old(self)@.len() == 0 ==> elt is None && final(self)@ == old(self)@,
            old(self)@.len() > 0 ==> elt == Some(old(self)@.last())
                && final(self)@ == old(self)@.drop_last(),
    {
        self.buffer.pop_back()
    }

    /// The top value, if there is one.
    pub fn top(&self) -> (elt: Option<&T>)
        requires
            self.wf(),
        ensures
            self@.len() == 0 ==> elt is None,
            self@.len() > 0 ==> elt == Some(&self@.last()),
    {
        let len = self.buffer.len();
        if len == 0 {
            None
        } else {
            self.buffer.get(len - 1)
        }
    }

    /// The number of values.
    pub fn len(&self) -> (len: usize)
        requires
            self.wf(),
        ensures
            len == self@.len(),
    {
        self.buffer.len()
    }

    /// Whether the stack holds no value.
    pub fn is_empty(&self) -> (empty: bool)
        requires
            self.wf(),
        ensures
            empty == (self@.len() == 0),
    {
        self.buffer.is_empty()
    }

    /// A copy of the values, the bottom first.
    pub fn collect(&self) -> (items: Vec<T>)
        requires
            self.wf(),
        ensures
            items@ == self@,
    {
        self.buffer.collect()
    }
}

} // verus!
