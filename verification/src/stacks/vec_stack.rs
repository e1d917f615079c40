use vstd::prelude::*;

use crate::lists::Vec;

verus! {

/// A stack on a growable array: the top is the array's last element.
pub struct VecStack<T: Copy + PartialEq> {
    buffer: Vec<T>,
}

impl<T: Copy + PartialEq> View for VecStack<T> {
    type V = Seq<T>;

    /// The values, the bottom first and the top last.
    closed spec fn view(&self) -> Seq<T> {
        self.buffer@
    }
}

impl<T: Copy + PartialEq> VecStack<T> {
    /// The list below keeps its books right.
    pub closed spec fn wf(&self) -> bool {
        self.buffer.wf()
    }

    /// The number of slots of the array.
    pub closed spec fn capacity(&self) -> nat {
        self.buffer.capacity()
    }

    /// Whether one more value can be pushed.
    pub open spec fn has_room(&self) -> bool {
        Vec::<T>::room(self@.len(), self.capacity())
    }

    /// An empty stack.
    pub fn new() -> (stack: Self)
        ensures
            stack.wf(),
            stack@ == Seq::<T>::empty(),
            stack.capacity() == Vec::<T>::new_capacity(),
    {
        VecStack { buffer: Vec::new() }
    }

    /// Puts `elt` on top.
    pub fn push(&mut self, elt: T)
        requires
            old(self).wf(),
            old(self).has_room(),
        ensures
            final(self).wf(),
            final(self)@ == old(self)@.push(elt),
            final(self).capacity() == Vec::<T>::capacity_after(
                old(self)@.len(),
                old(self).capacity(),
            ),
    {
        self.buffer.push(elt)
    }

    /// Takes the top value off, if there is one.
    pub fn pop(&mut self) -> (elt: Option<T>)
        requires
            old(self).wf(),
        ensures
            final(self).wf(),
            final(self).capacity() == old(self).capacity(),
            old(self)@.len() == 0 ==> elt is None && final(self)@ == old(self)@,
            old(self)@.len() > 0 ==> elt == Some(old(self)@.last())
                && final(self)@ == old(self)@.drop_last(),
    {
        self.buffer.pop()
    }

    /// The top value, if there is one.
    pub fn top(&self) -> (elt: Option<&T>)
        requires
            self.wf(),
        ensures
            self@.len() == 0 ==> elt is None,
            self@.len() > 0 ==> elt == Some(&self@.last()),
    {
        let len = self.buffer.len();
        if len == 0 {
            None
        } else {
            Some(self.buffer.get(len - 1))
        }
    }

    /// The number of slots of the array.
    pub fn cap(&self) -> (cap: usize)
        ensures
            cap == self.capacity(),
    {
        self.buffer.cap()
    }

    /// Whether one more value can be taken in.
    pub fn can_push(&self) -> (ok: bool)
        requires
            self.wf(),
        ensures
            ok == self.has_room(),
    {
        self.buffer.can_push()
    }

    /// The number of values.
    pub fn len(&self) -> (len: usize)
        ensures
            len == self@.len(),
    {
        self.buffer.len()
    }

    /// Whether the stack holds no value.
    pub fn is_empty(&self) -> (empty: bool)
        ensures
            empty == (self@.len() == 0),
    {
        self.buffer.is_empty()
    }

    /// A copy of the values, the bottom first.
    pub fn collect(&self) -> (items: std::vec::Vec<T>)
        requires
            self.wf(),
        ensures
            items@ == self@,
    {
        self.buffer.collect()
    }
}

} // verus!
