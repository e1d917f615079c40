use vstd::prelude::*;

use crate::lists::Vec;

verus! {

/// A deque on a growable array. Its back is the array's end, which is cheap
/// to reach; at the front every other value has to move.
pub struct VecDeque<T: Copy + PartialEq> {
    buffer: Vec<T>,
}

impl<T: Copy + PartialEq> View for VecDeque<T> {
    type V = Seq<T>;

    /// The values, front to back.
    closed spec fn view(&self) -> Seq<T> {
        self.buffer@
    }
}

impl<T: Copy + PartialEq> VecDeque<T> {
    /// The list below keeps its books right.
    pub closed spec fn wf(&self) -> bool {
        self.buffer.wf()
    }

    /// The number of slots of the array.
    pub closed spec fn capacity(&self) -> nat {
        self.buffer.capacity()
    }

    /// Whether one more value can be taken in.
    pub open spec fn has_room(&self) -> bool {
        Vec::<T>::room(self@.len(), self.capacity())
    }

    /// An empty deque.
    pub fn new() -> (deque: Self)
        ensures
            deque.wf(),
            deque@ == Seq::<T>::empty(),
            deque.capacity() == Vec::<T>::new_capacity(),
    {
        VecDeque { buffer: Vec::new() }
    }

    /// Puts a value before the first one.
    pub fn push_front(&mut self, element: T)
        requires
            old(self).wf(),
            old(self).has_room(),
        ensures
            final(self).wf(),
            final(self)@ == seq![element] + old(self)@,
            final(self).capacity() == Vec::<T>::capacity_after(
                old(self)@.len(),
                old(self).capacity(),
            ),
    {
        self.buffer.insert(0, element);
    }

    /// Puts a value behind the last one.
    pub fn push_back(&mut self, element: T)
        requires
            old(self).wf(),
            old(self).has_room(),
        ensures
            final(self).wf(),
            final(self)@ == old(self)@.push(element),
            final(self).capacity() == Vec::<T>::capacity_after(
                old(self)@.len(),
                old(self).capacity(),
            ),
    {
        self.buffer.push(element)
    }

    /// Puts `element` at place `index`.
    pub fn insert(&mut self, index: usize, element: T)
        requires
            old(self).wf(),
            index <= old(self)@.len(),
            old(self).has_room(),
        ensures
            final(self).wf(),
            final(self)@ == old(self)@.insert(index as int, element),
            final(self).capacity() == Vec::<T>::capacity_after(
                old(self)@.len(),
                old(self).capacity(),
            ),
    {
        self.buffer.insert(index, element)
    }

    /// Takes the first value off, if there is one.
    pub fn pop_front(&mut self) -> (element: Option<T>)
        requires
            old(self).wf(),
        ensures
            final(self).wf(),
            final(self).capacity() == old(self).capacity(),
            old(self)@.len() == 0 ==> element is None && final(self)@ == old(self)@,
            old(self)@.len() > 0 ==> element == Some(old(self)@.first())
                && final(self)@ == old(self)@.drop_first(),
    {
        if self.buffer.len() == 0 {
            return None;
        }
        let result = self.buffer.remove(0);
        Some(result)
    }

    /// Takes the last value off, if there is one.
    pub fn pop_back(&mut self) -> (element: Option<T>)
        requires
            old(self).wf(),
        ensures
            final(self).wf(),
            final(self).capacity() == old(self).capacity(),
            old(self)@.len() == 0 ==> element is None && final(self)@ == old(self)@,
            old(self)@.len() > 0 ==> element == Some(old(self)@.last())
                && final(self)@ == old(self)@.drop_last(),
    {
        self.buffer.pop()
    }

    /// Takes the value at place `index` out.
    pub fn remove(&mut self, index: usize) -> (element: T)
        requires
            old(self).wf(),
            index < old(self)@.len(),
        ensures
            final(self).wf(),
            final(self).capacity() == old(self).capacity(),
            element == old(self)@[index as int],
            final(self)@ == old(self)@.remove(index as int),
    {
        self.buffer.remove(index)
    }

    /// The number of slots of the array.
    pub fn cap(&self) -> (cap: usize)
        ensures
            cap == self.capacity(),
    {
        self.buffer.cap()
    }

    /// Whether one more value can be taken in.
    pub fn can_push(&self) -> (ok: bool)
        requires
            self.wf(),
        ensures
            ok == self.has_room(),
    {
        self.buffer.can_push()
    }

    /// The number of values.
    pub fn len(&self) -> (len: usize)
        ensures
            len == self@.len(),
    {
        self.buffer.len()
    }

    /// Whether the deque holds no value.
    pub fn is_empty(&self) -> (empty: bool)
        ensures
            empty == (self@.len() == 0),
    {
        self.buffer.is_empty()
    }

    /// A copy of the values, front to back.
    pub fn collect(&self) -> (items: std::vec::Vec<T>)
        requires
            self.wf(),
        ensures
            items@ == self@,
    {
        self.buffer.collect()
    }
}

} // verus!
