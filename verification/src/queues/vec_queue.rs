use vstd::prelude::*;

use crate::lists::Vec;

verus! {

/// A queue on a growable array: values join at the array's end and leave at
/// its front.
pub struct VecQueue<T: Copy + PartialEq> {
    buffer: Vec<T>,
}

impl<T: Copy + PartialEq> View for VecQueue<T> {
    type V = Seq<T>;

    /// The values, the next one to leave first.
    closed spec fn view(&self) -> Seq<T> {
        self.buffer@
    }
}

impl<T: Copy + PartialEq> VecQueue<T> {
    /// The list below keeps its books right.
    pub closed spec fn wf(&self) -> bool {
        self.buffer.wf()
    }

    /// The number of slots of the array.
    pub closed spec fn capacity(&self) -> nat {
        self.buffer.capacity()
    }

    /// Whether one more value can join.
    pub open spec fn has_room(&self) -> bool {
        Vec::<T>::room(self@.len(), self.capacity())
    }

    /// An empty queue.
    pub fn new() -> (queue: Self)
        ensures
            queue.wf(),
            queue@ == Seq::<T>::empty(),
            queue.capacity() == Vec::<T>::new_capacity(),
    {
        VecQueue { buffer: Vec::new() }
    }

    /// Lets `elt` join at the back.
    pub fn enqueue(&mut self, elt: T)
        requires
            old(self).wf(),
            old(self).has_room(),
        ensures
            final(self).wf(),
            final(self)@ == old(self)@.push(elt),
            final(self).capacity() == Vec::<T>::capacity_after(
                old(self)@.len(),
                old(self).capacity(),
            ),
    {
        self.buffer.push(elt)
    }

    /// Lets the first value leave, if there is one.
    pub fn dequeue(&mut self) -> (elt: Option<T>)
        requires
            old(self).wf(),
        ensures
            final(self).wf(),
            final(self).capacity() == old(self).capacity(),
            old(self)@.len() == 0 ==> elt is None && final(self)@ == old(self)@,
            old(self)@.len() > 0 ==> elt == Some(old(self)@.first())
                && final(self)@ == old(self)@.drop_first(),
    {
        if self.buffer.len() == 0 {
            return None;
        }
        let result = self.buffer.remove(0);
        Some(result)
    }

    /// The value that leaves next, if there is one.
    pub fn top(&self) -> (elt: Option<&T>)
        requires
            self.wf(),
        ensures
            self@.len() == 0 ==> elt is None,
            self@.len() > 0 ==> elt == Some(&self@.first()),
    {
        if self.buffer.len() == 0 {
            return None;
        }
        Some(self.buffer.get(0))
    }

    /// The number of slots of the array.
    pub fn cap(&self) -> (cap: usize)
        ensures
            cap == self.capacity(),
    {
        self.buffer.cap()
    }

    /// Whether one more value can join.
    pub fn can_enqueue(&self) -> (ok: bool)
        requires
            self.wf(),
        ensures
            ok == self.has_room(),
    {
        self.buffer.can_push()
    }

    /// The number of values.
    pub fn len(&self) -> (len: usize)
        ensures
            len == self@.len(),
    {
        self.buffer.len()
    }

    /// Whether the queue holds no value.
    pub fn is_empty(&self) -> (empty: bool)
        ensures
            empty == (self@.len() == 0),
    {
        self.buffer.is_empty()
    }

    /// A copy of the values, the next one to leave first.
    pub fn collect(&self) -> (items: std::vec::Vec<T>)
        requires
            self.wf(),
        ensures
            items@ == self@,
    {
        self.buffer.collect()
    }
}

} // verus!
