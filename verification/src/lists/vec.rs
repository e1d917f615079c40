use vstd::prelude::*;

use super::index_error::IndexError;

verus! {

/// A block of element slots owned by one container.
///
/// The buffer knows how many slots it holds, never which of them are in use:
/// a slot is either empty (`None`) or holds a value its owner wrote there.
/// Its capacity only ever grows, by doubling, and the bytes it stands for
/// never exceed `isize::MAX`.
///
/// An element type of size zero needs no storage at all: its buffer starts
/// with `usize::MAX` slots and can never grow.
pub struct RawVec<T> {
    slots: std::vec::Vec<Option<T>>,
    cap: usize,
}

impl<T> View for RawVec<T> {
    type V = Seq<Option<T>>;

    /// The slots, one entry per slot of capacity.
    closed spec fn view(&self) -> Seq<Option<T>> {
        Seq::new(
            self.cap as nat,
            |i: int|
                if i < self.slots@.len() {
                    self.slots@[i]
                } else {
                    None
                },
        )
    }
}

impl<T> RawVec<T> {
    /// The size in bytes of one slot's element.
    pub open spec fn stride() -> nat {
        vstd::layout::size_of::<T>()
    }

    /// The capacity of a buffer that was never grown.
    pub open spec fn initial_capacity() -> nat {
        if Self::stride() == 0 {
            usize::MAX as nat
        } else {
            0
        }
    }

    /// The capacity that growing a buffer of `cap` slots leads to.
    pub open spec fn grown(cap: nat) -> nat {
        if cap == 0 {
            1
        } else {
            2 * cap
        }
    }

    /// Whether a buffer of `cap` slots may grow: its elements have a size,
    /// and the grown buffer stays within `isize::MAX` bytes.
    pub open spec fn growable(cap: nat) -> bool {
        Self::stride() != 0 && Self::grown(cap) * Self::stride() <= isize::MAX
    }

    /// The slots fit the capacity that is kept, and their bytes fit
    /// `isize::MAX`.
    pub closed spec fn wf(&self) -> bool {
        &&& self.slots@.len() <= self.cap
        &&& Self::stride() == 0 ==> self.cap == usize::MAX
        &&& Self::stride() != 0 ==> self.slots@.len() == self.cap && self.cap * Self::stride()
            <= isize::MAX
    }

    /// The number of slots.
    pub open spec fn capacity(&self) -> nat {
        self@.len()
    }

    /// A buffer that holds no storage yet.
    pub fn new() -> (buffer: Self)
        ensures
            buffer.wf(),
            buffer.capacity() == Self::initial_capacity(),
            buffer@ == Seq::new(Self::initial_capacity(), |i: int| None::<T>),
    {
        let cap = if core::mem::size_of::<T>() == 0 {
            usize::MAX
        } else {
            0
        };
        assert(0 * Self::stride() == 0) by (nonlinear_arith);
        RawVec { slots: std::vec::Vec::new(), cap }
    }

    /// The number of slots.
    pub fn cap(&self) -> (cap: usize)
        ensures
            cap == self.capacity(),
    {
        self.cap
    }

    /// Whether the buffer may grow.
    pub fn can_grow(&self) -> (ok: bool)
        requires
            self.wf(),
        ensures
            ok == Self::growable(self.capacity()),
    {
        let stride = core::mem::size_of::<T>();
        if stride == 0 {
            return false;
        }
        // The grown buffer fits `isize::MAX` bytes where the slots it has
        // now fit half of them.
        let most: usize = (isize::MAX as usize) / stride;
        proof {
            let grown = Self::grown(self.cap as nat) as int;
            assert(grown * stride <= isize::MAX <==> grown <= isize::MAX as int / stride as int)
                by (nonlinear_arith)
                requires
                    stride > 0,
                    grown >= 0,
            ;
        }
        if self.cap == 0 {
            1 <= most
        } else {
            self.cap <= most / 2
        }
    }

    /// Doubles the number of slots (a buffer without slots gets one).
    /// The slots that were there keep what they hold; the new ones are empty.
    pub fn grow(&mut self)
        requires
            old(self).wf(),
            Self::growable(old(self).capacity()),
        ensures
            final(self).wf(),
            final(self).capacity() == Self::grown(old(self).capacity()),
            final(self)@ == old(self)@ + Seq::new(
                (final(self).capacity() - old(self).capacity()) as nat,
                |i: int| None::<T>,
            ),
    {
        proof {
            let grown = Self::grown(self.cap as nat);
            assert(self.cap * 2 <= grown * Self::stride()) by (nonlinear_arith)
                requires
                    Self::stride() >= 1,
                    grown >= 2 * self.cap,
            ;
        }
        let new_cap: usize = if self.cap == 0 {
            1
        } else {
            2 * self.cap
        };
        while self.slots.len() < new_cap
            invariant
                self.slots@.len() <= new_cap,
                self.cap == old(self).cap,
                self.slots@.len() >= old(self).slots@.len(),
                forall|i: int|
                    0 <= i < old(self).slots@.len() ==> self.slots@[i] == old(self).slots@[i],
                forall|i: int|
                    old(self).slots@.len() <= i < self.slots@.len() ==> self.slots@[i] is None,
            decreases new_cap - self.slots@.len(),
        {
            self.slots.push(None);
        }
        self.cap = new_cap;
    }

    /// Puts `value` into slot `index`. What the slot held before is dropped.
    pub fn write(&mut self, index: usize, value: T)
        requires
            old(self).wf(),
            index < old(self).capacity(),
        ensures
            final(self).wf(),
            final(self).capacity() == old(self).capacity(),
            final(self)@ == old(self)@.update(index as int, Some(value)),
    {
        if index < self.slots.len() {
            self.slots[index] = Some(value);
        } else {
            while self.slots.len() < index
                invariant
                    index < self.cap,
                    self.cap == old(self).cap,
                    old(self).slots@.len() <= self.slots@.len() <= index,
                    forall|i: int|
                        0 <= i < old(self).slots@.len() ==> self.slots@[i] == old(self).slots@[i],
                    forall|i: int|
                        old(self).slots@.len() <= i < self.slots@.len() ==> self.slots@[i] is None,
                decreases index - self.slots@.len(),
            {
                self.slots.push(None);
            }
            self.slots.push(Some(value));
        }
    }

    /// Takes the value out of slot `index` and leaves the slot empty.
    pub fn read(&mut self, index: usize) -> (value: T)
        requires
            old(self).wf(),
            index < old(self).capacity(),
            old(self)@[index as int] is Some,
        ensures
            final(self).wf(),
            final(self).capacity() == old(self).capacity(),
            Some(value) == old(self)@[index as int],
            final(self)@ == old(self)@.update(index as int, None),
    {
        self.slots[index].take().unwrap()
    }

    /// Borrows the value in slot `index`.
    pub fn get(&self, index: usize) -> (value: &T)
        requires
            self.wf(),
            index < self.capacity(),
            self@[index as int] is Some,
        ensures
            Some(*value) == self@[index as int],
    {
        self.slots[index].as_ref().unwrap()
    }

    /// Borrows the value in slot `index` for writing.
    pub fn get_mut(&mut self, index: usize) -> (value: &mut T)
        requires
            old(self).wf(),
            index < old(self).capacity(),
            old(self)@[index as int] is Some,
        ensures
            Some(*value) == old(self)@[index as int],
            final(self).wf(),
            final(self).capacity() == old(self).capacity(),
            final(self)@ == old(self)@.update(index as int, Some(*final(value))),
    {
        self.slots[index].as_mut().unwrap()
    }

    /// Gives the storage back: the buffer is again as `new` made it, and
    /// what its slots held is dropped.
    pub fn release(&mut self)
        requires
            old(self).wf(),
        ensures
            final(self).wf(),
            final(self).capacity() == Self::initial_capacity(),
            final(self)@ == Seq::new(Self::initial_capacity(), |i: int| None::<T>),
    {
        if self.cap != 0 && core::mem::size_of::<T>() != 0 {
            assert(0 * Self::stride() == 0) by (nonlinear_arith);
            self.slots = std::vec::Vec::new();
            self.cap = 0;
        } else {
            self.slots.clear();
        }
    }
}

/// A growable array: a buffer of slots of which the first `len` hold the
/// elements, in order, and the others are empty.
pub struct Vec<T> {
    buffer: RawVec<T>,
    len: usize,
}

impl<T> View for Vec<T> {
    type V = Seq<T>;

    /// The elements, front to back.
    closed spec fn view(&self) -> Seq<T> {
        Seq::new(self.len as nat, |i: int| self.buffer@[i].unwrap())
    }
}

impl<T> Vec<T> {
    /// The first `len` slots are in use and no other.
    pub closed spec fn wf(&self) -> bool {
        &&& self.buffer.wf()
        &&& self.len <= self.buffer.capacity()
        &&& forall|i: int| 0 <= i < self.len ==> self.buffer@[i] is Some
        &&& forall|i: int| self.len <= i < self.buffer.capacity() ==> self.buffer@[i] is None
    }

    /// The number of slots of the buffer.
    pub closed spec fn capacity(&self) -> nat {
        self.buffer.capacity()
    }

    /// The capacity of an array that never took in an element.
    pub open spec fn new_capacity() -> nat {
        RawVec::<T>::initial_capacity()
    }

    /// Whether an array of `len` elements in `capacity` slots can take in
    /// one more: a slot is free, or the buffer may grow.
    pub open spec fn room(len: nat, capacity: nat) -> bool {
        len < capacity || RawVec::<T>::growable(capacity)
    }

    /// The capacity of an array of `len` elements in `capacity` slots after
    /// it took in one more: a full buffer grows first.
    pub open spec fn capacity_after(len: nat, capacity: nat) -> nat {
        if len == capacity {
            RawVec::<T>::grown(capacity)
        } else {
            capacity
        }
    }

    /// Whether one more element can be taken in.
    pub open spec fn has_room(&self) -> bool {
        Self::room(self@.len(), self.capacity())
    }

    /// The capacity after taking in one more element.
    pub open spec fn capacity_after_push(&self) -> nat {
        Self::capacity_after(self@.len(), self.capacity())
    }

    /// The elements fit the slots, and the slots can be counted.
    pub proof fn lemma_len_within_capacity(&self)
        requires
            self.wf(),
        ensures
            self@.len() <= self.capacity(),
            self.capacity() <= usize::MAX,
    {
    }

    /// An array without elements, on a buffer without storage.
    pub fn new() -> (v: Self)
        ensures
            v.wf(),
            v@ == Seq::<T>::empty(),
            v.capacity() == Self::new_capacity(),
    {
        Vec { buffer: RawVec::new(), len: 0 }
    }

    /// The number of slots of the buffer.
    pub fn cap(&self) -> (cap: usize)
        ensures
            cap == self.capacity(),
    {
        self.buffer.cap()
    }

    /// The number of elements.
    pub fn len(&self) -> (len: usize)
        ensures
            len == self@.len(),
    {
        self.len
    }

    /// Whether the array holds no element.
    pub fn is_empty(&self) -> (empty: bool)
        ensures
            empty == (self@.len() == 0),
    {
        self.len == 0
    }

    /// Whether one more element can be taken in.
    pub fn can_push(&self) -> (ok: bool)
        requires
            self.wf(),
        ensures
            ok == self.has_room(),
    {
        self.len < self.buffer.cap() || self.buffer.can_grow()
    }

    /// Puts `elem` behind the last element. A full buffer grows first.
    pub fn push(&mut self, elem: T)
        requires
            old(self).wf(),
            old(self).has_room(),
        ensures
            final(self).wf(),
            final(self)@ == old(self)@.push(elem),
            final(self).capacity() == old(self).capacity_after_push(),
    {
        if self.len == self.cap() {
            self.buffer.grow();
        }
        self.buffer.write(self.len, elem);
        self.len += 1;
    }

    /// Takes the last element out, if there is one.
    pub fn pop(&mut self) -> (elem: Option<T>)
        requires
            old(self).wf(),
        ensures
            final(self).wf(),
            final(self).capacity() == old(self).capacity(),
            old(self)@.len() == 0 ==> elem is None && final(self)@ == old(self)@,
            old(self)@.len() > 0 ==> elem == Some(old(self)@.last())
                && final(self)@ == old(self)@.drop_last(),
    {
        if self.len == 0 {
            return None;
        }
        self.len -= 1;
        Some(self.buffer.read(self.len))
    }

    /// Puts `elem` at position `index`. A full buffer grows first; then the
    /// elements from `index` on move one slot towards the back, the last of
    /// them first.
    pub fn insert(&mut self, index: usize, elem: T)
        requires
            old(self).wf(),
            index <= old(self)@.len(),
            old(self).has_room(),
        ensures
            final(self).wf(),
            final(self)@ == old(self)@.insert(index as int, elem),
            final(self).capacity() == old(self).capacity_after_push(),
    {
        if self.cap() == self.len {
            self.buffer.grow();
        }
        let ghost start = self.buffer@;
        let mut at = self.len;
        while at > index
            invariant
                index <= at <= self.len < self.buffer.capacity(),
                self.len == old(self).len,
                self.buffer.wf(),
                self.buffer.capacity() == start.len(),
                self.buffer@.len() == start.len(),
                forall|i: int| 0 <= i < at ==> #[trigger] self.buffer@[i] == start[i],
                self.buffer@[at as int] is None,
                forall|i: int| at < i <= self.len ==> #[trigger] self.buffer@[i] == start[i - 1],
                forall|i: int| self.len < i < start.len() ==> #[trigger] self.buffer@[i] is None,
                forall|i: int| 0 <= i < self.len ==> #[trigger] start[i] is Some,
            decreases at,
        {
            let moved = self.buffer.read(at - 1);
            self.buffer.write(at, moved);
            at -= 1;
        }
        self.buffer.write(index, elem);
        self.len += 1;
    }

    /// Takes the element at position `index` out; the elements behind it
    /// move one slot towards the front, the first of them first.
    pub fn remove(&mut self, index: usize) -> (elem: T)
        requires
            old(self).wf(),
            index < old(self)@.len(),
        ensures
            final(self).wf(),
            elem == old(self)@[index as int],
            final(self)@ == old(self)@.remove(index as int),
            final(self).capacity() == old(self).capacity(),
    {
        let ghost start = self.buffer@;
        self.len -= 1;
        let result = self.buffer.read(index);
        let mut at = index;
        while at < self.len
            invariant
                index <= at <= self.len < self.buffer.capacity(),
                self.len + 1 == old(self).len,
                self.buffer.wf(),
                self.buffer.capacity() == start.len(),
                self.buffer@.len() == start.len(),
                forall|i: int| 0 <= i < index ==> #[trigger] self.buffer@[i] == start[i],
                forall|i: int| index <= i < at ==> #[trigger] self.buffer@[i] == start[i + 1],
                self.buffer@[at as int] is None,
                forall|i: int| at < i <= self.len ==> #[trigger] self.buffer@[i] == start[i],
                forall|i: int| self.len < i < start.len() ==> #[trigger] self.buffer@[i] is None,
                forall|i: int| 0 <= i <= self.len ==> #[trigger] start[i] is Some,
            decreases self.len - at,
        {
            let moved = self.buffer.read(at + 1);
            self.buffer.write(at, moved);
            at += 1;
        }
        result
    }

    /// The element at position `index`.
    pub fn get(&self, index: usize) -> (elem: &T)
        requires
            self.wf(),
            index < self@.len(),
        ensures
            *elem == self@[index as int],
    {
        self.buffer.get(index)
    }

    /// The element at position `index`, for writing.
    pub fn get_mut(&mut self, index: usize) -> (elem: &mut T)
        requires
            old(self).wf(),
            index < old(self)@.len(),
        ensures
            *elem == old(self)@[index as int],
            final(self).wf(),
            final(self).capacity() == old(self).capacity(),
            final(self)@ == old(self)@.update(index as int, *final(elem)),
    {
        self.buffer.get_mut(index)
    }

    /// `insert` for a caller that has not tested `index`: a place behind the
    /// end of the array is refused, and the array stays as it was.
    pub fn try_insert(&mut self, index: usize, elem: T) -> (done: Result<(), IndexError>)
        requires
            old(self).wf(),
            old(self).has_room(),
        ensures
            final(self).wf(),
            index <= old(self)@.len() ==> done is Ok && final(self)@ == old(self)@.insert(
                index as int,
                elem,
            ) && final(self).capacity() == old(self).capacity_after_push(),
            index > old(self)@.len() ==> done == Err::<(), IndexError>(
                IndexError { index, len: old(self)@.len() as usize },
            ) && final(self)@ == old(self)@ && final(self).capacity() == old(self).capacity(),
    {
        if index > self.len {
            return Err(IndexError { index, len: self.len });
        }
        self.insert(index, elem);
        Ok(())
    }

    /// `remove` for a caller that has not tested `index`: a place that holds
    /// no element is refused, and the array stays as it was.
    pub fn try_remove(&mut self, index: usize) -> (elem: Result<T, IndexError>)
        requires
            old(self).wf(),
        ensures
            final(self).wf(),
            final(self).capacity() == old(self).capacity(),
            index < old(self)@.len() ==> elem == Ok::<T, IndexError>(old(self)@[index as int])
                && final(self)@ == old(self)@.remove(index as int),
            index >= old(self)@.len() ==> elem == Err::<T, IndexError>(
                IndexError { index, len: old(self)@.len() as usize },
            ) && final(self)@ == old(self)@,
    {
        if index >= self.len {
            return Err(IndexError { index, len: self.len });
        }
        Ok(self.remove(index))
    }

    /// `get` for a caller that has not tested `index`: a place that holds no
    /// element is refused.
    pub fn try_get(&self, index: usize) -> (elem: Result<&T, IndexError>)
        requires
            self.wf(),
        ensures
            index < self@.len() ==> elem == Ok::<&T, IndexError>(&self@[index as int]),
            index >= self@.len() ==> elem == Err::<&T, IndexError>(
                IndexError { index, len: self@.len() as usize },
            ),
    {
        if index >= self.len {
            return Err(IndexError { index, len: self.len });
        }
        Ok(self.get(index))
    }

    /// Drops the elements, the last one first, and gives the storage back.
    pub fn clear(&mut self)
        requires
            old(self).wf(),
        ensures
            final(self).wf(),
            final(self)@ == Seq::<T>::empty(),
            final(self).capacity() == Self::new_capacity(),
    {
        loop
            invariant
                self.wf(),
            ensures
                self.wf(),
                self@.len() == 0,
            decreases self@.len(),
        {
            if self.pop().is_none() {
                break ;
            }
        }
        self.buffer.release();
    }
}

impl<T: Copy> Vec<T> {
    /// A copy of the elements, front to back.
    pub fn collect(&self) -> (items: std::vec::Vec<T>)
        requires
            self.wf(),
        ensures
            items@ == self@,
    {
        let mut items = std::vec::Vec::new();
        let mut at: usize = 0;
        while at < self.len
            invariant
                self.wf(),
                at <= self.len,
                items@ == self@.subrange(0, at as int),
            decreases self.len - at,
        {
            items.push(*self.get(at));
            at += 1;
        }
        items
    }
}

impl<T> core::ops::Index<usize> for Vec<T> {
    type Output = T;

    /// `v[index]`: the element at position `index`.
    fn index(&self, index: usize) -> (elem: &T)
        ensures
            *elem == self@[index as int],
    {
        self.get(index)
    }
}

impl<T> vstd::std_specs::core::IndexSpecImpl<usize> for Vec<T> {
    /// `v[index]` asks for a place that holds an element.
    open spec fn index_req(&self, index: &usize) -> bool {
        self.wf() && *index < self@.len()
    }
}

} // verus!
