use vstd::prelude::*;

verus! {

/// The slot that lies `k` slots behind slot `head` in a ring of `cap` slots,
/// for `head < cap` and `k <= cap`.
pub open spec fn slot_at(head: int, k: int, cap: int) -> int {
    if head + k < cap {
        head + k
    } else {
        head + k - cap
    }
}

/// The number of slots from slot `head` on to slot `slot`, in a ring of
/// `cap` slots: `slot_at` the other way round.
spec fn place_of(head: int, slot: int, cap: int) -> int {
    if slot >= head {
        slot - head
    } else {
        slot + cap - head
    }
}

/// The slot behind `slot` is the remainder that the ring computes.
proof fn lemma_next_slot(slot: int, cap: int)
    requires
        0 <= slot < cap,
    ensures
        (slot + 1) % cap == slot_at(slot, 1, cap),
{
    if slot + 1 < cap {
        vstd::arithmetic::div_mod::lemma_small_mod((slot + 1) as nat, cap as nat);
    } else {
        vstd::arithmetic::div_mod::lemma_mod_self_0(cap);
    }
}

/// A queue in a ring of slots whose number is fixed when the queue is made.
/// The values sit in consecutive slots, from `head` on and round the end of
/// the ring to its start; `tail` is the slot that the next value goes to.
pub struct CircularBuffer<T: Copy + PartialEq> {
    buffer: Vec<Option<T>>,
    len: usize,
    head: usize,
    tail: usize,
}

impl<T: Copy + PartialEq> View for CircularBuffer<T> {
    type V = Seq<T>;

    /// The values, the next one to leave first.
    closed spec fn view(&self) -> Seq<T> {
        Seq::new(
            self.len as nat,
            |k: int| self.buffer@[slot_at(self.head as int, k, self.buffer@.len() as int)].unwrap(),
        )
    }
}

impl<T: Copy + PartialEq> CircularBuffer<T> {
    /// Exactly the `len` slots from `head` on hold a value.
    pub closed spec fn wf(&self) -> bool {
        let cap = self.buffer@.len() as int;
        let head = self.head as int;
        &&& self.len <= cap
        &&& cap == 0 ==> self.head == 0 && self.tail == 0
        &&& cap > 0 ==> self.head < cap && self.tail == slot_at(head, self.len as int, cap)
        &&& forall|k: int|
            0 <= k < self.len ==> self.buffer@[#[trigger] slot_at(head, k, cap)] is Some
        &&& forall|k: int|
            self.len <= k < cap ==> self.buffer@[#[trigger] slot_at(head, k, cap)] is None
    }

    /// The number of slots.
    pub closed spec fn capacity(&self) -> nat {
        self.buffer@.len()
    }

    /// The slot of the value that leaves next.
    pub closed spec fn front_slot(&self) -> nat {
        self.head as nat
    }

    /// The values as they lie in the slots, from the first slot to the last.
    /// Where the values run round the end of the ring, those at its start,
    /// the ones that joined last, come first.
    pub open spec fn in_slot_order(&self) -> Seq<T> {
        let before_end = self.capacity() - self.front_slot();
        if self@.len() <= before_end {
            self@
        } else {
            self@.subrange(before_end, self@.len() as int) + self@.subrange(0, before_end)
        }
    }

    /// The values in the slots before slot `end`, in the order of the slots.
    spec fn stored_before(&self, end: int) -> Seq<T> {
        let head = self.head as int;
        let len = self.len as int;
        let before_end = self.buffer@.len() - head;
        if len <= before_end {
            if end <= head {
                Seq::empty()
            } else if end <= head + len {
                self@.subrange(0, end - head)
            } else {
                self@
            }
        } else {
            if end <= len - before_end {
                self@.subrange(before_end, before_end + end)
            } else if end <= head {
                self@.subrange(before_end, len)
            } else {
                self@.subrange(before_end, len) + self@.subrange(0, end - head)
            }
        }
    }

    /// The values fit the slots, and the front slot is one of them.
    pub proof fn lemma_within_capacity(&self)
        requires
            self.wf(),
        ensures
            self@.len() <= self.capacity(),
            self.capacity() > 0 ==> self.front_slot() < self.capacity(),
            self.capacity() == 0 ==> self.front_slot() == 0,
    {
    }

    /// An empty queue in a ring of `capacity` slots.
    pub fn new(capacity: usize) -> (queue: Self)
        ensures
            queue.wf(),
            queue@ == Seq::<T>::empty(),
            queue.capacity() == capacity,
            queue.front_slot() == 0,
    {
        let mut buffer: Vec<Option<T>> = Vec::new();
        while buffer.len() < capacity
            invariant
                buffer@.len() <= capacity,
                forall|i: int| 0 <= i < buffer@.len() ==> #[trigger] buffer@[i] is None,
            decreases capacity - buffer@.len(),
        {
            buffer.push(None);
        }
        CircularBuffer { buffer, len: 0, head: 0, tail: 0 }
    }

    /// Lets `elt` join at the back. The queue must not be full.
    pub fn enqueue(&mut self, elt: T)
        requires
            old(self).wf(),
            old(self)@.len() < old(self).capacity(),
        ensures
            final(self).wf(),
            final(self)@ == old(self)@.push(elt),
            final(self).capacity() == old(self).capacity(),
            final(self).front_slot() == old(self).front_slot(),
    {
        proof {
            lemma_next_slot(self.tail as int, self.buffer@.len() as int);
        }
        self.buffer[self.tail] = Some(elt);
        assert(self.tail < self.buffer.len());
        self.tail = (self.tail + 1) % self.buffer.len();
        self.len += 1;
    }

    /// Lets the first value leave, if there is one.
    pub fn dequeue(&mut self) -> (elt: Option<T>)
        requires
            old(self).wf(),
        ensures
            final(self).wf(),
            final(self).capacity() == old(self).capacity(),
            old(self)@.len() == 0 ==> elt is None
                && final(self)@ == old(self)@
                && final(self).front_slot() == old(self).front_slot(),
            old(self)@.len() > 0 ==> elt == Some(old(self)@.first())
                && final(self)@ == old(self)@.drop_first()
                && final(self).front_slot() == slot_at(
                    old(self).front_slot() as int,
                    1,
                    old(self).capacity() as int,
                ),
    {
        if self.is_empty() {
            return None;
        }
        let ghost cap = self.buffer@.len() as int;
        let ghost head = self.head as int;
        proof {
            lemma_next_slot(head, cap);
        }
        let element = self.buffer[self.head].take();
        assert(self.head < self.buffer.len());
        self.head = (self.head + 1) % self.buffer.len();
        self.len -= 1;
        proof {
            // Place `k` of what is left was place `k + 1` before.
            let next = self.head as int;
            assert forall|k: int| 0 <= k < cap implies #[trigger] slot_at(next, k, cap) == slot_at(
                head,
                k + 1,
                cap,
            ) || k + 1 == cap by {}
        }
        element
    }

    /// The value that leaves next. The queue must have a slot to look into.
    pub fn top(&self) -> (elt: Option<&T>)
        requires
            self.wf(),
            self.capacity() > 0,
        ensures
            self@.len() == 0 ==> elt is None,
            self@.len() > 0 ==> elt == Some(&self@.first()),
    {
        self.buffer[self.head].as_ref()
    }

    /// The number of slots.
    pub fn slots(&self) -> (slots: usize)
        ensures
            slots == self.capacity(),
    {
        self.buffer.len()
    }

    /// The number of values.
    pub fn len(&self) -> (len: usize)
        ensures
            len == self@.len(),
    {
        self.len
    }

    /// Whether the queue holds no value.
    pub fn is_empty(&self) -> (empty: bool)
        ensures
            empty == (self@.len() == 0),
    {
        self.len == 0
    }

    /// Whether every slot holds a value.
    pub fn is_full(&self) -> (full: bool)
        ensures
            full == (self@.len() == self.capacity()),
    {
        self.len == self.buffer.len()
    }

    /// The values in the order of their slots, not of their joining.
    pub fn collect(&self) -> (items: Vec<T>)
        requires
            self.wf(),
        ensures
            items@ == self.in_slot_order(),
    {
        let mut items: Vec<T> = Vec::new();
        let mut slot: usize = 0;
        while slot < self.buffer.len()
            invariant
                self.wf(),
                slot <= self.buffer@.len(),
                items@ == self.stored_before(slot as int),
            decreases self.buffer@.len() - slot,
        {
            proof {
                // The slot holds a value where its place lies within the queue.
                let cap = self.buffer@.len() as int;
                let head = self.head as int;
                assert(slot_at(head, place_of(head, slot as int, cap), cap) == slot);
            }
            match self.buffer[slot] {
                Some(value) => {
                    items.push(value);
                },
                None => {},
            }
            slot += 1;
        }
        items
    }
}

} // verus!
