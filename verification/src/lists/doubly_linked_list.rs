use vstd::prelude::*;
use vstd::std_specs::cmp::PartialEqSpec;

use super::index_error::IndexError;

verus! {

/// One slot of the arena. `prev` and `next` name the slots of the neighbours
/// on the chain.
struct Node<T: Copy + PartialEq> {
    data: T,
    prev: Option<usize>,
    next: Option<usize>,
}

impl<T: Copy + PartialEq> Node<T> {
    /// A node without neighbours.
    fn new(data: T) -> (node: Self)
        ensures
            node.data == data,
            node.prev is None,
            node.next is None,
    {
        Node { data, prev: None, next: None }
    }
}

/// A chain of nodes linked in both directions.
///
/// The nodes live in an arena and name each other by slot. A slot is either
/// on the chain or on the free list, so a node that leaves the chain is
/// handed back exactly once and none is lost.
pub struct DoublyLinkedList<T: Copy + PartialEq> {
    len: usize,
    head: Option<usize>,
    tail: Option<usize>,
    nodes: Vec<Node<T>>,
    free: Vec<usize>,
    /// The slots of the nodes on the chain, front to back.
    order: Ghost<Seq<usize>>,
}

/// The slot that the node at place `k` must name as the one before it.
spec fn prev_at(order: Seq<usize>, k: int) -> Option<usize> {
    if k > 0 {
        Some(order[k - 1])
    } else {
        None
    }
}

/// The slot that the node at place `k` must name as the one behind it.
spec fn next_at(order: Seq<usize>, k: int) -> Option<usize> {
    if k + 1 < order.len() {
        Some(order[k + 1])
    } else {
        None
    }
}

/// Every slot of an arena of `size` slots is on the chain or on the free
/// list, and on neither twice.
spec fn slots_wf(size: nat, order: Seq<usize>, free: Seq<usize>) -> bool {
    &&& forall|k: int| 0 <= k < order.len() ==> #[trigger] order[k] < size
    &&& forall|k: int| 0 <= k < free.len() ==> #[trigger] free[k] < size
    &&& order.no_duplicates()
    &&& free.no_duplicates()
    &&& forall|j: int, k: int|
        0 <= j < order.len() && 0 <= k < free.len() ==> #[trigger] order[j] != #[trigger] free[k]
    &&& order.len() + free.len() == size
}

/// Each node on the chain names its two neighbours, and the ends name none.
spec fn links_wf<T: Copy + PartialEq>(nodes: Seq<Node<T>>, order: Seq<usize>) -> bool {
    forall|k: int|
        0 <= k < order.len() ==> {
            &&& (#[trigger] nodes[order[k] as int]).prev == prev_at(order, k)
            &&& nodes[order[k] as int].next == next_at(order, k)
        }
}

/// A slot that was claimed may join the chain at any place.
proof fn lemma_slots_insert(size: nat, order: Seq<usize>, free: Seq<usize>, at: int, slot: usize)
    requires
        slots_wf(size, order.push(slot), free),
        0 <= at <= order.len(),
    ensures
        slots_wf(size, order.insert(at, slot), free),
        !order.contains(slot),
{
    let pushed = order.push(slot);
    let grown = order.insert(at, slot);
    // Where each place of the grown chain stood before the slot was put in.
    let from = |i: int|
        if i < at {
            i
        } else if i == at {
            order.len() as int
        } else {
            i - 1
        };
    assert forall|k: int| 0 <= k < grown.len() implies grown[k] == pushed[from(k)] by {}
    assert forall|k: int| 0 <= k < order.len() implies order[k] != slot by {
        assert(pushed[k] == order[k]);
        assert(pushed[order.len() as int] == slot);
    }
}

/// A slot that leaves the chain may join the free list.
proof fn lemma_slots_remove(size: nat, order: Seq<usize>, free: Seq<usize>, at: int)
    requires
        slots_wf(size, order, free),
        0 <= at < order.len(),
    ensures
        slots_wf(size, order.remove(at), free.push(order[at])),
{
}

/// The values of the nodes on the chain, front to back.
spec fn values<T: Copy + PartialEq>(nodes: Seq<Node<T>>, order: Seq<usize>) -> Seq<T> {
    Seq::new(order.len(), |k: int| nodes[order[k] as int].data)
}

/// A node that is linked in at place `at` names the nodes that stood at
/// `at - 1` and at `at` as its neighbours, and they name it. Then the chain
/// holds its value at `at`, and the others keep their order.
proof fn lemma_link<T: Copy + PartialEq>(
    before: Seq<Node<T>>,
    after: Seq<Node<T>>,
    order: Seq<usize>,
    at: int,
    slot: usize,
    data: T,
)
    requires
        links_wf(before, order),
        order.no_duplicates(),
        !order.contains(slot),
        0 <= at <= order.len(),
        forall|k: int| 0 <= k < order.len() ==> #[trigger] order[k] < before.len(),
        before.len() <= after.len(),
        slot < after.len(),
        after[slot as int] == (Node {
            data,
            prev: prev_at(order.insert(at, slot), at),
            next: next_at(order.insert(at, slot), at),
        }),
        at > 0 ==> after[order[at - 1] as int] == (Node {
            next: Some(slot),
            ..before[order[at - 1] as int]
        }),
        at < order.len() ==> after[order[at] as int] == (Node {
            prev: Some(slot),
            ..before[order[at] as int]
        }),
        forall|i: int|
            0 <= i < before.len() && i != slot && (at > 0 ==> i != order[at - 1]) && (at
                < order.len() ==> i != order[at]) ==> after[i] == before[i],
    ensures
        links_wf(after, order.insert(at, slot)),
        values(after, order.insert(at, slot)) == values(before, order).insert(at, data),
{
    let grown = order.insert(at, slot);
    assert forall|k: int| 0 <= k < grown.len() implies {
        &&& (#[trigger] after[grown[k] as int]).prev == prev_at(grown, k)
        &&& after[grown[k] as int].next == next_at(grown, k)
        &&& after[grown[k] as int].data == values(before, order).insert(at, data)[k]
    } by {
        if k < at {
            assert(grown[k] == order[k]);
            assert(before[order[k] as int].prev == prev_at(order, k));
        } else if k > at {
            assert(grown[k] == order[k - 1]);
            assert(before[order[k - 1] as int].prev == prev_at(order, k - 1));
        }
    }
    assert(values(after, grown) =~= values(before, order).insert(at, data));
}

/// The neighbours of a node that is unlinked from place `at` name each
/// other in its stead. Then the chain holds the other values in their order.
proof fn lemma_unlink<T: Copy + PartialEq>(
    before: Seq<Node<T>>,
    after: Seq<Node<T>>,
    order: Seq<usize>,
    at: int,
)
    requires
        links_wf(before, order),
        order.no_duplicates(),
        0 <= at < order.len(),
        forall|k: int| 0 <= k < order.len() ==> #[trigger] order[k] < before.len(),
        before.len() == after.len(),
        at > 0 ==> after[order[at - 1] as int] == (Node {
            next: next_at(order, at),
            ..before[order[at - 1] as int]
        }),
        at + 1 < order.len() ==> after[order[at + 1] as int] == (Node {
            prev: prev_at(order, at),
            ..before[order[at + 1] as int]
        }),
        forall|i: int|
            0 <= i < before.len() && (at > 0 ==> i != order[at - 1]) && (at + 1 < order.len()
                ==> i != order[at + 1]) ==> after[i] == before[i],
    ensures
        links_wf(after, order.remove(at)),
        values(after, order.remove(at)) == values(before, order).remove(at),
{
    let rest = order.remove(at);
    assert forall|k: int| 0 <= k < rest.len() implies {
        &&& (#[trigger] after[rest[k] as int]).prev == prev_at(rest, k)
        &&& after[rest[k] as int].next == next_at(rest, k)
        &&& after[rest[k] as int].data == values(before, order).remove(at)[k]
    } by {
        if k < at {
            assert(rest[k] == order[k]);
            assert(before[order[k] as int].prev == prev_at(order, k));
        } else {
            assert(rest[k] == order[k + 1]);
            assert(before[order[k + 1] as int].prev == prev_at(order, k + 1));
        }
    }
    assert(values(after, rest) =~= values(before, order).remove(at));
}

/// No slot is lost: each is on the chain or on the free list. There are as
/// many slots as places on both, and no place holds the slot of another.
proof fn lemma_slots_cover(size: nat, order: Seq<usize>, free: Seq<usize>, slot: usize)
    requires
        slots_wf(size, order, free),
        slot < size,
    ensures
        order.contains(slot) || free.contains(slot),
{
    let held = Seq::new(
        size,
        |i: int|
            if i < order.len() {
                order[i] as int
            } else {
                free[i - order.len()] as int
            },
    );
    let all = vstd::set_lib::set_int_range(0, size as int);
    assert(held.no_duplicates());
    held.unique_seq_to_set();
    vstd::set_lib::lemma_int_range(0, size as int);
    assert(held.to_set().subset_of(all));
    vstd::set_lib::lemma_len_subset(held.to_set(), all);
    vstd::set_lib::lemma_subset_equality(held.to_set(), all);
    assert(all.contains(slot as int));
    let place = choose|i: int| 0 <= i < held.len() && held[i] == slot as int;
    if place < order.len() {
        assert(order[place] == slot);
    } else {
        assert(free[place - order.len()] == slot);
    }
}

impl<T: Copy + PartialEq> View for DoublyLinkedList<T> {
    type V = Seq<T>;

    /// The values, front to back.
    closed spec fn view(&self) -> Seq<T> {
        values(self.nodes@, self.order@)
    }
}

impl<T: Copy + PartialEq> DoublyLinkedList<T> {
    /// The chain is a simple path through the arena from `head` to `tail`,
    /// `len` nodes long, and every other slot is free.
    pub closed spec fn wf(&self) -> bool {
        &&& self.order@.len() == self.len
        &&& slots_wf(self.nodes@.len(), self.order@, self.free@)
        &&& links_wf(self.nodes@, self.order@)
        &&& self.head == (if self.len == 0 {
            None
        } else {
            Some(self.order@[0])
        })
        &&& self.tail == (if self.len == 0 {
            None
        } else {
            Some(self.order@[self.len - 1])
        })
    }

    /// The number of slots of the arena: the nodes that were ever made.
    pub closed spec fn slot_count(&self) -> nat {
        self.nodes@.len()
    }

    /// The number of slots on the free list: the nodes that were handed back
    /// and not taken again.
    pub closed spec fn free_count(&self) -> nat {
        self.free@.len()
    }

    /// The number of free slots after a value was put on the chain: a free
    /// slot is taken where there is one.
    pub open spec fn free_count_after_insert(&self) -> nat {
        if self.free_count() == 0 {
            0
        } else {
            (self.free_count() - 1) as nat
        }
    }

    /// Whether the node in `slot` is on the chain.
    pub closed spec fn on_chain(&self, slot: usize) -> bool {
        self.order@.contains(slot)
    }

    /// Whether `slot` is on the free list.
    pub closed spec fn is_free(&self, slot: usize) -> bool {
        self.free@.contains(slot)
    }

    /// There are as many slots as values on the chain and slots on the free
    /// list.
    pub proof fn lemma_slots_accounted(&self)
        requires
            self.wf(),
        ensures
            self.slot_count() == self@.len() + self.free_count(),
    {
    }

    /// Every node that was made is on the chain or on the free list, and
    /// none on both: no node is lost, and none is handed back while the
    /// chain still holds it.
    pub proof fn lemma_slot_in_one_place(&self, slot: usize)
        requires
            self.wf(),
            slot < self.slot_count(),
        ensures
            self.on_chain(slot) != self.is_free(slot),
    {
        lemma_slots_cover(self.nodes@.len(), self.order@, self.free@, slot);
    }

    /// An empty list.
    pub fn new() -> (list: Self)
        ensures
            list.wf(),
            list@ == Seq::<T>::empty(),
            list.free_count() == 0,
    {
        Self {
            len: 0,
            head: None,
            tail: None,
            nodes: Vec::new(),
            free: Vec::new(),
            order: Ghost(Seq::empty()),
        }
    }

    /// Puts `node` into a slot that is neither on the chain nor free any more.
    fn claim_slot(&mut self, node: Node<T>) -> (slot: usize)
        requires
            old(self).wf(),
        ensures
            final(self).len == old(self).len,
            final(self).head == old(self).head,
            final(self).tail == old(self).tail,
            final(self).order@ == old(self).order@,
            slot < final(self).nodes@.len(),
            final(self).nodes@[slot as int] == node,
            final(self).nodes@.len() >= old(self).nodes@.len(),
            forall|i: int|
                0 <= i < old(self).nodes@.len() && i != slot
                    ==> final(self).nodes@[i] == old(self).nodes@[i],
            slots_wf(final(self).nodes@.len(), old(self).order@.push(slot), final(self).free@),
            final(self).free_count() == old(self).free_count_after_insert(),
    {
        match self.free.pop() {
            Some(slot) => {
                self.nodes[slot] = node;
                slot
            },
            None => {
                let slot = self.nodes.len();
                self.nodes.push(node);
                slot
            },
        }
    }

    /// Puts `data` before the first value.
    pub fn push_front(&mut self, data: T)
        requires
            old(self).wf(),
        ensures
            final(self).wf(),
            final(self)@ == seq![data] + old(self)@,
            final(self).free_count() == old(self).free_count_after_insert(),
    {
        let mut node = Node::new(data);
        node.next = self.head;
        let slot = self.claim_slot(node);
        match self.head {
            None => {
                self.tail = Some(slot);
            },
            Some(head) => {
                self.nodes[head].prev = Some(slot);
            },
        }
        self.head = Some(slot);
        assert(self.order@.push(slot).len() + self.free@.len() == self.nodes.len());
        self.len += 1;
        self.order = Ghost(self.order@.insert(0, slot));
        proof {
            let before = old(self).order@;
            lemma_slots_insert(self.nodes@.len(), before, self.free@, 0, slot);
            lemma_link(old(self).nodes@, self.nodes@, before, 0, slot, data);
        }
    }

    /// Puts `data` behind the last value.
    pub fn push_back(&mut self, data: T)
        requires
            old(self).wf(),
        ensures
            final(self).wf(),
            final(self)@ == old(self)@.push(data),
            final(self).free_count() == old(self).free_count_after_insert(),
    {
        let mut node = Node::new(data);
        node.prev = self.tail;
        let slot = self.claim_slot(node);
        match self.tail {
            None => {
                self.head = Some(slot);
            },
            Some(tail) => {
                self.nodes[tail].next = Some(slot);
            },
        }
        self.tail = Some(slot);
        assert(self.order@.push(slot).len() + self.free@.len() == self.nodes.len());
        self.len += 1;
        self.order = Ghost(self.order@.push(slot));
        proof {
            let before = old(self).order@;
            lemma_slots_insert(self.nodes@.len(), before, self.free@, before.len() as int, slot);
            lemma_link(old(self).nodes@, self.nodes@, before, before.len() as int, slot, data);
            assert(before.insert(before.len() as int, slot) =~= before.push(slot));
            assert(old(self)@.insert(before.len() as int, data) =~= old(self)@.push(data));
        }
    }

    /// The slot of the node at place `index`, reached from the nearer end
    /// of the chain.
    fn locate(&self, index: usize) -> (slot: usize)
        requires
            self.wf(),
            index < self.len,
        ensures
            slot == self.order@[index as int],
    {
        if index + 1 <= self.len / 2 {
            let mut curr = self.head.unwrap();
            let mut count: usize = 0;
            while count < index
                invariant
                    self.wf(),
                    count <= index < self.len,
                    curr == self.order@[count as int],
                decreases index - count,
            {
                curr = self.nodes[curr].next.unwrap();
                count += 1;
            }
            curr
        } else {
            let mut curr = self.tail.unwrap();
            let mut count: usize = self.len - 1;
            while count > index
                invariant
                    self.wf(),
                    index <= count < self.len,
                    curr == self.order@[count as int],
                decreases count,
            {
                curr = self.nodes[curr].prev.unwrap();
                count -= 1;
            }
            curr
        }
    }

    /// Puts `data` at place `index`: before the first value, behind the last
    /// one, or before the node at `index`, which is reached from the nearer end.
    pub fn insert(&mut self, index: usize, data: T)
        requires
            old(self).wf(),
            index <= old(self)@.len(),
        ensures
            final(self).wf(),
            final(self)@ == old(self)@.insert(index as int, data),
            final(self).free_count() == old(self).free_count_after_insert(),
    {
        if index == 0 || self.head.is_none() {
            self.push_front(data);
            return ;
        }
        if self.len == index {
            self.push_back(data);
            return ;
        }
        let curr = self.locate(index);
        self.link_before(index, curr, data);
    }

    /// Puts a node with `data` between the node in slot `curr`, which stands
    /// at place `index`, and the node before it.
    fn link_before(&mut self, index: usize, curr: usize, data: T)
        requires
            old(self).wf(),
            0 < index < old(self).len,
            curr == old(self).order@[index as int],
        ensures
            final(self).wf(),
            final(self)@ == old(self)@.insert(index as int, data),
            final(self).free_count() == old(self).free_count_after_insert(),
    {
        let prev = self.nodes[curr].prev.unwrap();
        let mut node = Node::new(data);
        node.prev = Some(prev);
        node.next = Some(curr);
        let slot = self.claim_slot(node);
        self.nodes[prev].next = Some(slot);
        self.nodes[curr].prev = Some(slot);
        assert(self.order@.push(slot).len() + self.free@.len() == self.nodes.len());
        self.len += 1;
        self.order = Ghost(self.order@.insert(index as int, slot));
        proof {
            let before = old(self).order@;
            lemma_slots_insert(self.nodes@.len(), before, self.free@, index as int, slot);
            lemma_link(old(self).nodes@, self.nodes@, before, index as int, slot, data);
        }
    }

    /// Takes the first value off the list, if there is one.
    pub fn pop_front(&mut self) -> (data: Option<T>)
        requires
            old(self).wf(),
        ensures
            final(self).wf(),
            old(self)@.len() == 0 ==> data is None
                && final(self)@ == old(self)@
                && final(self).free_count() == old(self).free_count(),
            old(self)@.len() > 0 ==> data == Some(old(self)@.first())
                && final(self)@ == old(self)@.drop_first()
                && final(self).free_count() == old(self).free_count() + 1,
    {
        if self.len == 0 {
            return None;
        }
        match self.head {
            None => None,
            Some(head) => {
                let next = self.nodes[head].next;
                match next {
                    None => {
                        self.tail = None;
                    },
                    Some(next) => {
                        self.nodes[next].prev = None;
                    },
                }
                self.head = next;
                self.free.push(head);
                self.len -= 1;
                self.order = Ghost(self.order@.remove(0));
                proof {
                    let before = old(self).order@;
                    lemma_slots_remove(self.nodes@.len(), before, old(self).free@, 0);
                    lemma_unlink(old(self).nodes@, self.nodes@, before, 0);
                }
                Some(self.nodes[head].data)
            },
        }
    }

    /// Takes the last value off the list, if there is one.
    pub fn pop_back(&mut self) -> (data: Option<T>)
        requires
            old(self).wf(),
        ensures
            final(self).wf(),
            old(self)@.len() == 0 ==> data is None
                && final(self)@ == old(self)@
                && final(self).free_count() == old(self).free_count(),
            old(self)@.len() > 0 ==> data == Some(old(self)@.last())
                && final(self)@ == old(self)@.drop_last()
                && final(self).free_count() == old(self).free_count() + 1,
    {
        if self.len == 0 {
            return None;
        }
        match self.tail {
            None => None,
            Some(tail) => {
                let prev = self.nodes[tail].prev;
                match prev {
                    None => {
                        self.head = None;
                    },
                    Some(prev) => {
                        self.nodes[prev].next = None;
                    },
                }
                self.tail = prev;
                self.free.push(tail);
                self.len -= 1;
                self.order = Ghost(self.order@.remove(self.len as int));
                proof {
                    let before = old(self).order@;
                    let last = before.len() - 1;
                    lemma_slots_remove(self.nodes@.len(), before, old(self).free@, last);
                    lemma_unlink(old(self).nodes@, self.nodes@, before, last);
                }
                Some(self.nodes[tail].data)
            },
        }
    }

    /// Takes the value at place `index` off the list: the first one, the last
    /// one, or the node at `index`, which is reached from the nearer end.
    pub fn remove(&mut self, index: usize) -> (data: Option<T>)
        requires
            old(self).wf(),
            index < old(self)@.len(),
        ensures
            final(self).wf(),
            data == Some(old(self)@[index as int]),
            final(self)@ == old(self)@.remove(index as int),
            final(self).free_count() == old(self).free_count() + 1,
    {
        if index == 0 || self.head.is_none() {
            return self.pop_front();
        }
        if self.len - 1 == index {
            return self.pop_back();
        }
        let curr = self.locate(index);
        Some(self.unlink(index, curr))
    }

    /// Takes the node in slot `curr`, which stands at place `index` between
    /// two others, off the chain and hands its slot back.
    fn unlink(&mut self, index: usize, curr: usize) -> (data: T)
        requires
            old(self).wf(),
            0 < index < old(self).len - 1,
            curr == old(self).order@[index as int],
        ensures
            final(self).wf(),
            data == old(self)@[index as int],
            final(self)@ == old(self)@.remove(index as int),
            final(self).free_count() == old(self).free_count() + 1,
    {
        let prev = self.nodes[curr].prev.unwrap();
        let next = self.nodes[curr].next.unwrap();
        self.nodes[prev].next = Some(next);
        self.nodes[next].prev = Some(prev);
        self.free.push(curr);
        self.len -= 1;
        self.order = Ghost(self.order@.remove(index as int));
        proof {
            let before = old(self).order@;
            lemma_slots_remove(self.nodes@.len(), before, old(self).free@, index as int);
            lemma_unlink(old(self).nodes@, self.nodes@, before, index as int);
        }
        self.nodes[curr].data
    }

    /// `insert` for a caller that has not tested `index`: a place behind the
    /// end of the list is refused, and the list stays as it was.
    pub fn try_insert(&mut self, index: usize, data: T) -> (done: Result<(), IndexError>)
        requires
            old(self).wf(),
        ensures
            final(self).wf(),
            index <= old(self)@.len() ==> done is Ok && final(self)@ == old(self)@.insert(
                index as int,
                data,
            ) && final(self).free_count() == old(self).free_count_after_insert(),
            index > old(self)@.len() ==> done == Err::<(), IndexError>(
                IndexError { index, len: old(self)@.len() as usize },
            ) && final(self)@ == old(self)@ && final(self).free_count() == old(self).free_count(),
    {
        if self.len < index {
            return Err(IndexError { index, len: self.len });
        }
        self.insert(index, data);
        Ok(())
    }

    /// `remove` for a caller that has not tested `index`: a place that holds
    /// no value is refused, and the list stays as it was.
    pub fn try_remove(&mut self, index: usize) -> (data: Result<T, IndexError>)
        requires
            old(self).wf(),
        ensures
            final(self).wf(),
            index < old(self)@.len() ==> data == Ok::<T, IndexError>(old(self)@[index as int])
                && final(self)@ == old(self)@.remove(index as int) && final(self).free_count()
                == old(self).free_count() + 1,
            index >= old(self)@.len() ==> data == Err::<T, IndexError>(
                IndexError { index, len: old(self)@.len() as usize },
            ) && final(self)@ == old(self)@ && final(self).free_count() == old(self).free_count(),
    {
        if self.len <= index {
            return Err(IndexError { index, len: self.len });
        }
        match self.remove(index) {
            Some(data) => Ok(data),
            None => Err(IndexError { index, len: self.len }),
        }
    }

    /// `get` for a caller that has not tested `index`: a place that holds no
    /// value is refused.
    pub fn try_get(&self, index: usize) -> (data: Result<&T, IndexError>)
        requires
            self.wf(),
        ensures
            index < self@.len() ==> data == Ok::<&T, IndexError>(&self@[index as int]),
            index >= self@.len() ==> data == Err::<&T, IndexError>(
                IndexError { index, len: self@.len() as usize },
            ),
    {
        if self.len <= index {
            return Err(IndexError { index, len: self.len });
        }
        match self.get(index) {
            Some(data) => Ok(data),
            None => Err(IndexError { index, len: self.len }),
        }
    }

    /// The number of values.
    pub fn len(&self) -> (len: usize)
        requires
            self.wf(),
        ensures
            len == self@.len(),
    {
        self.len
    }

    /// Whether the list holds no value.
    pub fn is_empty(&self) -> (empty: bool)
        requires
            self.wf(),
        ensures
            empty == (self@.len() == 0),
    {
        self.len == 0
    }

    /// The value at place `index`, reached from the nearer end.
    pub fn get(&self, index: usize) -> (data: Option<&T>)
        requires
            self.wf(),
            index < self@.len(),
        ensures
            data == Some(&self@[index as int]),
    {
        let slot = self.locate(index);
        Some(&self.nodes[slot].data)
    }

    /// Whether some value of the list equals `data`, as `==` of `T` sees it.
    pub fn contains(&self, data: T) -> (found: bool)
        requires
            self.wf(),
        ensures
            T::obeys_eq_spec() ==> found == exists|i: int|
                0 <= i < self@.len() && #[trigger] self@[i].eq_spec(&data),
    {
        let mut curr = self.head;
        let ghost mut count: int = 0;
        while curr.is_some()
            invariant
                self.wf(),
                0 <= count <= self.len,
                curr == next_at(self.order@, count - 1),
                T::obeys_eq_spec() ==> forall|i: int|
                    0 <= i < count ==> !#[trigger] self@[i].eq_spec(&data),
            decreases self.len - count,
        {
            let slot = curr.unwrap();
            assert(self@[count] == self.nodes@[slot as int].data);
            if self.nodes[slot].data == data {
                return true;
            }
            curr = self.nodes[slot].next;
            proof {
                count = count + 1;
            }
        }
        false
    }

    /// A copy of the values, front to back.
    pub fn collect(&self) -> (items: Vec<T>)
        requires
            self.wf(),
        ensures
            items@ == self@,
    {
        let mut result = Vec::with_capacity(self.len);
        let mut curr = self.head;
        while curr.is_some()
            invariant
                self.wf(),
                result@.len() <= self.len,
                curr == next_at(self.order@, result@.len() - 1),
                result@ == self@.subrange(0, result@.len() as int),
            decreases self.len - result@.len(),
        {
            let slot = curr.unwrap();
            result.push(self.nodes[slot].data);
            curr = self.nodes[slot].next;
        }
        result
    }

    /// Takes the nodes off the chain, the first one first, until none is left.
    pub fn clear(&mut self)
        requires
            old(self).wf(),
        ensures
            final(self).wf(),
            final(self)@ == Seq::<T>::empty(),
            final(self).free_count() == old(self).slot_count(),
    {
        loop
            invariant
                self.wf(),
                self.slot_count() == old(self).slot_count(),
            ensures
                self.wf(),
                self@.len() == 0,
            decreases self@.len(),
        {
            proof {
                self.lemma_slots_accounted();
            }
            if self.pop_front().is_none() {
                break ;
            }
            proof {
                self.lemma_slots_accounted();
            }
        }
        proof {
            self.lemma_slots_accounted();
        }
    }

    /// The number of slots of the arena.
    pub fn slots(&self) -> (count: usize)
        ensures
            count == self.slot_count(),
    {
        self.nodes.len()
    }

    /// The number of slots on the free list.
    pub fn free_slots(&self) -> (count: usize)
        ensures
            count == self.free_count(),
    {
        self.free.len()
    }
}

} // verus!
