use vstd::prelude::*;
use vstd::std_specs::cmp::PartialEqSpec;

use super::index_error::IndexError;

verus! {

/// A value and the node behind it, which this node owns.
struct Node<T: Copy + PartialEq> {
    data: T,
    next: Option<Box<Node<T>>>,
}

impl<T: Copy + PartialEq> Node<T> {
    /// A node that owns no other.
    fn new(data: T) -> (node: Self)
        ensures
            node.data == data,
            node.next is None,
    {
        Node { data, next: None }
    }
}

/// The values of the nodes that `link` owns, the nearest first.
spec fn chain<T: Copy + PartialEq>(link: Option<Box<Node<T>>>) -> Seq<T>
    decreases link,
{
    match link {
        None => Seq::empty(),
        Some(node) => seq![node.data] + chain(node.next),
    }
}

/// A chain of nodes in which each node owns the one behind it.
pub struct SinglyLinkedList<T: Copy + PartialEq> {
    len: usize,
    head: Option<Box<Node<T>>>,
}

impl<T: Copy + PartialEq> View for SinglyLinkedList<T> {
    type V = Seq<T>;

    /// The values, front to back.
    closed spec fn view(&self) -> Seq<T> {
        chain(self.head)
    }
}

impl<T: Copy + PartialEq> SinglyLinkedList<T> {
    /// The length that is kept is the number of nodes on the chain.
    pub closed spec fn wf(&self) -> bool {
        self.len == chain(self.head).len()
    }

    /// An empty list.
    pub fn new() -> (list: Self)
        ensures
            list.wf(),
            list@ == Seq::<T>::empty(),
    {
        Self { len: 0, head: None }
    }

    /// Puts `data` before the first value.
    pub fn push_front(&mut self, data: T)
        requires
            old(self).wf(),
            old(self)@.len() < usize::MAX,
        ensures
            final(self).wf(),
            final(self)@ == seq![data] + old(self)@,
    {
        let mut node = Box::new(Node::new(data));
        node.next = self.head.take();
        self.head = Some(node);
        self.len += 1;
    }

    /// Puts `data` behind the last value. The end of the chain is found by
    /// walking from its head.
    pub fn push_back(&mut self, data: T)
        requires
            old(self).wf(),
            old(self)@.len() < usize::MAX,
        ensures
            final(self).wf(),
            final(self)@ == old(self)@.push(data),
    {
        let node = Box::new(Node::new(data));
        let ghost mut passed: Seq<T> = Seq::empty();
        let mut curr = &mut self.head;
        while curr.is_some()
            invariant
                chain(old(self).head) == passed + chain(*curr),
                chain(after_borrow(self.head)) == passed + chain(*final(curr)),
                after_borrow(self.len) == old(self).len,
            decreases chain(*curr).len(),
        {
            let here = curr.as_mut().unwrap();
            proof {
                passed = passed.push(here.data);
            }
            curr = &mut here.next;
        }
        *curr = Some(node);
        self.len += 1;
    }

    /// Puts `data` at place `index`: before the first value, behind the last
    /// one, or behind the node before `index`, which is found by walking from
    /// the head.
    pub fn insert(&mut self, index: usize, data: T)
        requires
            old(self).wf(),
            index <= old(self)@.len(),
            old(self)@.len() < usize::MAX,
        ensures
            final(self).wf(),
            final(self)@ == old(self)@.insert(index as int, data),
    {
        if index == 0 || self.head.is_none() {
            self.push_front(data);
            return ;
        }
        if self.len == index {
            self.push_back(data);
            return ;
        }
        // The link that leads from the node before `index` to the node at `index`.
        let ghost mut passed: Seq<T> = Seq::empty();
        let mut curr = &mut self.head;
        let mut count: usize = 0;
        while count < index
            invariant
                count <= index < old(self).len,
                old(self).len == chain(old(self).head).len(),
                passed.len() == count,
                chain(old(self).head) == passed + chain(*curr),
                chain(after_borrow(self.head)) == passed + chain(*final(curr)),
                after_borrow(self.len) == old(self).len,
            decreases index - count,
        {
            let here = curr.as_mut().unwrap();
            proof {
                passed = passed.push(here.data);
            }
            curr = &mut here.next;
            count += 1;
        }
        let mut node = Box::new(Node::new(data));
        node.next = curr.take();
        *curr = Some(node);
        self.len += 1;
    }

    /// Takes the first value off the list, if there is one.
    pub fn pop_front(&mut self) -> (data: Option<T>)
        requires
            old(self).wf(),
        ensures
            final(self).wf(),
            old(self)@.len() == 0 ==> data is None && final(self)@ == old(self)@,
            old(self)@.len() > 0 ==> data == Some(old(self)@.first())
                && final(self)@ == old(self)@.drop_first(),
    {
        if self.len == 0 {
            return None;
        }
        match self.head.take() {
            None => None,
            Some(old_head) => {
                let old_head = *old_head;
                self.head = old_head.next;
                self.len -= 1;
                Some(old_head.data)
            },
        }
    }

    /// Takes the last value off the list, if there is one.
    pub fn pop_back(&mut self) -> (data: Option<T>)
        requires
            old(self).wf(),
        ensures
            final(self).wf(),
            old(self)@.len() == 0 ==> data is None && final(self)@ == old(self)@,
            old(self)@.len() > 0 ==> data == Some(old(self)@.last())
                && final(self)@ == old(self)@.drop_last(),
    {
        if self.len == 0 {
            return None;
        }
        if self.len == 1 {
            let head = self.head.take();
            self.len = 0;
            return match head {
                None => None,
                Some(head) => Some(head.data),
            };
        }
        // The link that leads from the node before the last one to the last one.
        let ghost mut passed: Seq<T> = Seq::empty();
        let mut curr = &mut self.head;
        while curr.as_ref().unwrap().next.is_some()
            invariant
                chain(*curr).len() > 0,
                chain(old(self).head) == passed + chain(*curr),
                chain(after_borrow(self.head)) == passed + chain(*final(curr)),
                after_borrow(self.len) == old(self).len,
            decreases chain(*curr).len(),
        {
            let here = curr.as_mut().unwrap();
            proof {
                passed = passed.push(here.data);
            }
            curr = &mut here.next;
        }
        let last = curr.take().unwrap();
        self.len -= 1;
        Some(last.data)
    }

    /// Takes the value at place `index` off the list: the first one, the last
    /// one, or the one behind the node before `index`, which is found by
    /// walking from the head.
    pub fn remove(&mut self, index: usize) -> (data: Option<T>)
        requires
            old(self).wf(),
            index < old(self)@.len(),
        ensures
            final(self).wf(),
            data == Some(old(self)@[index as int]),
            final(self)@ == old(self)@.remove(index as int),
    {
        if index == 0 || self.head.is_none() {
            return self.pop_front();
        }
        if self.len - 1 == index {
            return self.pop_back();
        }
        // The link that leads from the node before `index` to the node at `index`.
        let ghost mut passed: Seq<T> = Seq::empty();
        let mut curr = &mut self.head;
        let mut count: usize = 0;
        while count < index
            invariant
                count <= index < old(self).len,
                old(self).len == chain(old(self).head).len(),
                passed.len() == count,
                chain(old(self).head) == passed + chain(*curr),
                chain(after_borrow(self.head)) == passed + chain(*final(curr)),
                after_borrow(self.len) == old(self).len,
            decreases index - count,
        {
            let here = curr.as_mut().unwrap();
            proof {
                passed = passed.push(here.data);
            }
            curr = &mut here.next;
            count += 1;
        }
        let node = *curr.take().unwrap();
        *curr = node.next;
        self.len -= 1;
        Some(node.data)
    }

    /// `insert` for a caller that has not tested `index`: a place behind the
    /// end of the list is refused, and the list stays as it was.
    pub fn try_insert(&mut self, index: usize, data: T) -> (done: Result<(), IndexError>)
        requires
            old(self).wf(),
            old(self)@.len() < usize::MAX,
        ensures
            final(self).wf(),
            index <= old(self)@.len() ==> done is Ok && final(self)@ == old(self)@.insert(
                index as int,
                data,
            ),
            index > old(self)@.len() ==> done == Err::<(), IndexError>(
                IndexError { index, len: old(self)@.len() as usize },
            ) && final(self)@ == old(self)@,
    {
        if self.len < index {
            return Err(IndexError { index, len: self.len });
        }
        self.insert(index, data);
        Ok(())
    }

    /// `remove` for a caller that has not tested `index`: a place that holds
    /// no value is refused, and the list stays as it was.
    pub fn try_remove(&mut self, index: usize) -> (data: Result<T, IndexError>)
        requires
            old(self).wf(),
        ensures
            final(self).wf(),
            index < old(self)@.len() ==> data == Ok::<T, IndexError>(old(self)@[index as int])
                && final(self)@ == old(self)@.remove(index as int),
            index >= old(self)@.len() ==> data == Err::<T, IndexError>(
                IndexError { index, len: old(self)@.len() as usize },
            ) && final(self)@ == old(self)@,
    {
        if self.len <= index {
            return Err(IndexError { index, len: self.len });
        }
        match self.remove(index) {
            Some(data) => Ok(data),
            None => Err(IndexError { index, len: self.len }),
        }
    }

    /// `get` for a caller that has not tested `index`: a place that holds no
    /// value is refused.
    pub fn try_get(&self, index: usize) -> (data: Result<&T, IndexError>)
        requires
            self.wf(),
        ensures
            index < self@.len() ==> data == Ok::<&T, IndexError>(&self@[index as int]),
            index >= self@.len() ==> data == Err::<&T, IndexError>(
                IndexError { index, len: self@.len() as usize },
            ),
    {
        if self.len <= index {
            return Err(IndexError { index, len: self.len });
        }
        match self.get(index) {
            Some(data) => Ok(data),
            None => Err(IndexError { index, len: self.len }),
        }
    }

    /// The number of values.
    pub fn len(&self) -> (len: usize)
        requires
            self.wf(),
        ensures
            len == self@.len(),
    {
        self.len
    }

    /// Whether the list holds no value.
    pub fn is_empty(&self) -> (empty: bool)
        requires
            self.wf(),
        ensures
            empty == (self@.len() == 0),
    {
        self.len == 0
    }

    /// The value at place `index`, found by walking from the head.
    pub fn get(&self, index: usize) -> (data: Option<&T>)
        requires
            self.wf(),
            index < self@.len(),
        ensures
            data == Some(&self@[index as int]),
    {
        let ghost mut passed: Seq<T> = Seq::empty();
        let mut curr = &self.head;
        let mut count: usize = 0;
        while count < index
            invariant
                count <= index < self.len,
                self.len == chain(self.head).len(),
                passed.len() == count,
                chain(self.head) == passed + chain(*curr),
            decreases index - count,
        {
            let here = curr.as_ref().unwrap();
            proof {
                passed = passed.push(here.data);
            }
            curr = &here.next;
            count += 1;
        }
        match curr {
            None => None,
            Some(here) => Some(&here.data),
        }
    }

    /// Whether some value of the list equals `data`, as `==` of `T` sees it.
    pub fn contains(&self, data: T) -> (found: bool)
        requires
            self.wf(),
        ensures
            T::obeys_eq_spec() ==> found == exists|i: int|
                0 <= i < self@.len() && #[trigger] self@[i].eq_spec(&data),
    {
        let ghost mut passed: Seq<T> = Seq::empty();
        let mut curr = &self.head;
        while curr.is_some()
            invariant
                chain(self.head) == passed + chain(*curr),
                T::obeys_eq_spec() ==> forall|i: int|
                    0 <= i < passed.len() ==> !#[trigger] chain(self.head)[i].eq_spec(&data),
            decreases chain(*curr).len(),
        {
            let here = curr.as_ref().unwrap();
            if here.data == data {
                assert(T::obeys_eq_spec() ==> self@[passed.len() as int].eq_spec(&data));
                return true;
            }
            proof {
                passed = passed.push(here.data);
            }
            curr = &here.next;
        }
        false
    }

    /// A copy of the values, front to back.
    pub fn collect(&self) -> (items: Vec<T>)
        requires
            self.wf(),
        ensures
            items@ == self@,
    {
        let mut result = Vec::with_capacity(self.len);
        let mut curr = &self.head;
        while curr.is_some()
            invariant
                chain(self.head) == result@ + chain(*curr),
            decreases chain(*curr).len(),
        {
            let here = curr.as_ref().unwrap();
            result.push(here.data);
            curr = &here.next;
        }
        result
    }

    /// Takes the nodes off the chain, the first one first, until none is left.
    pub fn clear(&mut self)
        requires
            old(self).wf(),
        ensures
            final(self).wf(),
            final(self)@ == Seq::<T>::empty(),
    {
        loop
            invariant
                self.wf(),
            ensures
                self.wf(),
                self@.len() == 0,
            decreases self@.len(),
        {
            if self.pop_front().is_none() {
                break ;
            }
        }
    }
}

impl<T: Copy + PartialEq> Drop for SinglyLinkedList<T> {
    /// Takes the chain apart node by node, the first one first, so that a
    /// long chain needs no deeper stack than a short one.
    fn drop(&mut self)
        ensures
            final(self).wf(),
            final(self)@ == Seq::<T>::empty(),
        opens_invariants none
        no_unwind
    {
        let mut curr: Option<Box<Node<T>>> = None;
        core::mem::swap(&mut curr, &mut self.head);
        self.len = 0;
        loop
            decreases chain(curr).len(),
        {
            match curr {
                None => {
                    break ;
                },
                Some(node) => {
                    let node = *node;
                    curr = node.next;
                },
            }
        }
    }
}

} // verus!
