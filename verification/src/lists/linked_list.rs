use vstd::prelude::*;
use vstd::std_specs::cmp::PartialEqSpec;

use super::doubly_linked_list::DoublyLinkedList;
use super::index_error::IndexError;

verus! {

/// The list that the stacks, queues and deques are built on: values in a
/// row, cheap to reach at both ends. It keeps them on a doubly linked chain.
pub struct LinkedList<T: Copy + PartialEq> {
    chain: DoublyLinkedList<T>,
}

impl<T: Copy + PartialEq> View for LinkedList<T> {
    type V = Seq<T>;

    /// The values, front to back.
    closed spec fn view(&self) -> Seq<T> {
        self.chain@
    }
}

impl<T: Copy + PartialEq> LinkedList<T> {
    /// The chain that holds the values keeps its books right.
    pub closed spec fn wf(&self) -> bool {
        self.chain.wf()
    }

    /// An empty list.
    pub fn new() -> (list: Self)
        ensures
            list.wf(),
            list@ == Seq::<T>::empty(),
    {
        Self { chain: DoublyLinkedList::new() }
    }

    /// Puts `data` before the first value.
    pub fn push_front(&mut self, data: T)
        requires
            old(self).wf(),
        ensures
            final(self).wf(),
            final(self)@ == seq![data] + old(self)@,
    {
        self.chain.push_front(data)
    }

    /// Puts `data` behind the last value.
    pub fn push_back(&mut self, data: T)
        requires
            old(self).wf(),
        ensures
            final(self).wf(),
            final(self)@ == old(self)@.push(data),
    {
        self.chain.push_back(data)
    }

    /// Puts `data` at place `index`.
    pub fn insert(&mut self, index: usize, data: T)
        requires
            old(self).wf(),
            index <= old(self)@.len(),
        ensures
            final(self).wf(),
            final(self)@ == old(self)@.insert(index as int, data),
    {
        self.chain.insert(index, data)
    }

    /// Takes the first value off the list, if there is one.
    pub fn pop_front(&mut self) -> (data: Option<T>)
        requires
            old(self).wf(),
        ensures
            final(self).wf(),
            old(self)@.len() == 0 ==> data is None && final(self)@ == old(self)@,
            old(self)@.len() > 0 ==> data == Some(old(self)@.first())
                && final(self)@ == old(self)@.drop_first(),
    {
        self.chain.pop_front()
    }

    /// Takes the last value off the list, if there is one.
    pub fn pop_back(&mut self) -> (data: Option<T>)
        requires
            old(self).wf(),
        ensures
            final(self).wf(),
            old(self)@.len() == 0 ==> data is None && final(self)@ == old(self)@,
            old(self)@.len() > 0 ==> data == Some(old(self)@.last())
                && final(self)@ == old(self)@.drop_last(),
    {
        self.chain.pop_back()
    }

    /// Takes the value at place `index` off the list.
    pub fn remove(&mut self, index: usize) -> (data: Option<T>)
        requires
            old(self).wf(),
            index < old(self)@.len(),
        ensures
            final(self).wf(),
            data == Some(old(self)@[index as int]),
            final(self)@ == old(self)@.remove(index as int),
    {
        self.chain.remove(index)
    }

    /// `insert` for a caller that has not tested `index`: a place behind the
    /// end of the list is refused, and the list stays as it was.
    pub fn try_insert(&mut self, index: usize, data: T) -> (done: Result<(), IndexError>)
        requires
            old(self).wf(),
        ensures
            final(self).wf(),
            index <= old(self)@.len() ==> done is Ok && final(self)@ == old(self)@.insert(
                index as int,
                data,
            ),
            index > old(self)@.len() ==> done == Err::<(), IndexError>(
                IndexError { index, len: old(self)@.len() as usize },
            ) && final(self)@ == old(self)@,
    {
        if self.chain.len() < index {
            return Err(IndexError { index, len: self.chain.len() });
        }
        self.chain.insert(index, data);
        Ok(())
    }

    /// `remove` for a caller that has not tested `index`: a place that holds
    /// no value is refused, and the list stays as it was.
    pub fn try_remove(&mut self, index: usize) -> (data: Result<T, IndexError>)
        requires
            old(self).wf(),
        ensures
            final(self).wf(),
            index < old(self)@.len() ==> data == Ok::<T, IndexError>(old(self)@[index as int])
                && final(self)@ == old(self)@.remove(index as int),
            index >= old(self)@.len() ==> data == Err::<T, IndexError>(
                IndexError { index, len: old(self)@.len() as usize },
            ) && final(self)@ == old(self)@,
    {
        if self.chain.len() <= index {
            return Err(IndexError { index, len: self.chain.len() });
        }
        match self.chain.remove(index) {
            Some(data) => Ok(data),
            None => Err(IndexError { index, len: self.chain.len() }),
        }
    }

    /// `get` for a caller that has not tested `index`: a place that holds no
    /// value is refused.
    pub fn try_get(&self, index: usize) -> (data: Result<&T, IndexError>)
        requires
            self.wf(),
        ensures
            index < self@.len() ==> data == Ok::<&T, IndexError>(&self@[index as int]),
            index >= self@.len() ==> data == Err::<&T, IndexError>(
                IndexError { index, len: self@.len() as usize },
            ),
    {
        if self.chain.len() <= index {
            return Err(IndexError { index, len: self.chain.len() });
        }
        match self.chain.get(index) {
            Some(data) => Ok(data),
            None => Err(IndexError { index, len: self.chain.len() }),
        }
    }

    /// The number of values.
    pub fn len(&self) -> (len: usize)
        requires
            self.wf(),
        ensures
            len == self@.len(),
    {
        self.chain.len()
    }

    /// Whether the list holds no value.
    pub fn is_empty(&self) -> (empty: bool)
        requires
            self.wf(),
        ensures
            empty == (self@.len() == 0),
    {
        self.chain.is_empty()
    }

    /// The value at place `index`.
    pub fn get(&self, index: usize) -> (data: Option<&T>)
        requires
            self.wf(),
            index < self@.len(),
        ensures
            data == Some(&self@[index as int]),
    {
        self.chain.get(index)
    }

    /// Whether some value of the list equals `data`, as `==` of `T` sees it.
    pub fn contains(&self, data: T) -> (found: bool)
        requires
            self.wf(),
        ensures
            T::obeys_eq_spec() ==> found == exists|i: int|
                0 <= i < self@.len() && #[trigger] self@[i].eq_spec(&data),
    {
        let found = self.chain.contains(data);
        assert(self@ == self.chain@);
        found
    }

    /// A copy of the values, front to back.
    pub fn collect(&self) -> (items: Vec<T>)
        requires
            self.wf(),
        ensures
            items@ == self@,
    {
        self.chain.collect()
    }

    /// Takes the values off the list until none is left.
    pub fn clear(&mut self)
        requires
            old(self).wf(),
        ensures
            final(self).wf(),
            final(self)@ == Seq::<T>::empty(),
    {
        self.chain.clear()
    }
}

} // verus!
