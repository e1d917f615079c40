use vstd::prelude::*;

verus! {

/// A vector that has no storage of its own yet: it can be made, and it is
/// empty.
pub struct Vector<T> {
    len: usize,
    array: [T; 0],
}

impl<T> View for Vector<T> {
    type V = Seq<T>;

    /// The first `len` elements of the array.
    closed spec fn view(&self) -> Seq<T> {
        self.array@.take(self.len as int)
    }
}

impl<T> Vector<T> {
    /// An empty vector.
    pub fn new() -> (vector: Self)
        ensures
            vector@ == Seq::<T>::empty(),
    {
        Vector { array: [], len: 0 }
    }
}

} // verus!
