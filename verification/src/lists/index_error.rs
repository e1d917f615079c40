use vstd::prelude::*;

verus! {

/// A place that a list does not have: `index` was asked for where the list
/// held `len` values.
#[derive(Debug, Clone, Copy, PartialEq, Eq, Structural)]
pub struct IndexError {
    pub index: usize,
    pub len: usize,
}

} // verus!
