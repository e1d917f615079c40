//! Linear containers that keep their own books on storage: a growable array
//! on a buffer of slots, chains of nodes linked one way and both ways, and
//! the stacks, queues and deques built on them.
//!
//! Every container is seen as the sequence of the values it holds (its view,
//! `@`), and every operation states what it does to that sequence. A
//! container that `wf()` holds of keeps its books right; the constructors
//! establish it and the operations preserve it.

pub mod deques;
pub mod laws;
pub mod lists;
pub mod queues;
pub mod stacks;
