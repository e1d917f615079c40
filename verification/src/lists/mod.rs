//! The lists: a growable array on a buffer of slots, a chain of nodes
//! linked one way, a chain linked both ways, and the list that the other
//! containers are built on.

mod doubly_linked_list;
mod index_error;
mod linked_list;
mod singly_linked_list;
mod vec;
mod vector;

pub use self::doubly_linked_list::DoublyLinkedList;
pub use self::index_error::IndexError;
pub use self::linked_list::LinkedList;
pub use self::singly_linked_list::SinglyLinkedList;
pub use self::vec::{RawVec, Vec};
pub use self::vector::Vector;
