//! Deques: values join and leave at both ends.

mod linked_list_deque;
mod vec_deque;

pub use self::linked_list_deque::LinkedListDeque;
pub use self::vec_deque::VecDeque;
