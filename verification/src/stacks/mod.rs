//! Stacks: the value that was pushed last leaves first.

mod linked_list_stack;
mod vec_stack;

pub use self::linked_list_stack::LinkedListStack;
pub use self::vec_stack::VecStack;
