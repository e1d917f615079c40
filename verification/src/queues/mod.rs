//! Queues: the value that joined first leaves first.

mod circular_buffer;
mod linked_list_queue;
mod vec_queue;

pub use self::circular_buffer::CircularBuffer;
pub use self::linked_list_queue::LinkedListQueue;
pub use self::vec_queue::VecQueue;
