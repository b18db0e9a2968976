//! Verified building blocks for buffered byte streams.
//!
//! * [`ring_buffer`]: a ring between one producer and one consumer, with segments,
//!   parking and the handoff of regions to a kernel.
//! * [`stream`]: the two tasks that move bytes between a pair of rings and a socket.
//! * [`locks`]: a spinlock, a reader-writer lock and a queue of contenders.
//! * [`mcf`]: planning the types of a cancellable future from a function signature.

pub mod locks;
pub mod mcf;
pub mod ring_buffer;
pub mod stream;
