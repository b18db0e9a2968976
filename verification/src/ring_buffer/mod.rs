//! A ring buffer for one producer and one consumer.
//!
//! The whole state of a ring but its items lies in one word: the two positions and four
//! flags. Every operation is one change of that word, so the operations of the two ends
//! and of the runtime may come in any order. Those who wait are parked in waker slots;
//! an operation that changes the state names the wakers to call.

pub mod adapter;
pub mod amount;
pub mod arith;
pub mod demand;
pub mod errors;
pub mod futures;
pub mod laws;
pub mod park;
pub mod region;
pub mod ring;
pub mod rx;
pub mod segment;
pub mod service;
pub mod sizes;
pub mod split;
pub mod state;
pub mod transfer;
pub mod tx;
pub mod waking;
pub mod word;
