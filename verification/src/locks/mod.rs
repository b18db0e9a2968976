//! Locks that are acquired by spinning.
//!
//! Handles, waits and guards are tokens that carry the identity of their lock: a guard is
//! made by acquiring the lock, gives access to its data, and is given up by releasing it.

pub mod acq_link;
pub mod laws;
pub mod mutex;
pub mod rwlock;
pub mod service;
pub mod signal;
