//! Errors of the two user ends.

use vstd::prelude::*;

verus! {

/// Why the writer could not borrow a segment.
#[derive(Debug, PartialEq, Eq)]
pub enum TxError<T> {
    /// The ring is full, or its writable region is reserved by the runtime.
    Stuffed(T),
    /// The tx end is closed and nothing can be written any more.
    Closing,
    /// The request itself is not acceptable.
    Argument,
}

/// Why the reader could not borrow a segment.
#[derive(Debug, PartialEq, Eq)]
pub enum RxError<T> {
    /// The ring is empty, or its readable region is reserved by the runtime.
    Drained(T),
    /// The rx end is closed and nothing can be read any more.
    Closing,
    /// The request itself is not acceptable.
    Argument,
}

} // verus!
