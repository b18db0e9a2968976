//! The write half of a ring.

use vstd::prelude::*;

use super::amount::Demand;
use super::demand::{ParkSide, Waiter, Woken};
use super::errors::TxError;
use super::futures::WriteAsync;
use super::ring::RingBuffer;
use super::segment::ReclSliceMut;

verus! {

/// The producer's end of a ring. `H` is the handle by which its owner reaches the
/// ring, such as a shared pointer to it.
#[derive(Debug)]
pub struct RingTx<H> {
    ring: H,
    waiter: Waiter,
}

/// What a try to write under a demand is answered.
pub open spec fn try_write_offer<T>(ring: &RingBuffer<T>, demand: Demand) -> Result<
    (usize, usize),
    TxError<usize>,
> {
    match ring.write_offer(demand.at_most_len()) {
        Ok((start, take)) => if take >= demand.at_least_len() {
            Ok((start, take))
        } else if ring.state().tx_closed {
            Err(TxError::Closing)
        } else {
            Err(TxError::Stuffed(start))
        },
        Err(e) => Err(e),
    }
}

/// `got` is the write segment on `ring` that `offer` describes, or its error.
pub open spec fn write_segm_for<T>(
    got: Result<ReclSliceMut, TxError<usize>>,
    ring: &RingBuffer<T>,
    offer: Result<(usize, usize), TxError<usize>>,
) -> bool {
    match (got, offer) {
        (Ok(segm), Ok((start, take))) => {
            &&& segm.start() == start
            &&& segm.take() == take
            &&& segm.offset() == 0
            &&& segm.claims(ring)
        },
        (Err(e), Err(f)) => e == f,
        _ => false,
    }
}

impl<H> RingTx<H> {
    /// The handle of the ring.
    pub closed spec fn handle(&self) -> H {
        self.ring
    }

    /// The waiter of the half itself.
    pub closed spec fn parked(&self) -> Waiter {
        self.waiter
    }

    /// The write half that reaches its ring by `ring`.
    pub fn new(ring: H) -> (tx: Self)
        ensures
            tx.handle() == ring,
            tx.parked() == (Waiter { id: 0, waker: None }),
    {
        RingTx { ring, waiter: Waiter::new(0) }
    }

    /// The handle of the ring.
    pub fn ring(&self) -> (ring: &H)
        ensures
            *ring == self.handle(),
    {
        &self.ring
    }

    /// The handle of the ring, to be cloned for a runtime-side task.
    pub fn shared(&self) -> (ring: &H)
        ensures
            *ring == self.handle(),
    {
        &self.ring
    }

    /// Nothing can be written now, or nothing is to be written any more.
    pub fn is_blocked_closing<T>(&self, ring: &RingBuffer<T>) -> (blocked: bool)
        requires
            ring.wf(),
        ensures
            blocked == (!ring.state().writable(ring.cap()) || ring.state().tx_closed),
    {
        !ring.has_tx_space() || ring.is_tx_closed()
    }

    /// Borrow slots as `demand` says, waiting for them.
    pub fn write_async(&mut self, demand: &Demand) -> (w: WriteAsync)
        ensures
            *final(self) == *old(self),
            w.min_len() == demand.at_least_len(),
            w.max_len() == demand.at_most_len(),
    {
        WriteAsync::new(demand.min_len(), demand.max_len())
    }

    /// Borrow at most `length` writable slots.
    pub fn try_write_at_most<T>(&mut self, ring: &RingBuffer<T>, length: usize) -> (segm: Result<
        ReclSliceMut,
        TxError<usize>,
    >)
        requires
            ring.wf(),
        ensures
            *final(self) == *old(self),
            write_segm_for(segm, ring, ring.write_offer(length)),
    {
        match ring.try_write_at(length) {
            Ok((start, take)) => Ok(ring.write_segm(start, take)),
            Err(e) => Err(e),
        }
    }

    /// Borrow slots as `demand` says; fewer slots than it accepts are refused.
    pub fn try_write<T>(&mut self, ring: &RingBuffer<T>, demand: &Demand) -> (segm: Result<
        ReclSliceMut,
        TxError<usize>,
    >)
        requires
            ring.wf(),
        ensures
            *final(self) == *old(self),
            write_segm_for(segm, ring, try_write_offer(ring, *demand)),
    {
        let min_len: usize = demand.min_len();
        let max_len: usize = demand.max_len();
        match ring.try_write_at(max_len) {
            Ok((start, take)) => {
                if take < min_len {
                    if ring.is_tx_closed() {
                        Err(TxError::Closing)
                    } else {
                        Err(TxError::Stuffed(start))
                    }
                } else {
                    Ok(ring.write_segm(start, take))
                }
            },
            Err(e) => Err(e),
        }
    }

    /// Borrow at most `length` slots, waiting for one.
    pub fn write_at_most_async(&mut self, length: usize) -> (w: WriteAsync)
        ensures
            *final(self) == *old(self),
            w.min_len() == 0,
            w.max_len() == length,
    {
        WriteAsync::new(0, length)
    }

    /// Close the tx end: nothing more is written.
    pub fn close<T>(&mut self, ring: &mut RingBuffer<T>) -> (woken: Woken)
        ensures
            *final(self) == *old(self),
            final(ring).buf() == old(ring).buf(),
            final(ring).state() == (super::word::RingState { tx_closed: true, ..old(ring).state() }),
            final(ring).contents() == old(ring).contents(),
            final(ring).control().quiet(),
            woken == old(ring).control().wakers(),
    {
        ring.close_tx()
    }

    /// Whether the tx end is closed.
    pub fn is_closed<T>(&self, ring: &RingBuffer<T>) -> (closed: bool)
        ensures
            closed == ring.state().tx_closed,
    {
        ring.is_tx_closed()
    }

    /// The buffer length.
    pub fn capacity<T>(&self, ring: &RingBuffer<T>) -> (cap: usize)
        ensures
            cap == ring.cap(),
    {
        ring.capacity()
    }

    /// The number of buffered items.
    pub fn data_size<T>(&self, ring: &RingBuffer<T>) -> (size: usize)
        requires
            ring.wf(),
        ensures
            size == ring.data(),
    {
        ring.data_size()
    }

    /// The number of free slots.
    pub fn free_size<T>(&self, ring: &RingBuffer<T>) -> (size: usize)
        requires
            ring.wf(),
        ensures
            size == ring.free(),
    {
        ring.free_size()
    }

    pub(crate) fn park_(&mut self, waker: usize)
        ensures
            final(self).handle() == old(self).handle(),
            final(self).parked() == (Waiter { waker: Some(waker), ..old(self).parked() }),
    {
        self.waiter.waker = Some(waker);
    }

    pub(crate) fn waiter_(&self) -> (waiter: Waiter)
        ensures
            waiter == self.parked(),
    {
        self.waiter
    }

    /// Give the half up: it leaves the waker slot and closes the tx end.
    pub fn release<T>(self, ring: &mut RingBuffer<T>) -> (given: (H, Woken))
        ensures
            given.0 == self.handle(),
            final(ring).buf() == old(ring).buf(),
            final(ring).state() == (super::word::RingState { tx_closed: true, ..old(ring).state() }),
            final(ring).contents() == old(ring).contents(),
            final(ring).control().quiet(),
            given.1 == (Woken {
                tx_user: super::demand::waker_of(
                    super::demand::vacated(
                        old(ring).control().slot(ParkSide::TxUser),
                        self.parked(),
                    ),
                ),
                ..old(ring).control().wakers()
            }),
    {
        ring.deregister(ParkSide::TxUser, &self.waiter);
        let woken = ring.close_tx();
        (self.ring, woken)
    }
}

} // verus!
