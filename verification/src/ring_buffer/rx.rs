//! The read half of a ring.

use vstd::prelude::*;

use super::amount::Demand;
use super::demand::{ParkSide, Waiter, Woken};
use super::errors::RxError;
use super::futures::{PeekAsync, ReadAsync};
use super::ring::RingBuffer;
use super::segment::{ReclPeekRef, ReclSliceRef};

verus! {

/// The consumer's end of a ring. `H` is the handle by which its owner reaches the
/// ring, such as a shared pointer to it.
#[derive(Debug)]
pub struct RingRx<H> {
    ring: H,
    waiter: Waiter,
}

/// What a try to read under a demand is answered.
pub open spec fn try_read_offer<T>(ring: &RingBuffer<T>, demand: Demand) -> Result<
    (usize, usize),
    RxError<usize>,
> {
    match ring.read_offer(demand.at_most_len()) {
        Ok((start, take)) => if take >= demand.at_least_len() {
            Ok((start, take))
        } else if ring.state().rx_closed {
            Err(RxError::Closing)
        } else {
            Err(RxError::Drained(start))
        },
        Err(e) => Err(e),
    }
}

/// `got` is the read or peek segment on `ring` that `offer` describes, or its error.
pub open spec fn read_segm_for<T>(
    got: Result<ReclSliceRef, RxError<usize>>,
    ring: &RingBuffer<T>,
    offer: Result<(usize, usize), RxError<usize>>,
    peek: bool,
) -> bool {
    match (got, offer) {
        (Ok(segm), Ok((start, take))) => {
            &&& segm.start() == start
            &&& segm.take() == take
            &&& segm.offset() == 0
            &&& segm.is_peek() == peek
            &&& segm.claims(ring)
        },
        (Err(e), Err(f)) => e == f,
        _ => false,
    }
}

impl<H> RingRx<H> {
    /// The handle of the ring.
    pub closed spec fn handle(&self) -> H {
        self.ring
    }

    /// The waiter of the half itself.
    pub closed spec fn parked(&self) -> Waiter {
        self.waiter
    }

    /// The read half that reaches its ring by `ring`.
    pub fn new(ring: H) -> (rx: Self)
        ensures
            rx.handle() == ring,
            rx.parked() == (Waiter { id: 0, waker: None }),
    {
        RingRx { ring, waiter: Waiter::new(0) }
    }

    /// The handle of the ring.
    pub fn ring(&self) -> (ring: &H)
        ensures
            *ring == self.handle(),
    {
        &self.ring
    }

    /// The handle of the ring, to be cloned for a runtime-side task.
    pub fn shared(&self) -> (ring: &H)
        ensures
            *ring == self.handle(),
    {
        &self.ring
    }

    /// No item will ever be read any more: the ring is empty and its rx end closed.
    pub fn is_drained_closing<T>(&self, ring: &RingBuffer<T>) -> (drained: bool)
        requires
            ring.wf(),
        ensures
            drained == (ring.data() == 0 && ring.state().rx_closed),
    {
        ring.data_size() == 0 && ring.is_rx_closed()
    }

    /// Borrow items as `demand` says, waiting for them.
    pub fn read_async(&mut self, demand: &Demand) -> (r: ReadAsync)
        ensures
            *final(self) == *old(self),
            r.min_len() == demand.at_least_len(),
            r.max_len() == demand.at_most_len(),
    {
        ReadAsync::new(demand.min_len(), demand.max_len())
    }

    /// Borrow at most `length` readable items.
    pub fn try_read_at_most<T>(&mut self, ring: &RingBuffer<T>, length: usize) -> (segm: Result<
        ReclSliceRef,
        RxError<usize>,
    >)
        requires
            ring.wf(),
        ensures
            *final(self) == *old(self),
            read_segm_for(segm, ring, ring.read_offer(length), false),
    {
        match ring.try_read_at(length) {
            Ok((start, take)) => Ok(ring.read_segm(start, take)),
            Err(e) => Err(e),
        }
    }

    /// Borrow items as `demand` says; fewer items than it accepts are refused.
    pub fn try_read<T>(&mut self, ring: &RingBuffer<T>, demand: &Demand) -> (segm: Result<
        ReclSliceRef,
        RxError<usize>,
    >)
        requires
            ring.wf(),
        ensures
            *final(self) == *old(self),
            read_segm_for(segm, ring, try_read_offer(ring, *demand), false),
    {
        let min_len: usize = demand.min_len();
        let max_len: usize = demand.max_len();
        match ring.try_read_at(max_len) {
            Ok((start, take)) => {
                if take < min_len {
                    if ring.is_rx_closed() {
                        Err(RxError::Closing)
                    } else {
                        Err(RxError::Drained(start))
                    }
                } else {
                    Ok(ring.read_segm(start, take))
                }
            },
            Err(e) => Err(e),
        }
    }

    /// Borrow at most `length` items, waiting for one.
    pub fn read_at_most_async(&mut self, length: usize) -> (r: ReadAsync)
        ensures
            *final(self) == *old(self),
            r.min_len() == 0,
            r.max_len() == length,
    {
        ReadAsync::new(0, length)
    }

    /// Borrow all readable items without consuming them.
    pub fn try_peek<T>(&mut self, ring: &RingBuffer<T>) -> (segm: Result<
        ReclPeekRef,
        RxError<usize>,
    >)
        requires
            ring.wf(),
        ensures
            *final(self) == *old(self),
            read_segm_for(segm, ring, ring.peek_offer(), true),
    {
        match ring.try_peek_at() {
            Ok((start, take)) => Ok(ring.peek_segm(start, take)),
            Err(e) => Err(e),
        }
    }

    /// Borrow all readable items without consuming them, waiting for one.
    pub fn peek_async(&mut self) -> (p: PeekAsync)
        ensures
            *final(self) == *old(self),
            p == (PeekAsync {  }),
    {
        PeekAsync::new()
    }

    /// Close the rx end: nothing more is read.
    pub fn close<T>(&mut self, ring: &mut RingBuffer<T>) -> (woken: Woken)
        ensures
            *final(self) == *old(self),
            final(ring).buf() == old(ring).buf(),
            final(ring).state() == (super::word::RingState { rx_closed: true, ..old(ring).state() }),
            final(ring).contents() == old(ring).contents(),
            final(ring).control().quiet(),
            woken == old(ring).control().wakers(),
    {
        ring.close_rx()
    }

    /// Whether the rx end is closed.
    pub fn is_closed<T>(&self, ring: &RingBuffer<T>) -> (closed: bool)
        ensures
            closed == ring.state().rx_closed,
    {
        ring.is_rx_closed()
    }

    /// The buffer length.
    pub fn capacity<T>(&self, ring: &RingBuffer<T>) -> (cap: usize)
        ensures
            cap == ring.cap(),
    {
        ring.capacity()
    }

    /// The number of buffered items.
    pub fn data_size<T>(&self, ring: &RingBuffer<T>) -> (size: usize)
        requires
            ring.wf(),
        ensures
            size == ring.data(),
    {
        ring.data_size()
    }

    pub(crate) fn park_(&mut self, waker: usize)
        ensures
            final(self).handle() == old(self).handle(),
            final(self).parked() == (Waiter { waker: Some(waker), ..old(self).parked() }),
    {
        self.waiter.waker = Some(waker);
    }

    pub(crate) fn waiter_(&self) -> (waiter: Waiter)
        ensures
            waiter == self.parked(),
    {
        self.waiter
    }

    /// Give the half up: it leaves the waker slot and closes the rx end.
    pub fn release<T>(self, ring: &mut RingBuffer<T>) -> (given: (H, Woken))
        ensures
            given.0 == self.handle(),
            final(ring).buf() == old(ring).buf(),
            final(ring).state() == (super::word::RingState { rx_closed: true, ..old(ring).state() }),
            final(ring).contents() == old(ring).contents(),
            final(ring).control().quiet(),
            given.1 == (Woken {
                rx_user: super::demand::waker_of(
                    super::demand::vacated(
                        old(ring).control().slot(ParkSide::RxUser),
                        self.parked(),
                    ),
                ),
                ..old(ring).control().wakers()
            }),
    {
        ring.deregister(ParkSide::RxUser, &self.waiter);
        let woken = ring.close_rx();
        (self.ring, woken)
    }
}

} // verus!
