//! Asynchronous borrows and waits.
//!
//! A future here is a state machine without a runtime: its owner polls it with
//! the ring, the key of a waker and the state of a cancellation token.

use vstd::prelude::*;

use super::demand::ParkSide;
use super::errors::{RxError, TxError};
use super::park::{Park, ParkCheck, Poll};
use super::ring::RingBuffer;
use super::segment::{ReclPeekRef, ReclSliceMut, ReclSliceRef};

verus! {

/// What polling a write of `min_len` to `max_len` slots gives.
pub open spec fn write_outcome<T>(
    ring: &RingBuffer<T>,
    min_len: usize,
    max_len: usize,
    cancelled: bool,
) -> Poll<Result<(usize, usize), TxError<usize>>> {
    match ring.write_offer(max_len) {
        Ok((start, take)) => if take >= min_len {
            Poll::Ready(Ok((start, take)))
        } else if cancelled {
            Poll::Ready(Err(TxError::Stuffed(0)))
        } else {
            Poll::Pending
        },
        Err(TxError::Stuffed(_)) => if cancelled {
            Poll::Ready(Err(TxError::Stuffed(0)))
        } else {
            Poll::Pending
        },
        Err(e) => Poll::Ready(Err(e)),
    }
}

/// What polling a read of `min_len` to `max_len` items gives.
pub open spec fn read_outcome<T>(
    ring: &RingBuffer<T>,
    min_len: usize,
    max_len: usize,
    cancelled: bool,
) -> Poll<Result<(usize, usize), RxError<usize>>> {
    match ring.read_offer(max_len) {
        Ok((start, take)) => if take >= min_len || ring.state().rx_closed {
            Poll::Ready(Ok((start, take)))
        } else if cancelled {
            Poll::Ready(Err(RxError::Drained(0)))
        } else {
            Poll::Pending
        },
        Err(RxError::Drained(_)) => if cancelled {
            Poll::Ready(Err(RxError::Drained(0)))
        } else {
            Poll::Pending
        },
        Err(e) => Poll::Ready(Err(e)),
    }
}

/// The park of a future after a poll that was answered, or not.
pub open spec fn parked_as<T>(
    after: &Park,
    before: &Park,
    ring_after: &RingBuffer<T>,
    ring_before: &RingBuffer<T>,
    pending: bool,
    waker: usize,
) -> bool {
    &&& after.same_task(before)
    &&& ring_after.kept_except(ring_before, before.side())
    &&& after.registered() == pending
    &&& if pending {
        &&& after.waiter().waker == Some(waker)
        &&& ring_after.control().slot(before.side()) == Some(after.waiter())
    } else {
        &&& after.waiter() == before.waiter()
        &&& ring_after.control().slot(before.side()) == before.left_slot(ring_before)
    }
}

/// A borrow of writable slots that was asked for, not started yet.
#[derive(Debug)]
pub struct WriteAsync {
    min_len: usize,
    max_len: usize,
}

impl WriteAsync {
    /// The least number of slots.
    pub closed spec fn min_len(&self) -> usize {
        self.min_len
    }

    /// The largest number of slots.
    pub closed spec fn max_len(&self) -> usize {
        self.max_len
    }

    /// A borrow of at least `min_len` and at most `max_len` slots.
    pub fn new(min_len: usize, max_len: usize) -> (w: Self)
        ensures
            w.min_len() == min_len,
            w.max_len() == max_len,
    {
        WriteAsync { min_len, max_len }
    }

    /// The future of a borrow that cannot be cancelled. `id` is its identity in
    /// the waker slot.
    pub fn into_future(self, id: usize) -> (f: WriteFuture)
        ensures
            f.min_len() == self.min_len(),
            f.max_len() == self.max_len(),
            !f.cancellable(),
            f.fresh(id),
    {
        WriteFuture::new(self.min_len, self.max_len, false, id)
    }

    /// The future of a borrow that gives up once its token is cancelled.
    pub fn may_cancel_with(self, id: usize) -> (f: WriteFuture)
        ensures
            f.min_len() == self.min_len(),
            f.max_len() == self.max_len(),
            f.cancellable(),
            f.fresh(id),
    {
        WriteFuture::new(self.min_len, self.max_len, true, id)
    }
}

/// A borrow of writable slots: pending until at least `min_len` slots are free.
#[derive(Debug)]
pub struct WriteFuture {
    min_len: usize,
    max_len: usize,
    cancellable: bool,
    park: Park,
}

impl WriteFuture {
    /// The least number of slots.
    pub closed spec fn min_len(&self) -> usize {
        self.min_len
    }

    /// The largest number of slots.
    pub closed spec fn max_len(&self) -> usize {
        self.max_len
    }

    /// The future gives up once its token is cancelled.
    pub closed spec fn cancellable(&self) -> bool {
        self.cancellable
    }

    /// The place in the waker slot.
    pub closed spec fn park(&self) -> Park {
        self.park
    }

    /// The future waits for the writer's free space.
    pub open spec fn wf(&self) -> bool {
        &&& self.park().side() == ParkSide::TxUser
        &&& self.park().condition() == ParkCheck::TxWritableAtLeast
    }

    /// The future was not polled yet.
    pub open spec fn fresh(&self, id: usize) -> bool {
        &&& self.park().waiter() == (super::demand::Waiter { id, waker: None })
        &&& !self.park().registered()
        &&& self.wf()
    }

    /// A poll comes to an answer: a future that asks for more than it takes never
    /// does while there is room enough.
    pub open spec fn answerable<T>(&self, ring: &RingBuffer<T>, cancelled: bool) -> bool {
        ||| self.min_len() <= self.max_len()
        ||| self.cancellable() && cancelled
        ||| !ParkCheck::TxWritableAtLeast.holds(ring, self.min_len())
    }

    /// The future of a borrow of `min_len` to `max_len` slots.
    pub fn new(min_len: usize, max_len: usize, cancellable: bool, id: usize) -> (f: Self)
        ensures
            f.min_len() == min_len,
            f.max_len() == max_len,
            f.cancellable() == cancellable,
            f.fresh(id),
    {
        WriteFuture {
            min_len,
            max_len,
            cancellable,
            park: Park::new(id, ParkSide::TxUser, ParkCheck::TxWritableAtLeast),
        }
    }

    /// Poll the borrow.
    pub fn poll<T>(&mut self, ring: &mut RingBuffer<T>, waker: usize, cancelled: bool) -> (ready: Poll<
        Result<ReclSliceMut, TxError<usize>>,
    >)
        requires
            old(self).wf(),
            old(ring).wf(),
            old(self).park().may_register(old(ring)),
            old(self).answerable(old(ring), cancelled),
        ensures
            final(self).wf(),
            final(self).min_len() == old(self).min_len(),
            final(self).max_len() == old(self).max_len(),
            final(self).cancellable() == old(self).cancellable(),
            parked_as(
                &final(self).park(),
                &old(self).park(),
                final(ring),
                old(ring),
                ready is Pending,
                waker,
            ),
            match (
                ready,
                write_outcome(
                    old(ring),
                    old(self).min_len(),
                    old(self).max_len(),
                    old(self).cancellable() && cancelled,
                ),
            ) {
                (Poll::Ready(Ok(segm)), Poll::Ready(Ok((start, take)))) => {
                    &&& segm.start() == start
                    &&& segm.take() == take
                    &&& segm.offset() == 0
                    &&& segm.claims(final(ring))
                },
                (Poll::Ready(Err(e)), Poll::Ready(Err(f))) => e == f,
                (Poll::Pending, Poll::Pending) => true,
                _ => false,
            },
    {
        let give_up = self.cancellable && cancelled;
        match ring.try_write_at(self.max_len) {
            Ok((start, take)) => {
                if take < self.min_len {
                    if give_up {
                        self.park.deregister(ring);
                        return Poll::Ready(Err(TxError::Stuffed(0)));
                    }
                    let parked = self.park.poll(ring, waker, self.min_len);
                    assert(parked is Pending);
                    return Poll::Pending;
                }
                self.park.deregister(ring);
                Poll::Ready(Ok(ring.write_segm(start, take)))
            },
            Err(TxError::Stuffed(_)) => {
                if give_up {
                    self.park.deregister(ring);
                    return Poll::Ready(Err(TxError::Stuffed(0)));
                }
                let parked = self.park.poll(ring, waker, self.min_len);
                assert(parked is Pending);
                Poll::Pending
            },
            Err(e) => {
                self.park.deregister(ring);
                Poll::Ready(Err(e))
            },
        }
    }

    /// Give the future up: it leaves the waker slot.
    pub fn abandon<T>(self, ring: &mut RingBuffer<T>)
        ensures
            final(ring).kept_except(old(ring), self.park().side()),
            final(ring).control().slot(self.park().side()) == self.park().left_slot(old(ring)),
    {
        let mut park = self.park;
        park.deregister(ring);
    }
}

/// A borrow of readable items that was asked for, not started yet.
#[derive(Debug)]
pub struct ReadAsync {
    min_len: usize,
    max_len: usize,
}

impl ReadAsync {
    /// The least number of items.
    pub closed spec fn min_len(&self) -> usize {
        self.min_len
    }

    /// The largest number of items.
    pub closed spec fn max_len(&self) -> usize {
        self.max_len
    }

    /// A borrow of at least `min_len` and at most `max_len` items.
    pub fn new(min_len: usize, max_len: usize) -> (r: Self)
        ensures
            r.min_len() == min_len,
            r.max_len() == max_len,
    {
        ReadAsync { min_len, max_len }
    }

    /// The future of a borrow that cannot be cancelled. `id` is its identity in
    /// the waker slot.
    pub fn into_future(self, id: usize) -> (f: ReadFuture)
        ensures
            f.min_len() == self.min_len(),
            f.max_len() == self.max_len(),
            !f.cancellable(),
            f.fresh(id),
    {
        ReadFuture::new(self.min_len, self.max_len, false, id)
    }

    /// The future of a borrow that gives up once its token is cancelled.
    pub fn may_cancel_with(self, id: usize) -> (f: ReadFuture)
        ensures
            f.min_len() == self.min_len(),
            f.max_len() == self.max_len(),
            f.cancellable(),
            f.fresh(id),
    {
        ReadFuture::new(self.min_len, self.max_len, true, id)
    }
}

/// A borrow of readable items: pending until at least `min_len` items are there. With
/// the rx end closed no more items will come, and it gives what there is.
#[derive(Debug)]
pub struct ReadFuture {
    min_len: usize,
    max_len: usize,
    cancellable: bool,
    park: Park,
}

impl ReadFuture {
    /// The least number of items.
    pub closed spec fn min_len(&self) -> usize {
        self.min_len
    }

    /// The largest number of items.
    pub closed spec fn max_len(&self) -> usize {
        self.max_len
    }

    /// The future gives up once its token is cancelled.
    pub closed spec fn cancellable(&self) -> bool {
        self.cancellable
    }

    /// The place in the waker slot.
    pub closed spec fn park(&self) -> Park {
        self.park
    }

    /// The future waits for the reader's data.
    pub open spec fn wf(&self) -> bool {
        &&& self.park().side() == ParkSide::RxUser
        &&& self.park().condition() == ParkCheck::RxReadableAtLeast
    }

    /// The future was not polled yet.
    pub open spec fn fresh(&self, id: usize) -> bool {
        &&& self.park().waiter() == (super::demand::Waiter { id, waker: None })
        &&& !self.park().registered()
        &&& self.wf()
    }

    /// A poll comes to an answer: a future that asks for more than it takes never
    /// does while there is data enough and the rx end is open.
    pub open spec fn answerable<T>(&self, ring: &RingBuffer<T>, cancelled: bool) -> bool {
        ||| self.min_len() <= self.max_len()
        ||| self.cancellable() && cancelled
        ||| ring.state().rx_closed
        ||| !ParkCheck::RxReadableAtLeast.holds(ring, self.min_len())
    }

    /// The future of a borrow of `min_len` to `max_len` items.
    pub fn new(min_len: usize, max_len: usize, cancellable: bool, id: usize) -> (f: Self)
        ensures
            f.min_len() == min_len,
            f.max_len() == max_len,
            f.cancellable() == cancellable,
            f.fresh(id),
    {
        ReadFuture {
            min_len,
            max_len,
            cancellable,
            park: Park::new(id, ParkSide::RxUser, ParkCheck::RxReadableAtLeast),
        }
    }

    /// Poll the borrow.
    pub fn poll<T>(&mut self, ring: &mut RingBuffer<T>, waker: usize, cancelled: bool) -> (ready: Poll<
        Result<ReclSliceRef, RxError<usize>>,
    >)
        requires
            old(self).wf(),
            old(ring).wf(),
            old(self).park().may_register(old(ring)),
            old(self).answerable(old(ring), cancelled),
        ensures
            final(self).wf(),
            final(self).min_len() == old(self).min_len(),
            final(self).max_len() == old(self).max_len(),
            final(self).cancellable() == old(self).cancellable(),
            parked_as(
                &final(self).park(),
                &old(self).park(),
                final(ring),
                old(ring),
                ready is Pending,
                waker,
            ),
            match (
                ready,
                read_outcome(
                    old(ring),
                    old(self).min_len(),
                    old(self).max_len(),
                    old(self).cancellable() && cancelled,
                ),
            ) {
                (Poll::Ready(Ok(segm)), Poll::Ready(Ok((start, take)))) => {
                    &&& segm.start() == start
                    &&& segm.take() == take
                    &&& segm.offset() == 0
                    &&& !segm.is_peek()
                    &&& segm.claims(final(ring))
                },
                (Poll::Ready(Err(e)), Poll::Ready(Err(f))) => e == f,
                (Poll::Pending, Poll::Pending) => true,
                _ => false,
            },
    {
        let give_up = self.cancellable && cancelled;
        match ring.try_read_at(self.max_len) {
            Ok((start, take)) => {
                if take < self.min_len {
                    if ring.is_rx_closed() {
                        self.park.deregister(ring);
                        return Poll::Ready(Ok(ring.read_segm(start, take)));
                    }
                    if give_up {
                        self.park.deregister(ring);
                        return Poll::Ready(Err(RxError::Drained(0)));
                    }
                    let parked = self.park.poll(ring, waker, self.min_len);
                    assert(parked is Pending);
                    return Poll::Pending;
                }
                self.park.deregister(ring);
                Poll::Ready(Ok(ring.read_segm(start, take)))
            },
            Err(RxError::Drained(_)) => {
                if give_up {
                    self.park.deregister(ring);
                    return Poll::Ready(Err(RxError::Drained(0)));
                }
                let parked = self.park.poll(ring, waker, self.min_len);
                assert(parked is Pending);
                Poll::Pending
            },
            Err(e) => {
                self.park.deregister(ring);
                Poll::Ready(Err(e))
            },
        }
    }

    /// Give the future up: it leaves the waker slot.
    pub fn abandon<T>(self, ring: &mut RingBuffer<T>)
        ensures
            final(ring).kept_except(old(ring), self.park().side()),
            final(ring).control().slot(self.park().side()) == self.park().left_slot(old(ring)),
    {
        let mut park = self.park;
        park.deregister(ring);
    }
}

/// A look at the readable items that was asked for, not started yet.
#[derive(Debug)]
pub struct PeekAsync {}

impl PeekAsync {
    /// A look at all readable items.
    pub fn new() -> (p: Self)
        ensures
            p == (PeekAsync {  }),
    {
        PeekAsync {  }
    }

    /// The future of a look that cannot be cancelled. `id` is its identity in the
    /// waker slot.
    pub fn into_future(self, id: usize) -> (f: PeekFuture)
        ensures
            !f.cancellable(),
            f.fresh(id),
    {
        PeekFuture::new(false, id)
    }

    /// The future of a look that gives up once its token is cancelled.
    pub fn may_cancel_with(self, id: usize) -> (f: PeekFuture)
        ensures
            f.cancellable(),
            f.fresh(id),
    {
        PeekFuture::new(true, id)
    }
}

/// A look at the readable items: pending until there are some.
#[derive(Debug)]
pub struct PeekFuture {
    cancellable: bool,
    park: Park,
}

impl PeekFuture {
    /// The future gives up once its token is cancelled.
    pub closed spec fn cancellable(&self) -> bool {
        self.cancellable
    }

    /// The place in the waker slot.
    pub closed spec fn park(&self) -> Park {
        self.park
    }

    /// The future waits for the reader's data.
    pub open spec fn wf(&self) -> bool {
        &&& self.park().side() == ParkSide::RxUser
        &&& self.park().condition() == ParkCheck::RxPeekable
    }

    /// The future was not polled yet.
    pub open spec fn fresh(&self, id: usize) -> bool {
        &&& self.park().waiter() == (super::demand::Waiter { id, waker: None })
        &&& !self.park().registered()
        &&& self.wf()
    }

    /// The future of a look at all readable items.
    pub fn new(cancellable: bool, id: usize) -> (f: Self)
        ensures
            f.cancellable() == cancellable,
            f.fresh(id),
    {
        PeekFuture { cancellable, park: Park::new(id, ParkSide::RxUser, ParkCheck::RxPeekable) }
    }

    /// Poll the look.
    pub fn poll<T>(&mut self, ring: &mut RingBuffer<T>, waker: usize, cancelled: bool) -> (ready: Poll<
        Result<ReclPeekRef, RxError<usize>>,
    >)
        requires
            old(self).wf(),
            old(ring).wf(),
            old(self).park().may_register(old(ring)),
        ensures
            final(self).wf(),
            final(self).cancellable() == old(self).cancellable(),
            parked_as(
                &final(self).park(),
                &old(self).park(),
                final(ring),
                old(ring),
                ready is Pending,
                waker,
            ),
            match (
                ready,
                read_outcome(old(ring), 0, usize::MAX, old(self).cancellable() && cancelled),
            ) {
                (Poll::Ready(Ok(segm)), Poll::Ready(Ok((start, take)))) => {
                    &&& segm.start() == start
                    &&& segm.take() == take
                    &&& segm.offset() == 0
                    &&& segm.is_peek()
                    &&& segm.claims(final(ring))
                },
                (Poll::Ready(Err(e)), Poll::Ready(Err(f))) => e == f,
                (Poll::Pending, Poll::Pending) => true,
                _ => false,
            },
    {
        let give_up = self.cancellable && cancelled;
        match ring.try_peek_at() {
            Ok((start, take)) => {
                self.park.deregister(ring);
                Poll::Ready(Ok(ring.peek_segm(start, take)))
            },
            Err(RxError::Drained(_)) => {
                if give_up {
                    self.park.deregister(ring);
                    return Poll::Ready(Err(RxError::Drained(0)));
                }
                let parked = self.park.poll(ring, waker, 0);
                assert(parked is Pending);
                Poll::Pending
            },
            Err(e) => {
                self.park.deregister(ring);
                Poll::Ready(Err(e))
            },
        }
    }

    /// Give the future up: it leaves the waker slot.
    pub fn abandon<T>(self, ring: &mut RingBuffer<T>)
        ensures
            final(ring).kept_except(old(ring), self.park().side()),
            final(ring).control().slot(self.park().side()) == self.park().left_slot(old(ring)),
    {
        let mut park = self.park;
        park.deregister(ring);
    }
}

/// A wait for a condition of the ring.
#[derive(Debug)]
pub struct ParkFuture {
    park: Park,
    arg: usize,
}

impl ParkFuture {
    /// The place in the waker slot.
    pub closed spec fn park(&self) -> Park {
        self.park
    }

    /// The argument of the condition.
    pub closed spec fn arg(&self) -> usize {
        self.arg
    }

    /// A wait on `side` for `check` with the argument `arg`.
    pub fn new(id: usize, side: ParkSide, check: ParkCheck, arg: usize) -> (f: Self)
        ensures
            f.park().waiter() == (super::demand::Waiter { id, waker: None }),
            !f.park().registered(),
            f.park().side() == side,
            f.park().condition() == check,
            f.arg() == arg,
    {
        ParkFuture { park: Park::new(id, side, check), arg }
    }

    /// Poll the wait.
    pub fn poll<T>(&mut self, ring: &mut RingBuffer<T>, waker: usize) -> (ready: Poll<()>)
        requires
            old(ring).wf(),
            old(self).park().may_register(old(ring)),
        ensures
            final(self).arg() == old(self).arg(),
            ready is Ready <==> old(self).park().condition().holds(old(ring), old(self).arg()),
            parked_as(
                &final(self).park(),
                &old(self).park(),
                final(ring),
                old(ring),
                ready is Pending,
                waker,
            ),
    {
        self.park.poll(ring, waker, self.arg)
    }

    /// Give the wait up: it leaves the waker slot.
    pub fn abandon<T>(self, ring: &mut RingBuffer<T>)
        ensures
            final(ring).kept_except(old(ring), self.park().side()),
            final(ring).control().slot(self.park().side()) == self.park().left_slot(old(ring)),
    {
        let mut park = self.park;
        park.deregister(ring);
    }
}

/// Waits until items are available for a kernel write, or the tx end is closed.
#[derive(Debug)]
pub struct WaitFlushed(ParkFuture);

impl WaitFlushed {
    /// The underlying wait.
    pub closed spec fn wait(&self) -> ParkFuture {
        self.0
    }

    /// The wait of the sending runtime.
    pub fn new(id: usize) -> (w: Self)
        ensures
            w.wait().park().waiter() == (super::demand::Waiter { id, waker: None }),
            !w.wait().park().registered(),
            w.wait().park().side() == ParkSide::TxRuntime,
            w.wait().park().condition() == ParkCheck::TxFlushed,
            w.wait().arg() == 0,
    {
        WaitFlushed(ParkFuture::new(id, ParkSide::TxRuntime, ParkCheck::TxFlushed, 0))
    }

    /// The future of the wait.
    pub fn into_future(self) -> (f: ParkFuture)
        ensures
            f == self.wait(),
    {
        self.0
    }
}

/// Waits until slots are available for a kernel read, or the rx end is closed.
#[derive(Debug)]
pub struct WaitRxIdle(ParkFuture);

impl WaitRxIdle {
    /// The underlying wait.
    pub closed spec fn wait(&self) -> ParkFuture {
        self.0
    }

    /// The wait of the receiving runtime.
    pub fn new(id: usize) -> (w: Self)
        ensures
            w.wait().park().waiter() == (super::demand::Waiter { id, waker: None }),
            !w.wait().park().registered(),
            w.wait().park().side() == ParkSide::RxRuntime,
            w.wait().park().condition() == ParkCheck::RxIdle,
            w.wait().arg() == 0,
    {
        WaitRxIdle(ParkFuture::new(id, ParkSide::RxRuntime, ParkCheck::RxIdle, 0))
    }

    /// The future of the wait.
    pub fn into_future(self) -> (f: ParkFuture)
        ensures
            f == self.wait(),
    {
        self.0
    }
}

/// Waits until slots are available for the user writer, or the tx end is closed.
#[derive(Debug)]
pub struct WaitTxIdle(ParkFuture);

impl WaitTxIdle {
    /// The underlying wait.
    pub closed spec fn wait(&self) -> ParkFuture {
        self.0
    }

    /// The wait of the user writer.
    pub fn new(id: usize) -> (w: Self)
        ensures
            w.wait().park().waiter() == (super::demand::Waiter { id, waker: None }),
            !w.wait().park().registered(),
            w.wait().park().side() == ParkSide::TxUser,
            w.wait().park().condition() == ParkCheck::TxIdle,
            w.wait().arg() == 1,
    {
        WaitTxIdle(ParkFuture::new(id, ParkSide::TxUser, ParkCheck::TxIdle, 1))
    }

    /// The future of the wait.
    pub fn into_future(self) -> (f: ParkFuture)
        ensures
            f == self.wait(),
    {
        self.0
    }
}

} // verus!
