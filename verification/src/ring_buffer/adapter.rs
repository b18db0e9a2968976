//! Byte streams over the halves.
//!
//! Each step copies the part of a region that lies before the end of the buffer;
//! what wraps around is left to the next step. A step that can do nothing says what
//! to wait for.

use vstd::prelude::*;

use super::demand::{ParkSide, Waiter, Woken};
use super::errors::{RxError, TxError};
use super::park::{ParkCheck, Poll};
use super::ring::RingBuffer;
use super::rx::RingRx;
use super::tx::RingTx;

verus! {

/// The tx end is closed and the ring takes nothing more.
#[derive(Debug, Clone, Copy, PartialEq, Eq, Structural)]
pub struct BrokenPipe;

/// The outcome of a step of a stream read.
#[derive(Debug, PartialEq, Eq)]
pub enum ReadStep {
    /// This many bytes were read; the wakers have to be called.
    Moved(usize, Woken),
    /// There will be no more bytes.
    Eof,
    /// Wait on the side for the condition with the argument, and try again.
    Wait(ParkSide, ParkCheck, usize),
}

/// The outcome of a step of a stream write.
#[derive(Debug, PartialEq, Eq)]
pub enum WriteStep {
    /// This many bytes were written; the wakers have to be called.
    Moved(usize, Woken),
    /// There was nothing to write.
    Nothing,
    /// The tx end is closed.
    Broken(BrokenPipe),
    /// Wait on the side for the condition with the argument, and try again.
    Wait(ParkSide, ParkCheck, usize),
}

/// How many of at most `wanted` bytes one read step takes from `ring`.
pub open spec fn read_prefix(ring: &RingBuffer<u8>, wanted: int) -> int {
    super::region::min_of(
        super::region::min_of(wanted, ring.data()),
        ring.cap() - ring.state().rp,
    )
}

/// How many of `offered` bytes one write step puts into `ring`.
pub open spec fn write_prefix(ring: &RingBuffer<u8>, offered: int) -> int {
    super::region::min_of(
        super::region::min_of(offered, ring.free()),
        ring.cap() - ring.state().wp,
    )
}

/// The first `count` bytes of `before` were moved to the front of `dst`.
pub open spec fn bytes_read(
    after: &RingBuffer<u8>,
    before: &RingBuffer<u8>,
    dst_after: Seq<u8>,
    dst_before: Seq<u8>,
    count: int,
) -> bool {
    &&& after.wf()
    &&& after.buf() == before.buf()
    &&& after.state() == before.state().after_read(before.cap(), count)
    &&& after.contents() == before.contents().skip(count)
    &&& after.control().quiet()
    &&& dst_after == before.contents().take(count) + dst_before.skip(count)
}

/// The first `count` bytes of `src` were appended to `before`.
pub open spec fn bytes_written(
    after: &RingBuffer<u8>,
    before: &RingBuffer<u8>,
    src: Seq<u8>,
    count: int,
) -> bool {
    &&& after.wf()
    &&& after.buf() == super::region::overlaid(before.buf(), before.state().wp, src.take(count))
    &&& after.state() == before.state().after_write(before.cap(), count)
    &&& after.contents() == before.contents() + src.take(count)
    &&& after.control().quiet()
}

fn take_prefix(ring: &mut RingBuffer<u8>, start: usize, take: usize, dst: &mut [u8]) -> (moved: (
    usize,
    Woken,
))
    requires
        old(ring).wf(),
        start == old(ring).state().rp,
        take <= old(ring).data(),
        take <= old(dst)@.len(),
    ensures
        moved.0 == super::region::min_of(take as int, old(ring).cap() - start),
        bytes_read(final(ring), old(ring), final(dst)@, old(dst)@, moved.0 as int),
        moved.1 == old(ring).control().wakers(),
{
    let room: usize = ring.capacity() - start;
    let first: usize = if take <= room {
        take
    } else {
        room
    };
    proof {
        super::arith::distance(ring.state().wp - ring.state().rp, ring.cap());
        super::region::region_split(
            ring.buf(),
            start as int,
            first as int,
            ring.data() - first,
        );
        assert(ring.contents().take(first as int) =~= super::region::region(
            ring.buf(),
            start as int,
            first as int,
        ));
    }
    ring.copy_out_(start, dst, first);
    let woken = ring.advance_read(first);
    (first, woken)
}

fn put_prefix(ring: &mut RingBuffer<u8>, start: usize, take: usize, src: &[u8]) -> (moved: (
    usize,
    Woken,
))
    requires
        old(ring).wf(),
        start == old(ring).state().wp,
        take <= old(ring).free(),
        take <= src@.len(),
    ensures
        moved.0 == super::region::min_of(take as int, old(ring).cap() - start),
        bytes_written(final(ring), old(ring), src@, moved.0 as int),
        moved.1 == old(ring).control().wakers(),
{
    let room: usize = ring.capacity() - start;
    let first: usize = if take <= room {
        take
    } else {
        room
    };
    let ghost before = *ring;
    ring.copy_in_(start, src, first);
    proof {
        let items = src@.take(first as int);
        let cap = before.cap();
        let rp = before.state().rp;
        super::arith::distance(before.state().wp - rp, cap);
        super::arith::one_turn(rp + before.data(), cap);
        if first > 0 {
            super::region::region_kept(before.buf(), rp, before.data(), before.data(), items);
        } else {
            super::region::overlaid_nothing(before.buf(), start as int, items);
        }
        super::region::region_stored(before.buf(), start as int, items);
    }
    let woken = ring.advance_write(first);
    (first, woken)
}

impl<H> RingRx<H> {
    /// Read some bytes into `dst`: what is there, else the end of the stream once the
    /// rx end is closed, else wait.
    pub fn read(&mut self, ring: &mut RingBuffer<u8>, dst: &mut [u8]) -> (step: ReadStep)
        requires
            old(ring).wf(),
        ensures
            *final(self) == *old(self),
            if old(dst)@.len() > 0 && old(ring).state().readable(old(ring).cap()) {
                let count = read_prefix(old(ring), old(dst)@.len() as int);
                &&& step == ReadStep::Moved(count as usize, old(ring).control().wakers())
                &&& bytes_read(final(ring), old(ring), final(dst)@, old(dst)@, count)
            } else {
                &&& *final(ring) == *old(ring)
                &&& final(dst)@ == old(dst)@
                &&& step == (if old(ring).state().rx_closed {
                    ReadStep::Eof
                } else {
                    ReadStep::Wait(
                        ParkSide::RxUser,
                        ParkCheck::RxReadable,
                        old(dst)@.len() as usize,
                    )
                })
            },
    {
        let wanted: usize = dst.len();
        if wanted > 0 {
            if let Ok((start, take)) = ring.try_read_at(wanted) {
                let (first, woken) = take_prefix(ring, start, take, dst);
                return ReadStep::Moved(first, woken);
            }
        }
        if ring.is_rx_closed() {
            return ReadStep::Eof;
        }
        ReadStep::Wait(ParkSide::RxUser, ParkCheck::RxReadable, wanted)
    }

    /// Read some bytes into `dst`, or park the half under `waker`. `Ready(None)` is the
    /// end of the stream.
    pub fn poll_read(&mut self, ring: &mut RingBuffer<u8>, waker: usize, dst: &mut [u8]) -> (ready:
        Poll<Option<(usize, Woken)>>)
        requires
            old(ring).wf(),
            old(ring).control().slot(ParkSide::RxUser) matches Some(cur) ==> cur.id == old(
                self,
            ).parked().id,
        ensures
            final(self).handle() == old(self).handle(),
            final(self).parked().id == old(self).parked().id,
            match old(ring).read_offer(old(dst)@.len() as usize) {
                Ok(_) => {
                    let count = read_prefix(old(ring), old(dst)@.len() as int);
                    &&& ready == Poll::Ready(
                        Some((count as usize, old(ring).control().wakers())),
                    )
                    &&& bytes_read(final(ring), old(ring), final(dst)@, old(dst)@, count)
                    &&& *final(self) == *old(self)
                },
                Err(RxError::Drained(_)) => {
                    &&& ready is Pending
                    &&& final(dst)@ == old(dst)@
                    &&& final(self).parked().waker == Some(waker)
                    &&& final(ring).kept_except(old(ring), ParkSide::RxUser)
                    &&& final(ring).control().slot(ParkSide::RxUser) == Some(final(self).parked())
                },
                Err(_) => {
                    &&& ready == Poll::Ready(None::<(usize, Woken)>)
                    &&& *final(self) == *old(self)
                    &&& final(dst)@ == old(dst)@
                    &&& *final(ring) == *old(ring)
                },
            },
    {
        match ring.try_read_at(dst.len()) {
            Ok((start, take)) => {
                let (first, woken) = take_prefix(ring, start, take, dst);
                Poll::Ready(Some((first, woken)))
            },
            Err(RxError::Drained(_)) => {
                self.park_(waker);
                let waiter: Waiter = self.waiter_();
                ring.register(ParkSide::RxUser, &waiter);
                Poll::Pending
            },
            Err(_) => Poll::Ready(None),
        }
    }
}

impl<H> RingTx<H> {
    /// Write some bytes of `src`: what there is room for, else fail once the tx end is
    /// closed, else wait.
    pub fn write(&mut self, ring: &mut RingBuffer<u8>, src: &[u8]) -> (step: WriteStep)
        requires
            old(ring).wf(),
        ensures
            *final(self) == *old(self),
            if src@.len() == 0 {
                &&& step == WriteStep::Nothing
                &&& *final(ring) == *old(ring)
            } else {
                match old(ring).write_offer(src@.len() as usize) {
                    Ok(_) => {
                        let count = write_prefix(old(ring), src@.len() as int);
                        &&& step == WriteStep::Moved(
                            count as usize,
                            old(ring).control().wakers(),
                        )
                        &&& bytes_written(final(ring), old(ring), src@, count)
                    },
                    Err(TxError::Stuffed(_)) => {
                        &&& step == WriteStep::Wait(
                            ParkSide::TxUser,
                            ParkCheck::TxWritable,
                            src@.len() as usize,
                        )
                        &&& *final(ring) == *old(ring)
                    },
                    Err(_) => {
                        &&& step == WriteStep::Broken(BrokenPipe)
                        &&& *final(ring) == *old(ring)
                    },
                }
            },
    {
        let offered: usize = src.len();
        if offered == 0 {
            return WriteStep::Nothing;
        }
        match ring.try_write_at(offered) {
            Ok((start, take)) => {
                let (first, woken) = put_prefix(ring, start, take, src);
                WriteStep::Moved(first, woken)
            },
            Err(TxError::Stuffed(_)) => {
                if ring.is_tx_closed() {
                    return WriteStep::Broken(BrokenPipe);
                }
                WriteStep::Wait(ParkSide::TxUser, ParkCheck::TxWritable, offered)
            },
            Err(_) => WriteStep::Broken(BrokenPipe),
        }
    }

    /// Nothing is held back: written bytes are visible to the reader at once.
    pub fn flush(&mut self) -> (done: Result<(), BrokenPipe>)
        ensures
            *final(self) == *old(self),
            done == Ok::<(), BrokenPipe>(()),
    {
        Ok(())
    }

    /// Close the tx end.
    pub fn shutdown(&mut self, ring: &mut RingBuffer<u8>) -> (woken: Woken)
        ensures
            *final(self) == *old(self),
            final(ring).buf() == old(ring).buf(),
            final(ring).state() == (super::word::RingState { tx_closed: true, ..old(ring).state() }),
            final(ring).control().quiet(),
            woken == old(ring).control().wakers(),
    {
        self.close(ring)
    }

    /// Write some bytes of `src`, or park the half under `waker`.
    pub fn poll_write(&mut self, ring: &mut RingBuffer<u8>, waker: usize, src: &[u8]) -> (ready: Poll<
        Result<(usize, Woken), BrokenPipe>,
    >)
        requires
            old(ring).wf(),
            old(ring).control().slot(ParkSide::TxUser) matches Some(cur) ==> cur.id == old(
                self,
            ).parked().id,
        ensures
            final(self).handle() == old(self).handle(),
            final(self).parked().id == old(self).parked().id,
            match old(ring).write_offer(src@.len() as usize) {
                Ok(_) => {
                    let count = write_prefix(old(ring), src@.len() as int);
                    &&& ready == Poll::Ready(
                        Ok::<(usize, Woken), BrokenPipe>(
                            (count as usize, old(ring).control().wakers()),
                        ),
                    )
                    &&& bytes_written(final(ring), old(ring), src@, count)
                    &&& *final(self) == *old(self)
                },
                Err(TxError::Stuffed(_)) => {
                    &&& ready is Pending
                    &&& final(self).parked().waker == Some(waker)
                    &&& final(ring).kept_except(old(ring), ParkSide::TxUser)
                    &&& final(ring).control().slot(ParkSide::TxUser) == Some(final(self).parked())
                },
                Err(_) => {
                    &&& ready == Poll::Ready(Err::<(usize, Woken), BrokenPipe>(BrokenPipe))
                    &&& *final(self) == *old(self)
                    &&& *final(ring) == *old(ring)
                },
            },
    {
        match ring.try_write_at(src.len()) {
            Ok((start, take)) => {
                let (first, woken) = put_prefix(ring, start, take, src);
                Poll::Ready(Ok((first, woken)))
            },
            Err(TxError::Stuffed(_)) => {
                self.park_(waker);
                let waiter: Waiter = self.waiter_();
                ring.register(ParkSide::TxUser, &waiter);
                Poll::Pending
            },
            Err(_) => Poll::Ready(Err(BrokenPipe)),
        }
    }

    /// Like [`RingTx::flush`], polled.
    pub fn poll_flush(&mut self) -> (ready: Poll<Result<(), BrokenPipe>>)
        ensures
            *final(self) == *old(self),
            ready == Poll::Ready(Ok::<(), BrokenPipe>(())),
    {
        Poll::Ready(Ok(()))
    }

    /// Like [`RingTx::shutdown`], polled.
    pub fn poll_shutdown(&mut self, ring: &mut RingBuffer<u8>) -> (ready: Poll<Woken>)
        ensures
            *final(self) == *old(self),
            final(ring).buf() == old(ring).buf(),
            final(ring).state() == (super::word::RingState { tx_closed: true, ..old(ring).state() }),
            final(ring).control().quiet(),
            ready == Poll::Ready(old(ring).control().wakers()),
    {
        Poll::Ready(self.close(ring))
    }
}

} // verus!
