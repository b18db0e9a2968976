//! A byte stream with a ring in each direction.
//!
//! A flush task moves the bytes of the write ring to a socket and a fill task moves
//! the bytes of a socket to the read ring. Each task alternates between a decision,
//! taken here, and an operation on the socket, done by its driver: `*_next` says what
//! to do, and `*_done` takes the outcome of the operation.

use vstd::prelude::*;

use crate::ring_buffer::demand::Woken;
use crate::ring_buffer::ring::{RecvSlices, RingBuffer, SendSlices};
use crate::ring_buffer::rx::RingRx;
use crate::ring_buffer::tx::RingTx;

pub mod laws;

verus! {

/// What the flush task does next.
#[derive(Debug)]
pub enum FlushStep<'a> {
    /// Write the two slices to the socket and report the outcome.
    Submit(SendSlices<'a, u8>),
    /// Wait for bytes to send or for the tx end to close.
    Wait,
    /// Everything was sent and the tx end is closed.
    Stop,
}

/// What the fill task does next.
#[derive(Debug)]
pub enum FillStep<'a> {
    /// Read from the socket as much as the two slices hold and report the outcome.
    Submit(RecvSlices<'a, u8>),
    /// Wait for room or for the rx end to close.
    Wait,
    /// The rx end is closed.
    Stop,
}

/// Whether a task goes on after an operation.
#[derive(Debug, PartialEq, Eq)]
pub enum TaskFlow<E> {
    /// Decide what to do next.
    Continue,
    /// The task is over.
    Stop,
    /// The task is over, and this is the error to report.
    Failed(E),
}

/// Decide the next step of the flush task of `ring`.
pub fn flush_next(ring: &mut RingBuffer<u8>) -> (step: FlushStep<'_>)
    requires
        old(ring).wf(),
    ensures
        match step {
            FlushStep::Submit(s) => {
                &&& old(ring).state().readable(old(ring).cap())
                &&& s.0@.len() == crate::ring_buffer::region::min_of(
                    old(ring).data(),
                    old(ring).cap() - old(ring).state().rp,
                )
                &&& s.0@ + s.1@ == old(ring).contents()
                &&& final(ring).wf()
                &&& final(ring).buf() == old(ring).buf()
                &&& final(ring).state() == (crate::ring_buffer::word::RingState {
                    sending: true,
                    ..old(ring).state()
                })
                &&& final(ring).control().same_slots(&old(ring).control())
            },
            FlushStep::Wait => {
                &&& !old(ring).state().readable(old(ring).cap())
                &&& !old(ring).state().tx_closed
                &&& *final(ring) == *old(ring)
            },
            FlushStep::Stop => {
                &&& !old(ring).state().readable(old(ring).cap())
                &&& old(ring).state().tx_closed
                &&& *final(ring) == *old(ring)
            },
        },
{
    if !ring.has_tx_data() {
        if ring.is_tx_closed() {
            return FlushStep::Stop;
        }
        return FlushStep::Wait;
    }
    match ring.take_send_iovecs() {
        Some(slices) => FlushStep::Submit(slices),
        None => FlushStep::Wait,
    }
}

/// Take the outcome of a write to the socket: what was written leaves the ring. A
/// failure returns the region, closes the tx end and ends the task with the error.
pub fn flush_done<E>(ring: &mut RingBuffer<u8>, outcome: Result<usize, E>) -> (after: (
    TaskFlow<E>,
    Woken,
))
    requires
        old(ring).wf(),
        old(ring).state().sending,
        outcome matches Ok(n) ==> n <= old(ring).data(),
    ensures
        final(ring).wf(),
        final(ring).buf() == old(ring).buf(),
        final(ring).control().quiet(),
        after.1 == old(ring).control().wakers(),
        match outcome {
            Ok(n) => {
                &&& after.0 == TaskFlow::<E>::Continue
                &&& final(ring).contents() == old(ring).contents().skip(n as int)
                &&& final(ring).state() == (crate::ring_buffer::word::RingState {
                    sending: false,
                    ..old(ring).state().after_read(old(ring).cap(), n as int)
                })
            },
            Err(e) => {
                &&& after.0 == TaskFlow::Failed(e)
                &&& final(ring).contents() == old(ring).contents()
                &&& final(ring).state() == (crate::ring_buffer::word::RingState {
                    sending: false,
                    tx_closed: true,
                    ..old(ring).state()
                })
            },
        },
{
    match outcome {
        Ok(n) => {
            let woken = ring.put_back_send(n);
            (TaskFlow::Continue, woken)
        },
        Err(e) => {
            proof {
                crate::ring_buffer::arith::one_turn(ring.state().rp, ring.cap());
                assert(ring.contents().skip(0) =~= ring.contents());
            }
            let woken = ring.put_back_send(0);
            let _ = ring.close_tx();
            (TaskFlow::Failed(e), woken)
        },
    }
}

/// Decide the next step of the fill task of `ring`.
pub fn fill_next(ring: &mut RingBuffer<u8>) -> (step: FillStep<'_>)
    requires
        old(ring).wf(),
    ensures
        match step {
            FillStep::Submit(s) => {
                &&& old(ring).state().writable(old(ring).cap())
                &&& s.0@.len() == crate::ring_buffer::region::min_of(
                    old(ring).free(),
                    old(ring).cap() - old(ring).state().wp,
                )
                &&& s.0@ + s.1@ == crate::ring_buffer::region::region(
                    old(ring).buf(),
                    old(ring).state().wp,
                    old(ring).free(),
                )
                &&& final(s.0)@.len() == s.0@.len() && final(s.1)@.len() == s.1@.len()
                    ==> final(ring).buf() == crate::ring_buffer::region::overlaid(
                    old(ring).buf(),
                    old(ring).state().wp,
                    final(s.0)@ + final(s.1)@,
                )
                &&& final(ring).state() == (crate::ring_buffer::word::RingState {
                    receiving: true,
                    ..old(ring).state()
                })
                &&& final(ring).control().same_slots(&old(ring).control())
            },
            FillStep::Wait => {
                &&& !old(ring).state().writable(old(ring).cap())
                &&& !old(ring).state().rx_closed
                &&& *final(ring) == *old(ring)
            },
            FillStep::Stop => {
                &&& !old(ring).state().writable(old(ring).cap())
                &&& old(ring).state().rx_closed
                &&& *final(ring) == *old(ring)
            },
        },
{
    if !ring.has_recv_space() {
        if ring.is_rx_closed() {
            return FillStep::Stop;
        }
        return FillStep::Wait;
    }
    match ring.take_recv_iovecs() {
        Some(slices) => FillStep::Submit(slices),
        None => FillStep::Wait,
    }
}

/// Take the outcome of a read from the socket into the region: the items that were
/// filled are appended to the ring. No bytes mean that the peer closed the connection;
/// that and a failure return the region and close the rx end, and a failure ends the
/// task with the error.
pub fn fill_done<E>(ring: &mut RingBuffer<u8>, outcome: Result<usize, E>) -> (after: (
    TaskFlow<E>,
    Woken,
))
    requires
        old(ring).wf(),
        old(ring).state().receiving,
        outcome matches Ok(n) ==> n <= old(ring).free(),
    ensures
        final(ring).wf(),
        final(ring).buf() == old(ring).buf(),
        final(ring).control().quiet(),
        after.1 == old(ring).control().wakers(),
        match outcome {
            Ok(n) => {
                &&& after.0 == (if n > 0 {
                    TaskFlow::<E>::Continue
                } else {
                    TaskFlow::<E>::Stop
                })
                &&& final(ring).contents() == old(ring).contents()
                    + crate::ring_buffer::region::region(
                    old(ring).buf(),
                    old(ring).state().wp,
                    n as int,
                )
                &&& final(ring).state() == (crate::ring_buffer::word::RingState {
                    receiving: false,
                    rx_closed: old(ring).state().rx_closed || n == 0,
                    ..old(ring).state().after_write(old(ring).cap(), n as int)
                })
            },
            Err(e) => {
                &&& after.0 == TaskFlow::Failed(e)
                &&& final(ring).contents() == old(ring).contents()
                &&& final(ring).state() == (crate::ring_buffer::word::RingState {
                    receiving: false,
                    rx_closed: true,
                    ..old(ring).state()
                })
            },
        },
{
    let ghost before = *ring;
    proof {
        crate::ring_buffer::arith::distance(
            before.state().wp - before.state().rp,
            before.cap(),
        );
        crate::ring_buffer::arith::one_turn(before.state().wp, before.cap());
        assert(before.contents() + crate::ring_buffer::region::region(
            before.buf(),
            before.state().wp,
            0,
        ) =~= before.contents());
    }
    match outcome {
        Ok(n) => {
            let woken = ring.put_back_recv(n);
            if n == 0 {
                let _ = ring.close_rx();
                return (TaskFlow::Stop, woken);
            }
            (TaskFlow::Continue, woken)
        },
        Err(e) => {
            let woken = ring.put_back_recv(0);
            let _ = ring.close_rx();
            (TaskFlow::Failed(e), woken)
        },
    }
}

/// The two rings of a stream and the halves that its user holds. The other half of
/// each ring is given up at once: the tasks work on the rings themselves.
#[derive(Debug)]
pub struct StreamRings {
    /// The bytes on their way to the socket.
    pub write_ring: RingBuffer<u8>,
    /// The user's half of the write ring.
    pub tx: RingTx<()>,
    /// The bytes that came from the socket.
    pub read_ring: RingBuffer<u8>,
    /// The user's half of the read ring.
    pub rx: RingRx<()>,
}

impl StreamRings {
    /// The rings of a fresh stream; `Err` gives `cap` back when no ring can have that
    /// capacity.
    pub fn try_new(cap: usize) -> (made: Result<Self, usize>)
        ensures
            match made {
                Ok(rings) => {
                    &&& 2 <= cap <= crate::ring_buffer::word::MAX_CAPACITY
                    &&& rings.write_ring.wf() && rings.read_ring.wf()
                    &&& rings.write_ring.buf() == Seq::new(cap as nat, |i: int| 0u8)
                    &&& rings.read_ring.buf() == Seq::new(cap as nat, |i: int| 0u8)
                    &&& rings.write_ring.control().quiet() && rings.read_ring.control().quiet()
                    &&& rings.tx.handle() == () && rings.rx.handle() == ()
                    &&& rings.tx.parked() == (crate::ring_buffer::demand::Waiter { id: 0, waker: None })
                    &&& rings.rx.parked() == (crate::ring_buffer::demand::Waiter { id: 0, waker: None })
                    &&& rings.write_ring.state() == (crate::ring_buffer::word::RingState {
                        rx_closed: true,
                        ..crate::ring_buffer::word::RingState::initial()
                    })
                    &&& rings.read_ring.state() == (crate::ring_buffer::word::RingState {
                        tx_closed: true,
                        ..crate::ring_buffer::word::RingState::initial()
                    })
                },
                Err(len) => {
                    &&& !(2 <= cap <= crate::ring_buffer::word::MAX_CAPACITY)
                    &&& len == cap
                },
            },
    {
        let mut write_ring = match RingBuffer::try_new(vec![0u8; cap]) {
            Ok(ring) => ring,
            Err(len) => return Err(len),
        };
        let mut read_ring = match RingBuffer::try_new(vec![0u8; cap]) {
            Ok(ring) => ring,
            Err(len) => return Err(len),
        };
        let (tx, unused_rx) = write_ring.split();
        let (unused_tx, rx) = read_ring.split();
        let _ = unused_rx.release(&mut write_ring);
        let _ = unused_tx.release(&mut read_ring);
        Ok(StreamRings { write_ring, tx, read_ring, rx })
    }

    /// Close both ends: buffered bytes are still flushed.
    pub fn close(&mut self) -> (woken: (Woken, Woken))
        ensures
            final(self).tx == old(self).tx,
            final(self).rx == old(self).rx,
            final(self).write_ring.control().quiet(),
            final(self).read_ring.control().quiet(),
            final(self).write_ring.buf() == old(self).write_ring.buf(),
            final(self).write_ring.state() == (crate::ring_buffer::word::RingState {
                tx_closed: true,
                ..old(self).write_ring.state()
            }),
            final(self).read_ring.buf() == old(self).read_ring.buf(),
            final(self).read_ring.state() == (crate::ring_buffer::word::RingState {
                rx_closed: true,
                ..old(self).read_ring.state()
            }),
            woken == (
                old(self).write_ring.control().wakers(),
                old(self).read_ring.control().wakers(),
            ),
    {
        let w = self.tx.close(&mut self.write_ring);
        let r = self.rx.close(&mut self.read_ring);
        (w, r)
    }
}

} // verus!
