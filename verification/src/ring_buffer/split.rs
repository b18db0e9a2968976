//! Splitting a ring into its two halves.
//!
//! A split hands out one producer and one consumer. A ring behind a shared handle
//! is split only while its caller holds the sole reference: another clone of the
//! handle could otherwise be split into a second pair.

use vstd::prelude::*;

use super::futures::{WaitFlushed, WaitRxIdle};
use super::ring::RingBuffer;
use super::rx::RingRx;
use super::tx::RingTx;

verus! {

impl<T> RingBuffer<T> {
    /// Split the ring behind the handle `ring_buff`. `strong_count` and `weak_count`
    /// give the numbers of strong and weak references to the ring; the split succeeds
    /// iff they are one and zero, and the handle comes back otherwise.
    pub fn try_split_shared<S: Clone>(
        ring_buff: S,
        strong_count: impl Fn(&S) -> usize,
        weak_count: impl Fn(&S) -> usize,
    ) -> (halves: Result<(RingTx<S>, RingRx<S>), S>)
        requires
            call_requires(strong_count, (&ring_buff,)),
            call_requires(weak_count, (&ring_buff,)),
        ensures
            match halves {
                Ok((tx, rx)) => {
                    &&& call_ensures(strong_count, (&ring_buff,), 1)
                    &&& call_ensures(weak_count, (&ring_buff,), 0)
                    &&& cloned(ring_buff, tx.handle())
                    &&& tx.parked() == (super::demand::Waiter { id: 0, waker: None })
                    &&& rx.handle() == ring_buff
                    &&& rx.parked() == (super::demand::Waiter { id: 0, waker: None })
                },
                Err(handle) => {
                    &&& handle == ring_buff
                    &&& (exists|n: usize| n != 1 && call_ensures(strong_count, (&ring_buff,), n))
                        || (exists|n: usize| n != 0 && call_ensures(weak_count, (&ring_buff,), n))
                },
            },
    {
        let strong: usize = strong_count(&ring_buff);
        if strong == 1 {
            let weak: usize = weak_count(&ring_buff);
            if weak == 0 {
                return Ok((RingTx::new(ring_buff.clone()), RingRx::new(ring_buff)));
            }
        }
        Err(ring_buff)
    }

    /// Split off only the write half.
    pub fn try_split_shared_tx<S>(ring_buff: S, strong_count: impl Fn(&S) -> usize) -> (half: Result<
        RingTx<S>,
        S,
    >)
        requires
            call_requires(strong_count, (&ring_buff,)),
        ensures
            match half {
                Ok(tx) => {
                    &&& call_ensures(strong_count, (&ring_buff,), 1)
                    &&& tx.handle() == ring_buff
                    &&& tx.parked() == (super::demand::Waiter { id: 0, waker: None })
                },
                Err(handle) => {
                    &&& handle == ring_buff
                    &&& exists|n: usize| n != 1 && call_ensures(strong_count, (&ring_buff,), n)
                },
            },
    {
        let strong: usize = strong_count(&ring_buff);
        if strong == 1 {
            Ok(RingTx::new(ring_buff))
        } else {
            Err(ring_buff)
        }
    }

    /// Split off only the read half.
    pub fn try_split_shared_rx<S>(ring_buff: S, strong_count: impl Fn(&S) -> usize) -> (half: Result<
        RingRx<S>,
        S,
    >)
        requires
            call_requires(strong_count, (&ring_buff,)),
        ensures
            match half {
                Ok(rx) => {
                    &&& call_ensures(strong_count, (&ring_buff,), 1)
                    &&& rx.handle() == ring_buff
                    &&& rx.parked() == (super::demand::Waiter { id: 0, waker: None })
                },
                Err(handle) => {
                    &&& handle == ring_buff
                    &&& exists|n: usize| n != 1 && call_ensures(strong_count, (&ring_buff,), n)
                },
            },
    {
        let strong: usize = strong_count(&ring_buff);
        if strong == 1 {
            Ok(RingRx::new(ring_buff))
        } else {
            Err(ring_buff)
        }
    }

    /// The two halves of a ring that its owner lends to each call.
    pub fn split(&mut self) -> (halves: (RingTx<()>, RingRx<()>))
        ensures
            *final(self) == *old(self),
            halves.0.handle() == (),
            halves.0.parked() == (super::demand::Waiter { id: 0, waker: None }),
            halves.1.handle() == (),
            halves.1.parked() == (super::demand::Waiter { id: 0, waker: None }),
    {
        (RingTx::new(()), RingRx::new(()))
    }

    /// The write half of a ring that its owner lends to each call.
    pub fn split_tx(&mut self) -> (tx: RingTx<()>)
        ensures
            *final(self) == *old(self),
            tx.handle() == (),
            tx.parked() == (super::demand::Waiter { id: 0, waker: None }),
    {
        RingTx::new(())
    }

    /// The read half of a ring that its owner lends to each call.
    pub fn split_rx(&mut self) -> (rx: RingRx<()>)
        ensures
            *final(self) == *old(self),
            rx.handle() == (),
            rx.parked() == (super::demand::Waiter { id: 0, waker: None }),
    {
        RingRx::new(())
    }

    /// Wait until items are available for a kernel write, or the tx end is closed.
    pub fn wait_flushed(&self, id: usize) -> (w: WaitFlushed)
        ensures
            w.wait().park().waiter() == (super::demand::Waiter { id, waker: None }),
            !w.wait().park().registered(),
            w.wait().park().side() == super::demand::ParkSide::TxRuntime,
            w.wait().park().condition() == super::park::ParkCheck::TxFlushed,
            w.wait().arg() == 0,
    {
        WaitFlushed::new(id)
    }

    /// Wait until slots are available for a kernel read, or the rx end is closed.
    pub fn wait_rx_idle(&self, id: usize) -> (w: WaitRxIdle)
        ensures
            w.wait().park().waiter() == (super::demand::Waiter { id, waker: None }),
            !w.wait().park().registered(),
            w.wait().park().side() == super::demand::ParkSide::RxRuntime,
            w.wait().park().condition() == super::park::ParkCheck::RxIdle,
            w.wait().arg() == 0,
    {
        WaitRxIdle::new(id)
    }
}

} // verus!
