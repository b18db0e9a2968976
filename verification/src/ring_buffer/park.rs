//! Parking: waiting for a condition of the ring to hold.

use vstd::prelude::*;

use super::demand::{ParkSide, Waiter};
use super::ring::RingBuffer;

verus! {

/// The outcome of polling.
#[derive(Debug, PartialEq, Eq)]
pub enum Poll<T> {
    /// The result is there.
    Ready(T),
    /// The caller is parked and will be woken.
    Pending,
}

/// A condition under which a parked task can go on.
#[derive(Debug, Clone, Copy, PartialEq, Eq, Structural)]
pub enum ParkCheck {
    /// The user writer finds a free slot.
    TxWritable,
    /// The user writer finds a free slot, or the tx end is closed.
    TxIdle,
    /// The user writer finds at least the given number of free slots.
    TxWritableAtLeast,
    /// The user reader finds an item, or the rx end is closed.
    RxReadable,
    /// The user reader finds an item to look at, or the rx end is closed.
    RxPeekable,
    /// The user reader finds at least the given number of items, or the rx end is
    /// closed.
    RxReadableAtLeast,
    /// Items are available for a kernel write, or the tx end is closed.
    TxFlushed,
    /// Slots are available for a kernel read, or the rx end is closed.
    RxIdle,
}

/// `arg`, but at least one.
pub open spec fn one_or_more(arg: usize) -> usize {
    if arg >= 1 {
        arg
    } else {
        1
    }
}

impl ParkCheck {
    /// The condition holds of `ring` with the argument `arg`.
    pub open spec fn holds<T>(self, ring: &RingBuffer<T>, arg: usize) -> bool {
        let state = ring.state();
        match self {
            ParkCheck::TxWritable => state.writable(ring.cap()),
            ParkCheck::TxIdle => state.writable(ring.cap()) || state.tx_closed,
            ParkCheck::TxWritableAtLeast => ring.free() >= one_or_more(arg) && !state.receiving,
            ParkCheck::RxReadable | ParkCheck::RxPeekable => state.readable(ring.cap())
                || state.rx_closed,
            ParkCheck::RxReadableAtLeast => (ring.data() >= one_or_more(arg) && !state.sending)
                || state.rx_closed,
            ParkCheck::TxFlushed => state.readable(ring.cap()) || state.tx_closed,
            ParkCheck::RxIdle => state.writable(ring.cap()) || state.rx_closed,
        }
    }

    /// Whether the condition holds.
    pub fn check<T>(self, ring: &RingBuffer<T>, arg: usize) -> (held: bool)
        requires
            ring.wf(),
        ensures
            held == self.holds(ring, arg),
    {
        match self {
            ParkCheck::TxWritable => check_tx_writable(ring, arg),
            ParkCheck::TxIdle => check_tx_writable(ring, arg) || ring.is_tx_closed(),
            ParkCheck::TxWritableAtLeast => check_tx_writable_at_least(ring, arg),
            ParkCheck::RxReadable => check_rx_readable(ring, arg),
            ParkCheck::RxPeekable => check_rx_peekable(ring),
            ParkCheck::RxReadableAtLeast => check_rx_readable_at_least(ring, arg),
            ParkCheck::TxFlushed => check_tx_flushed(ring),
            ParkCheck::RxIdle => check_rx_idle(ring),
        }
    }
}

fn at_least_one(arg: usize) -> (amount: usize)
    ensures
        amount == one_or_more(arg),
{
    if arg >= 1 {
        arg
    } else {
        1
    }
}

/// The user writer can go on: there is free space that the runtime has not reserved.
pub fn check_tx_writable<T>(ring: &RingBuffer<T>, arg: usize) -> (held: bool)
    requires
        ring.wf(),
    ensures
        held == ParkCheck::TxWritable.holds(ring, arg),
{
    ring.try_write_at(at_least_one(arg)).is_ok()
}

/// The user reader can go on: there is data that the runtime has not reserved, or the
/// rx end is closed.
pub fn check_rx_readable<T>(ring: &RingBuffer<T>, arg: usize) -> (held: bool)
    requires
        ring.wf(),
    ensures
        held == ParkCheck::RxReadable.holds(ring, arg),
{
    ring.try_read_at(arg).is_ok() || ring.is_rx_closed()
}

/// Like [`check_rx_readable`], for peeking.
pub fn check_rx_peekable<T>(ring: &RingBuffer<T>) -> (held: bool)
    requires
        ring.wf(),
    ensures
        held == ParkCheck::RxPeekable.holds(ring, 0),
{
    ring.try_peek_at().is_ok() || ring.is_rx_closed()
}

/// The user writer can go on with at least `arg` slots.
pub fn check_tx_writable_at_least<T>(ring: &RingBuffer<T>, arg: usize) -> (held: bool)
    requires
        ring.wf(),
    ensures
        held == ParkCheck::TxWritableAtLeast.holds(ring, arg),
{
    ring.has_free_at_least(at_least_one(arg))
}

/// The user reader can go on with at least `arg` items, or the rx end is closed.
pub fn check_rx_readable_at_least<T>(ring: &RingBuffer<T>, arg: usize) -> (held: bool)
    requires
        ring.wf(),
    ensures
        held == ParkCheck::RxReadableAtLeast.holds(ring, arg),
{
    ring.has_data_at_least(at_least_one(arg)) || ring.is_rx_closed()
}

/// The runtime can go on: there are items to send, or the tx end is closed.
pub fn check_tx_flushed<T>(ring: &RingBuffer<T>) -> (held: bool)
    requires
        ring.wf(),
    ensures
        held == ParkCheck::TxFlushed.holds(ring, 0),
{
    ring.has_tx_data() || ring.is_tx_closed()
}

/// The runtime can go on: there are slots to receive into, or the rx end is closed.
pub fn check_rx_idle<T>(ring: &RingBuffer<T>) -> (held: bool)
    requires
        ring.wf(),
    ensures
        held == ParkCheck::RxIdle.holds(ring, 0),
{
    ring.has_recv_space() || ring.is_rx_closed()
}

/// A parked task: it registers its waker while its condition does not hold.
#[derive(Debug)]
pub struct Park {
    waiter: Waiter,
    registered: bool,
    side: ParkSide,
    check: ParkCheck,
}

impl Park {
    /// The waiter.
    pub closed spec fn waiter(&self) -> Waiter {
        self.waiter
    }

    /// The waiter was registered and has not left since.
    pub closed spec fn registered(&self) -> bool {
        self.registered
    }

    /// The waker slot.
    pub closed spec fn side(&self) -> ParkSide {
        self.side
    }

    /// The condition.
    pub closed spec fn condition(&self) -> ParkCheck {
        self.check
    }

    /// The waker slot holds nobody else.
    pub open spec fn may_register<T>(&self, ring: &RingBuffer<T>) -> bool {
        ring.control().slot(self.side()) matches Some(cur) ==> cur.id == self.waiter().id
    }

    /// The same task, whatever its waker.
    pub open spec fn same_task(&self, before: &Park) -> bool {
        &&& self.waiter().id == before.waiter().id
        &&& self.side() == before.side()
        &&& self.condition() == before.condition()
    }

    /// What is left in the waker slot once the task has left it.
    pub open spec fn left_slot<T>(&self, ring: &RingBuffer<T>) -> Option<Waiter> {
        if self.registered() {
            super::demand::vacated(ring.control().slot(self.side()), self.waiter())
        } else {
            ring.control().slot(self.side())
        }
    }

    /// A task with the identity `id` that waits on `side` for `check`.
    pub fn new(id: usize, side: ParkSide, check: ParkCheck) -> (park: Self)
        ensures
            park.waiter() == (Waiter { id, waker: None }),
            !park.registered(),
            park.side() == side,
            park.condition() == check,
    {
        Park { waiter: Waiter::new(id), registered: false, side, check }
    }

    /// Register `waker`, so that the next state change calls it.
    pub fn arm<T>(&mut self, ring: &mut RingBuffer<T>, waker: usize)
        requires
            old(self).may_register(old(ring)),
        ensures
            final(self).same_task(old(self)),
            final(self).registered(),
            final(self).waiter().waker == Some(waker),
            final(ring).kept_except(old(ring), old(self).side()),
            final(ring).control().slot(old(self).side()) == Some(final(self).waiter()),
    {
        self.waiter.waker = Some(waker);
        ring.register(self.side, &self.waiter);
        self.registered = true;
    }

    /// Poll the task: if its condition holds, leave the waker slot; otherwise
    /// register `waker`.
    ///
    /// The condition is checked once more after registering. A state change between
    /// the first check and the registration calls nobody; the second check sees it.
    pub fn poll<T>(&mut self, ring: &mut RingBuffer<T>, waker: usize, arg: usize) -> (ready: Poll<()>)
        requires
            old(ring).wf(),
            old(self).may_register(old(ring)),
        ensures
            ready is Ready <==> old(self).condition().holds(old(ring), arg),
            final(self).same_task(old(self)),
            final(ring).kept_except(old(ring), old(self).side()),
            ready is Ready ==> {
                &&& !final(self).registered()
                &&& final(self).waiter() == old(self).waiter()
                &&& final(ring).control().slot(old(self).side()) == old(self).left_slot(old(ring))
            },
            ready is Pending ==> {
                &&& final(self).registered()
                &&& final(self).waiter().waker == Some(waker)
                &&& final(ring).control().slot(old(self).side()) == Some(final(self).waiter())
            },
    {
        if self.check.check(ring, arg) {
            self.deregister(ring);
            return Poll::Ready(());
        }
        self.arm(ring, waker);
        if self.check.check(ring, arg) {
            self.deregister(ring);
            return Poll::Ready(());
        }
        Poll::Pending
    }

    /// Leave the waker slot.
    pub fn deregister<T>(&mut self, ring: &mut RingBuffer<T>)
        ensures
            final(self).same_task(old(self)),
            final(self).waiter() == old(self).waiter(),
            !final(self).registered(),
            final(ring).kept_except(old(ring), old(self).side()),
            final(ring).control().slot(old(self).side()) == old(self).left_slot(old(ring)),
    {
        if self.registered {
            ring.deregister(self.side, &self.waiter);
            self.registered = false;
        }
    }
}

} // verus!
