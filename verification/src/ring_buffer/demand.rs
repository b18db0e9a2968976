//! Waker slots: who is parked on which side of a ring.

use vstd::prelude::*;

verus! {

/// One parked task: `id` tells waiters apart, `waker` names the waker to call
/// once something changed.
#[derive(Debug, Clone, Copy, PartialEq, Eq, Structural)]
pub struct Waiter {
    /// The identity of the waiter.
    pub id: usize,
    /// The key of the waker to call, once there is one.
    pub waker: Option<usize>,
}

impl Waiter {
    /// A waiter that has no waker yet.
    pub fn new(id: usize) -> (w: Self)
        ensures
            w == (Waiter { id, waker: None }),
    {
        Waiter { id, waker: None }
    }
}

/// The waker that a slot with this content would call.
pub open spec fn waker_of(slot: Option<Waiter>) -> Option<usize> {
    match slot {
        Some(w) => w.waker,
        None => None,
    }
}

/// A waker slot: it points at the one waiter that is parked on a side.
#[derive(Debug)]
pub struct DemandSlot(Option<Waiter>);

impl View for DemandSlot {
    type V = Option<Waiter>;

    closed spec fn view(&self) -> Option<Waiter> {
        self.0
    }
}

impl DemandSlot {
    /// A slot without a waiter.
    pub fn new() -> (slot: Self)
        ensures
            slot@ is None,
    {
        DemandSlot(None)
    }

    /// Register `w` as the waiter of this slot. A slot takes a new waiter only
    /// after the previous one left.
    pub fn register(&mut self, w: &Waiter)
        requires
            old(self)@ matches Some(cur) ==> cur.id == w.id,
        ensures
            final(self)@ == Some(*w),
    {
        self.0 = Some(*w);
    }

    /// Remove `w` from this slot if it is still the registered waiter.
    pub fn deregister(&mut self, w: &Waiter)
        ensures
            final(self)@ == vacated(old(self)@, *w),
    {
        if let Some(cur) = self.0 {
            if cur.id == w.id {
                self.0 = None;
            }
        }
    }

    /// Empty the slot and name the waker that has to be called, if any.
    pub fn signal(&mut self) -> (waker: Option<usize>)
        ensures
            final(self)@ is None,
            waker == waker_of(old(self)@),
    {
        let taken = self.0;
        self.0 = None;
        match taken {
            Some(w) => w.waker,
            None => None,
        }
    }
}

/// The content of a slot once `w` has left it.
pub open spec fn vacated(slot: Option<Waiter>, w: Waiter) -> Option<Waiter> {
    match slot {
        Some(cur) => if cur.id == w.id {
            None
        } else {
            slot
        },
        None => None,
    }
}

/// Which waker slot a parked task uses.
#[derive(Debug, Clone, Copy, PartialEq, Eq, Structural)]
pub enum ParkSide {
    /// The user writer waits for free space.
    TxUser,
    /// The runtime waits for buffered data to send.
    TxRuntime,
    /// The user reader waits for buffered data.
    RxUser,
    /// The runtime waits for free space to receive into.
    RxRuntime,
}

/// The wakers that a state change has to call, in the order of the fields.
#[derive(Debug, Clone, Copy, PartialEq, Eq, Structural)]
pub struct Woken {
    /// The waker of the user writer.
    pub tx_user: Option<usize>,
    /// The waker of the sending runtime.
    pub tx_runtime: Option<usize>,
    /// The waker of the user reader.
    pub rx_user: Option<usize>,
    /// The waker of the receiving runtime.
    pub rx_runtime: Option<usize>,
}

} // verus!
