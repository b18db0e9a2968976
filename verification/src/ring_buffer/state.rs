//! The shared state of a ring: its state word and its four waker slots.

use vstd::prelude::*;

use super::demand::{DemandSlot, ParkSide, Waiter, Woken};
use super::word::{
    advanced_reader, advanced_writer, put_back_received, put_back_sent, MAX_CAPACITY,
    RECV_IN_FLIGHT, RX_CLOSED, SEND_IN_FLIGHT, TX_CLOSED,
};

verus! {

/// The state word and the waker slots of a ring.
#[derive(Debug)]
pub struct RingCore {
    state: usize,
    tx_user_demand: DemandSlot,
    tx_runtime_demand: DemandSlot,
    rx_user_demand: DemandSlot,
    rx_runtime_demand: DemandSlot,
}

impl View for RingCore {
    type V = super::word::RingState;

    open spec fn view(&self) -> super::word::RingState {
        super::word::decode(self.word())
    }
}

impl RingCore {
    /// The state word.
    pub closed spec fn word(&self) -> usize {
        self.state
    }

    /// The waiter parked on `side`.
    pub closed spec fn slot(&self, side: ParkSide) -> Option<Waiter> {
        match side {
            ParkSide::TxUser => self.tx_user_demand@,
            ParkSide::TxRuntime => self.tx_runtime_demand@,
            ParkSide::RxUser => self.rx_user_demand@,
            ParkSide::RxRuntime => self.rx_runtime_demand@,
        }
    }

    /// Nobody is parked.
    pub open spec fn quiet(&self) -> bool {
        forall|side: ParkSide| #[trigger] self.slot(side) is None
    }

    /// The same waiters are parked as in `other`.
    pub open spec fn same_slots(&self, other: &RingCore) -> bool {
        forall|side: ParkSide| #[trigger] self.slot(side) == other.slot(side)
    }

    /// The wakers of all parked waiters.
    pub open spec fn wakers(&self) -> Woken {
        Woken {
            tx_user: super::demand::waker_of(self.slot(ParkSide::TxUser)),
            tx_runtime: super::demand::waker_of(self.slot(ParkSide::TxRuntime)),
            rx_user: super::demand::waker_of(self.slot(ParkSide::RxUser)),
            rx_runtime: super::demand::waker_of(self.slot(ParkSide::RxRuntime)),
        }
    }

    /// The core of a fresh ring.
    pub fn new() -> (core: Self)
        ensures
            core@ == super::word::RingState::initial(),
            core.quiet(),
    {
        proof {
            super::word::zero_word();
        }
        RingCore {
            state: 0,
            tx_user_demand: DemandSlot::new(),
            tx_runtime_demand: DemandSlot::new(),
            rx_user_demand: DemandSlot::new(),
            rx_runtime_demand: DemandSlot::new(),
        }
    }

    /// The current state word.
    pub fn load_state_(&self) -> (state: usize)
        ensures
            state == self.word(),
    {
        self.state
    }

    /// Replace the state word by `f` of it.
    pub fn update_state_(&mut self, f: impl Fn(usize) -> usize)
        requires
            call_requires(f, (old(self).word(),)),
        ensures
            call_ensures(f, (old(self).word(),), final(self).word()),
            final(self).same_slots(old(self)),
    {
        let next: usize = f(self.state);
        self.state = next;
    }

    fn set_flag_(&mut self, flag: usize)
        ensures
            final(self).word() == old(self).word() | flag,
            final(self).same_slots(old(self)),
    {
        let raise = |s: usize| -> (next: usize)
            ensures
                next == s | flag,
        {
            s | flag
        };
        self.update_state_(raise);
    }

    /// Empty all four slots; every state change may satisfy any parked side.
    pub fn signal_all(&mut self) -> (woken: Woken)
        ensures
            final(self).word() == old(self).word(),
            final(self).quiet(),
            woken == old(self).wakers(),
    {
        let tx_user = self.tx_user_demand.signal();
        let tx_runtime = self.tx_runtime_demand.signal();
        let rx_user = self.rx_user_demand.signal();
        let rx_runtime = self.rx_runtime_demand.signal();
        Woken { tx_user, tx_runtime, rx_user, rx_runtime }
    }

    /// Advance the writer position by `amount` (mod `cap`), keeping the flags.
    pub fn advance_write(&mut self, cap: usize, amount: usize) -> (woken: Woken)
        requires
            0 < cap <= MAX_CAPACITY,
            old(self)@.wp + amount <= usize::MAX,
        ensures
            final(self)@ == old(self)@.after_write(cap as int, amount as int),
            final(self).quiet(),
            woken == old(self).wakers(),
    {
        let advance = |s: usize| -> (next: usize)
            requires
                0 < cap <= MAX_CAPACITY,
                super::word::writer_of(s) + amount <= usize::MAX,
            ensures
                super::word::decode(next) == super::word::decode(s).after_write(
                    cap as int,
                    amount as int,
                ),
        {
            advanced_writer(s, cap, amount)
        };
        self.update_state_(advance);
        self.signal_all()
    }

    /// Advance the reader position by `amount` (mod `cap`), keeping the flags.
    pub fn advance_read(&mut self, cap: usize, amount: usize) -> (woken: Woken)
        requires
            0 < cap <= MAX_CAPACITY,
            old(self)@.rp + amount <= usize::MAX,
        ensures
            final(self)@ == old(self)@.after_read(cap as int, amount as int),
            final(self).quiet(),
            woken == old(self).wakers(),
    {
        let advance = |s: usize| -> (next: usize)
            requires
                0 < cap <= MAX_CAPACITY,
                super::word::reader_of(s) + amount <= usize::MAX,
            ensures
                super::word::decode(next) == super::word::decode(s).after_read(
                    cap as int,
                    amount as int,
                ),
        {
            advanced_reader(s, cap, amount)
        };
        self.update_state_(advance);
        self.signal_all()
    }

    /// Return a send reservation, advancing the reader position by `written`.
    pub fn release_send(&mut self, cap: usize, written: usize) -> (woken: Woken)
        requires
            0 < cap <= MAX_CAPACITY,
            old(self)@.rp + written <= usize::MAX,
        ensures
            final(self)@ == (super::word::RingState {
                sending: false,
                ..old(self)@.after_read(cap as int, written as int)
            }),
            final(self).quiet(),
            woken == old(self).wakers(),
    {
        let next: usize = put_back_sent(self.state, cap, written);
        self.state = next;
        self.signal_all()
    }

    /// Return a receive reservation, advancing the writer position by `received`.
    pub fn release_recv(&mut self, cap: usize, received: usize) -> (woken: Woken)
        requires
            0 < cap <= MAX_CAPACITY,
            old(self)@.wp + received <= usize::MAX,
        ensures
            final(self)@ == (super::word::RingState {
                receiving: false,
                ..old(self)@.after_write(cap as int, received as int)
            }),
            final(self).quiet(),
            woken == old(self).wakers(),
    {
        let next: usize = put_back_received(self.state, cap, received);
        self.state = next;
        self.signal_all()
    }

    /// Reserve the readable region for a kernel write. Nobody is woken.
    pub fn reserve_send(&mut self)
        ensures
            final(self)@ == (super::word::RingState { sending: true, ..old(self)@ }),
            final(self).same_slots(old(self)),
    {
        proof {
            super::word::flag_set(self.state, SEND_IN_FLIGHT);
            super::word::flags_differ();
        }
        self.set_flag_(SEND_IN_FLIGHT);
    }

    /// Reserve the writable region for a kernel read. Nobody is woken.
    pub fn reserve_recv(&mut self)
        ensures
            final(self)@ == (super::word::RingState { receiving: true, ..old(self)@ }),
            final(self).same_slots(old(self)),
    {
        proof {
            super::word::flag_set(self.state, RECV_IN_FLIGHT);
            super::word::flags_differ();
        }
        self.set_flag_(RECV_IN_FLIGHT);
    }

    /// Close the tx end.
    pub fn close_tx(&mut self) -> (woken: Woken)
        ensures
            final(self)@ == (super::word::RingState { tx_closed: true, ..old(self)@ }),
            final(self).quiet(),
            woken == old(self).wakers(),
    {
        proof {
            super::word::flag_set(self.state, TX_CLOSED);
            super::word::flags_differ();
        }
        self.set_flag_(TX_CLOSED);
        self.signal_all()
    }

    /// Close the rx end.
    pub fn close_rx(&mut self) -> (woken: Woken)
        ensures
            final(self)@ == (super::word::RingState { rx_closed: true, ..old(self)@ }),
            final(self).quiet(),
            woken == old(self).wakers(),
    {
        proof {
            super::word::flag_set(self.state, RX_CLOSED);
            super::word::flags_differ();
        }
        self.set_flag_(RX_CLOSED);
        self.signal_all()
    }

    /// Register `w` on `side`.
    pub fn register(&mut self, side: ParkSide, w: &Waiter)
        requires
            old(self).slot(side) matches Some(cur) ==> cur.id == w.id,
        ensures
            final(self).word() == old(self).word(),
            final(self).slot(side) == Some(*w),
            forall|other: ParkSide|
                other != side ==> #[trigger] final(self).slot(other) == old(self).slot(other),
    {
        match side {
            ParkSide::TxUser => self.tx_user_demand.register(w),
            ParkSide::TxRuntime => self.tx_runtime_demand.register(w),
            ParkSide::RxUser => self.rx_user_demand.register(w),
            ParkSide::RxRuntime => self.rx_runtime_demand.register(w),
        }
    }

    /// Remove `w` from `side` if it is still registered there.
    pub fn deregister(&mut self, side: ParkSide, w: &Waiter)
        ensures
            final(self).word() == old(self).word(),
            final(self).slot(side) == super::demand::vacated(old(self).slot(side), *w),
            forall|other: ParkSide|
                other != side ==> #[trigger] final(self).slot(other) == old(self).slot(other),
    {
        match side {
            ParkSide::TxUser => self.tx_user_demand.deregister(w),
            ParkSide::TxRuntime => self.tx_runtime_demand.deregister(w),
            ParkSide::RxUser => self.rx_user_demand.deregister(w),
            ParkSide::RxRuntime => self.rx_runtime_demand.deregister(w),
        }
    }
}

} // verus!
