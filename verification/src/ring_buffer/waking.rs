//! Who is woken: a task that waits is called by the next change of the ring, under the waker
//! that it left; a task that has left is not.

use vstd::prelude::*;

use super::adapter::{BrokenPipe, ReadStep, WriteStep};
use super::amount::Demand;
use super::demand::{DemandSlot, ParkSide, Waiter, Woken};
use super::errors::{RxError, TxError};
use super::futures::{
    ParkFuture, PeekAsync, PeekFuture, ReadAsync, ReadFuture, WaitFlushed, WaitRxIdle, WaitTxIdle,
    WriteAsync, WriteFuture,
};
use super::park::Poll;
use super::ring::RingBuffer;
use super::rx::RingRx;
use super::segment::{ReclPeekRef, ReclSliceMut, ReclSliceRef};
use super::tx::RingTx;

verus! {

/// The waker that the next change of the ring calls for a side.
pub open spec fn to_be_called<T>(ring: &RingBuffer<T>, side: ParkSide) -> Option<usize> {
    match ring.control().slot(side) {
        Some(waiter) => waiter.waker,
        None => None,
    }
}

/// The record names exactly the wakers that were to be called.
pub open spec fn calls_all<T>(woken: Woken, ring: &RingBuffer<T>) -> bool {
    &&& woken.tx_user == to_be_called(ring, ParkSide::TxUser)
    &&& woken.tx_runtime == to_be_called(ring, ParkSide::TxRuntime)
    &&& woken.rx_user == to_be_called(ring, ParkSide::RxUser)
    &&& woken.rx_runtime == to_be_called(ring, ParkSide::RxRuntime)
}

/// Nobody is to be called.
pub open spec fn nobody_waits<T>(ring: &RingBuffer<T>) -> bool {
    forall|side: ParkSide| #[trigger] ring.control().slot(side) is None
}

/// A read, a look or a write that waits has left its waker on its side, and nobody else's
/// place is touched.
#[verifier::rlimit(40)]
pub proof fn waiting_leaves_the_waker<T>(
    read: &mut ReadFuture,
    look: &mut PeekFuture,
    write: &mut WriteFuture,
    ring: &mut RingBuffer<T>,
    waker: usize,
    cancelled: bool,
    r: Poll<Result<ReclSliceRef, RxError<usize>>>,
    p: Poll<Result<ReclPeekRef, RxError<usize>>>,
    w: Poll<Result<ReclSliceMut, TxError<usize>>>,
    other: ParkSide,
)
    requires
        old(read).wf(),
        old(look).wf(),
        old(write).wf(),
    ensures
        call_ensures(ReadFuture::poll::<T>, (read, ring, waker, cancelled), r) ==> {
            &&& r is Pending ==> to_be_called(final(ring), ParkSide::RxUser) == Some(waker)
            &&& other != ParkSide::RxUser ==> to_be_called(final(ring), other) == to_be_called(
                old(ring),
                other,
            )
        },
        call_ensures(PeekFuture::poll::<T>, (look, ring, waker, cancelled), p) ==> {
            &&& p is Pending ==> to_be_called(final(ring), ParkSide::RxUser) == Some(waker)
            &&& other != ParkSide::RxUser ==> to_be_called(final(ring), other) == to_be_called(
                old(ring),
                other,
            )
        },
        call_ensures(WriteFuture::poll::<T>, (write, ring, waker, cancelled), w) ==> {
            &&& w is Pending ==> to_be_called(final(ring), ParkSide::TxUser) == Some(waker)
            &&& other != ParkSide::TxUser ==> to_be_called(final(ring), other) == to_be_called(
                old(ring),
                other,
            )
        },
{
}

/// A wait that is not over has left its waker on its side, and one that is over, or is given
/// up, is not called any more: its place is empty if it was its own.
pub proof fn waits_come_and_go<T>(
    wait: &mut ParkFuture,
    given_up: ParkFuture,
    ring: &mut RingBuffer<T>,
    waker: usize,
    ready: Poll<()>,
    other: ParkSide,
)
    ensures
        call_ensures(ParkFuture::poll::<T>, (wait, ring, waker), ready) ==> {
            let side = old(wait).park().side();
            let own = old(wait).park().registered() && (old(ring).control().slot(
                side,
            ) matches Some(w) && w.id == old(wait).park().waiter().id);
            &&& ready is Pending ==> to_be_called(final(ring), side) == Some(waker)
            &&& ready is Ready && own ==> final(ring).control().slot(side) is None
            &&& ready is Ready && !own ==> final(ring).control().slot(side) == old(ring).control().slot(side)
            &&& other != side ==> final(ring).control().slot(other) == old(ring).control().slot(
                other,
            )
        },
        call_ensures(ParkFuture::abandon::<T>, (given_up, ring), ()) ==> {
            let side = given_up.park().side();
            let own = given_up.park().registered() && (old(ring).control().slot(side) matches Some(
                w,
            ) && w.id == given_up.park().waiter().id);
            &&& own ==> final(ring).control().slot(side) is None
            &&& !own ==> final(ring).control().slot(side) == old(ring).control().slot(side)
            &&& other != side ==> final(ring).control().slot(other) == old(ring).control().slot(
                other,
            )
            &&& final(ring).contents() == old(ring).contents()
        },
{
}

/// Borrows that are given up are not called any more.
pub proof fn abandoned_borrows_are_forgotten<T>(
    read: ReadFuture,
    look: PeekFuture,
    write: WriteFuture,
    ring: &mut RingBuffer<T>,
)
    requires
        read.wf(),
        look.wf(),
        write.wf(),
    ensures
        call_ensures(ReadFuture::abandon::<T>, (read, ring), ()) ==> {
            &&& read.park().registered() && (old(ring).control().slot(ParkSide::RxUser) matches Some(
                w,
            ) && w.id == read.park().waiter().id) ==> final(ring).control().slot(
                ParkSide::RxUser,
            ) is None
            &&& final(ring).contents() == old(ring).contents()
            &&& final(ring).state() == old(ring).state()
        },
        call_ensures(PeekFuture::abandon::<T>, (look, ring), ()) ==> {
            &&& look.park().registered() && (old(ring).control().slot(ParkSide::RxUser) matches Some(
                w,
            ) && w.id == look.park().waiter().id) ==> final(ring).control().slot(
                ParkSide::RxUser,
            ) is None
            &&& final(ring).contents() == old(ring).contents()
            &&& final(ring).state() == old(ring).state()
        },
        call_ensures(WriteFuture::abandon::<T>, (write, ring), ()) ==> {
            &&& write.park().registered() && (old(ring).control().slot(ParkSide::TxUser) matches Some(
                w,
            ) && w.id == write.park().waiter().id) ==> final(ring).control().slot(
                ParkSide::TxUser,
            ) is None
            &&& final(ring).contents() == old(ring).contents()
            &&& final(ring).state() == old(ring).state()
        },
{
}

/// A polled stream that waits has left its waker.
pub proof fn waiting_streams_leave_the_waker<H>(
    rx: &mut RingRx<H>,
    tx: &mut RingTx<H>,
    ring: &mut RingBuffer<u8>,
    waker: usize,
    dst: &mut [u8],
    src: &[u8],
    read: Poll<Option<(usize, Woken)>>,
    wrote: Poll<Result<(usize, Woken), BrokenPipe>>,
)
    ensures
        call_ensures(RingRx::<H>::poll_read, (rx, ring, waker, dst), read) && read is Pending
            ==> to_be_called(final(ring), ParkSide::RxUser) == Some(waker) && final(rx).parked().id
            == old(rx).parked().id,
        call_ensures(RingTx::<H>::poll_write, (tx, ring, waker, src), wrote) && wrote is Pending
            ==> to_be_called(final(ring), ParkSide::TxUser) == Some(waker) && final(tx).parked().id
            == old(tx).parked().id,
{
}

/// Every change of a ring calls everybody who waits, each once: bytes that are read or
/// written, segments that are committed, regions that come back, and ends that are closed.
#[verifier::rlimit(40)]
pub proof fn every_change_calls_everybody<T>(
    ring: &mut RingBuffer<T>,
    count: usize,
    woken: Woken,
)
    requires
        ({
            ||| call_ensures(RingBuffer::<T>::advance_write, (ring, count), woken)
            ||| call_ensures(RingBuffer::<T>::advance_read, (ring, count), woken)
            ||| call_ensures(RingBuffer::<T>::put_back_send, (ring, count), woken)
            ||| call_ensures(RingBuffer::<T>::put_back_recv, (ring, count), woken)
            ||| call_ensures(RingBuffer::<T>::close_tx, (ring,), woken)
            ||| call_ensures(RingBuffer::<T>::close_rx, (ring,), woken)
        }),
    ensures
        calls_all(woken, old(ring)),
        nobody_waits(final(ring)),
{
}

/// Committing a segment calls everybody who waits; a look calls nobody.
pub proof fn commits_call_everybody<T>(
    write: ReclSliceMut,
    read: ReclSliceRef,
    ring: &mut RingBuffer<T>,
    a: Woken,
    b: Option<Woken>,
)
    ensures
        call_ensures(ReclSliceMut::commit::<T>, (write, ring), a) ==> calls_all(a, old(ring))
            && nobody_waits(final(ring)),
        call_ensures(ReclSliceRef::commit::<T>, (read, ring), b) ==> {
            &&& b is Some <==> !read.is_peek()
            &&& b matches Some(woken) ==> calls_all(woken, old(ring)) && nobody_waits(final(ring))
            &&& read.is_peek() ==> *final(ring) == *old(ring)
        },
{
}

/// Bytes that are moved call everybody who waits.
pub proof fn moved_bytes_call_everybody<H>(
    rx: &mut RingRx<H>,
    tx: &mut RingTx<H>,
    ring: &mut RingBuffer<u8>,
    dst: &mut [u8],
    src: &[u8],
    read: ReadStep,
    wrote: WriteStep,
)
    ensures
        call_ensures(RingRx::<H>::read, (rx, ring, dst), read) ==> (read matches ReadStep::Moved(
            _,
            woken,
        ) ==> calls_all(woken, old(ring)) && nobody_waits(final(ring))),
        call_ensures(RingTx::<H>::write, (tx, ring, src), wrote) ==> (wrote matches WriteStep::Moved(
            _,
            woken,
        ) ==> calls_all(woken, old(ring)) && nobody_waits(final(ring))),
{
}

/// No write goes unnoticed: a read that waits is called by the next write that brings bytes,
/// and a write that waits is called by the next read that takes bytes.
#[verifier::rlimit(40)]
pub proof fn the_other_end_is_called<H>(
    future_read: &mut ReadFuture,
    future_write: &mut WriteFuture,
    rx: &mut RingRx<H>,
    tx: &mut RingTx<H>,
    before: &mut RingBuffer<u8>,
    after: &mut RingBuffer<u8>,
    waker: usize,
    cancelled: bool,
    src: &[u8],
    dst: &mut [u8],
    r: Poll<Result<ReclSliceRef, RxError<usize>>>,
    w: Poll<Result<ReclSliceMut, TxError<usize>>>,
    read: ReadStep,
    wrote: WriteStep,
)
    requires
        *final(before) == *old(after),
        old(future_read).wf(),
        old(future_write).wf(),
    ensures
        call_ensures(ReadFuture::poll::<u8>, (future_read, before, waker, cancelled), r)
            && call_ensures(RingTx::<H>::write, (tx, after, src), wrote) && r is Pending ==> (
        wrote matches WriteStep::Moved(_, woken) ==> woken.rx_user == Some(waker)),
        call_ensures(WriteFuture::poll::<u8>, (future_write, before, waker, cancelled), w)
            && call_ensures(RingRx::<H>::read, (rx, after, dst), read) && w is Pending ==> (
        read matches ReadStep::Moved(_, woken) ==> woken.tx_user == Some(waker)),
{
}

/// A half that is closed or given up closes its end and calls everybody who waits; one that
/// is given up does not call itself.
#[verifier::rlimit(40)]
pub proof fn leaving_halves_close_their_end<H, T>(
    tx: &mut RingTx<H>,
    rx: &mut RingRx<H>,
    old_tx: RingTx<H>,
    old_rx: RingRx<H>,
    ring: &mut RingBuffer<T>,
    woken: Woken,
    given: (H, Woken),
)
    ensures
        call_ensures(RingTx::<H>::close::<T>, (tx, ring), woken) ==> final(ring).state().tx_closed
            && final(ring).state().rx_closed == old(ring).state().rx_closed && final(ring).contents() == old(ring).contents() && calls_all(woken, old(ring)) && nobody_waits(
            final(ring),
        ),
        call_ensures(RingRx::<H>::close::<T>, (rx, ring), woken) ==> final(ring).state().rx_closed
            && final(ring).state().tx_closed == old(ring).state().tx_closed && final(ring).contents() == old(ring).contents() && calls_all(woken, old(ring)) && nobody_waits(
            final(ring),
        ),
        call_ensures(RingTx::<H>::release::<T>, (old_tx, ring), given) ==> {
            &&& given.0 == old_tx.handle()
            &&& final(ring).state().tx_closed
            &&& final(ring).state().rx_closed == old(ring).state().rx_closed
            &&& final(ring).contents() == old(ring).contents()
            &&& given.1.rx_user == to_be_called(old(ring), ParkSide::RxUser)
            &&& given.1.rx_runtime == to_be_called(old(ring), ParkSide::RxRuntime)
            &&& given.1.tx_runtime == to_be_called(old(ring), ParkSide::TxRuntime)
            &&& given.1.tx_user == (if old(ring).control().slot(ParkSide::TxUser) matches Some(w)
                && w.id == old_tx.parked().id {
                None
            } else {
                to_be_called(old(ring), ParkSide::TxUser)
            })
            &&& nobody_waits(final(ring))
        },
        call_ensures(RingRx::<H>::release::<T>, (old_rx, ring), given) ==> {
            &&& given.0 == old_rx.handle()
            &&& final(ring).state().rx_closed
            &&& final(ring).state().tx_closed == old(ring).state().tx_closed
            &&& final(ring).contents() == old(ring).contents()
            &&& given.1.tx_user == to_be_called(old(ring), ParkSide::TxUser)
            &&& given.1.tx_runtime == to_be_called(old(ring), ParkSide::TxRuntime)
            &&& given.1.rx_runtime == to_be_called(old(ring), ParkSide::RxRuntime)
            &&& given.1.rx_user == (if old(ring).control().slot(ParkSide::RxUser) matches Some(w)
                && w.id == old_rx.parked().id {
                None
            } else {
                to_be_called(old(ring), ParkSide::RxUser)
            })
            &&& nobody_waits(final(ring))
        },
{
}

/// A slot holds the waiter that came last, gives its waker up once, and lets go only of the
/// waiter that leaves.
pub proof fn slots_hold_one_waiter(
    slot: &mut DemandSlot,
    w: &Waiter,
    waker: Option<usize>,
)
    ensures
        call_ensures(DemandSlot::register, (slot, w), ()) ==> final(slot)@ == Some(*w),
        call_ensures(DemandSlot::deregister, (slot, w), ()) ==> final(slot)@ == (if old(slot)@ matches Some(cur) && cur.id == w.id {
            None
        } else {
            old(slot)@
        }),
        call_ensures(DemandSlot::signal, (slot,), waker) ==> final(slot)@ is None && waker == (
        match old(slot)@ {
            Some(cur) => cur.waker,
            None => None,
        }),
{
}

/// Registering and leaving touch one side alone, and never the items.
pub proof fn sides_are_apart<T>(
    ring: &mut RingBuffer<T>,
    side: ParkSide,
    w: &Waiter,
    other: ParkSide,
)
    requires
        call_ensures(RingBuffer::<T>::register, (ring, side, w), ()) || call_ensures(
            RingBuffer::<T>::deregister,
            (ring, side, w),
            (),
        ),
    ensures
        call_ensures(RingBuffer::<T>::register, (ring, side, w), ()) ==> final(ring).control().slot(side) == Some(*w),
        call_ensures(RingBuffer::<T>::deregister, (ring, side, w), ()) ==> final(ring).control().slot(side) == (if old(ring).control().slot(side) matches Some(cur) && cur.id
            == w.id {
            None
        } else {
            old(ring).control().slot(side)
        }),
        other != side ==> final(ring).control().slot(other) == old(ring).control().slot(other),
        final(ring).contents() == old(ring).contents(),
        final(ring).state() == old(ring).state(),
{
}

/// A borrow waits for what was asked for: with the bounds of its demand, or with an upper
/// bound alone; it gives up on cancellation iff it was asked to.
#[verifier::rlimit(40)]
pub proof fn borrows_keep_their_bounds<H>(
    rx: &mut RingRx<H>,
    tx: &mut RingTx<H>,
    demand: &Demand,
    length: usize,
    read: ReadAsync,
    write: WriteAsync,
    look: PeekAsync,
    id: usize,
    fr: ReadFuture,
    fw: WriteFuture,
    fp: PeekFuture,
)
    ensures
        call_ensures(RingRx::<H>::read_async, (rx, demand), read) ==> read.min_len()
            == super::service::low(*demand) && read.max_len() == super::service::high(*demand),
        call_ensures(RingTx::<H>::write_async, (tx, demand), write) ==> write.min_len()
            == super::service::low(*demand) && write.max_len() == super::service::high(*demand),
        call_ensures(RingRx::<H>::read_at_most_async, (rx, length), read) ==> read.min_len() <= 1
            && read.max_len() == length,
        call_ensures(RingTx::<H>::write_at_most_async, (tx, length), write) ==> write.min_len() <= 1
            && write.max_len() == length,
        call_ensures(ReadAsync::into_future, (read, id), fr) ==> fr.min_len() == read.min_len()
            && fr.max_len() == read.max_len() && !fr.cancellable() && !fr.park().registered()
            && fr.park().waiter().id == id && fr.park().side() == ParkSide::RxUser,
        call_ensures(ReadAsync::may_cancel_with, (read, id), fr) ==> fr.min_len() == read.min_len()
            && fr.max_len() == read.max_len() && fr.cancellable() && !fr.park().registered()
            && fr.park().waiter().id == id && fr.park().side() == ParkSide::RxUser,
        call_ensures(WriteAsync::into_future, (write, id), fw) ==> fw.min_len() == write.min_len()
            && fw.max_len() == write.max_len() && !fw.cancellable() && !fw.park().registered()
            && fw.park().waiter().id == id && fw.park().side() == ParkSide::TxUser,
        call_ensures(WriteAsync::may_cancel_with, (write, id), fw) ==> fw.min_len()
            == write.min_len() && fw.max_len() == write.max_len() && fw.cancellable()
            && !fw.park().registered() && fw.park().waiter().id == id && fw.park().side()
            == ParkSide::TxUser,
        call_ensures(PeekAsync::into_future, (look, id), fp) ==> !fp.cancellable()
            && !fp.park().registered() && fp.park().waiter().id == id && fp.park().side()
            == ParkSide::RxUser,
        call_ensures(PeekAsync::may_cancel_with, (look, id), fp) ==> fp.cancellable()
            && !fp.park().registered() && fp.park().waiter().id == id && fp.park().side()
            == ParkSide::RxUser,
{
}

/// The waits of the runtime and of an idle writer are over exactly when there is something
/// for them to do: items to send, slots to receive into, slots to write into, or the end on
/// which they wait is closed.
pub proof fn named_waits_end_when_due<T>(
    flushed: WaitFlushed,
    rx_idle: WaitRxIdle,
    tx_idle: WaitTxIdle,
    id: usize,
    wait: &mut ParkFuture,
    ring: &mut RingBuffer<T>,
    waker: usize,
    ready: Poll<()>,
)
    requires
        old(ring).wf(),
        call_ensures(ParkFuture::poll::<T>, (wait, ring, waker), ready),
    ensures
        call_ensures(WaitFlushed::new, (id,), flushed) && call_ensures(
            WaitFlushed::into_future,
            (flushed,),
            *old(wait),
        ) ==> (ready is Ready <==> old(ring).contents().len() >= 1 && !old(ring).state().sending
            || old(ring).state().tx_closed),
        call_ensures(WaitRxIdle::new, (id,), rx_idle) && call_ensures(
            WaitRxIdle::into_future,
            (rx_idle,),
            *old(wait),
        ) ==> (ready is Ready <==> old(ring).contents().len() < old(ring).buf().len() - 1 && !old(ring).state().receiving || old(ring).state().rx_closed),
        call_ensures(WaitTxIdle::new, (id,), tx_idle) && call_ensures(
            WaitTxIdle::into_future,
            (tx_idle,),
            *old(wait),
        ) ==> (ready is Ready <==> old(ring).contents().len() < old(ring).buf().len() - 1 && !old(ring).state().receiving || old(ring).state().tx_closed),
{
    super::transfer::waits_end_when_due(wait, ring, waker, ready);
}

/// A borrow that is answered is not called any more: if the place on its side was its own, it
/// is empty.
#[verifier::rlimit(40)]
pub proof fn served_borrows_are_forgotten<T>(
    read: &mut ReadFuture,
    look: &mut PeekFuture,
    write: &mut WriteFuture,
    ring: &mut RingBuffer<T>,
    waker: usize,
    cancelled: bool,
    r: Poll<Result<ReclSliceRef, RxError<usize>>>,
    p: Poll<Result<ReclPeekRef, RxError<usize>>>,
    w: Poll<Result<ReclSliceMut, TxError<usize>>>,
)
    requires
        old(read).wf(),
        old(look).wf(),
        old(write).wf(),
    ensures
        call_ensures(ReadFuture::poll::<T>, (read, ring, waker, cancelled), r) && r is Ready ==> {
            let slot = old(ring).control().slot(ParkSide::RxUser);
            let own = old(read).park().registered() && (slot matches Some(cur) && cur.id == old(
                read).park().waiter().id);
            &&& final(ring).control().slot(ParkSide::RxUser) == if own {
                None
            } else {
                slot
            }
            &&& !final(read).park().registered()
        },
        call_ensures(PeekFuture::poll::<T>, (look, ring, waker, cancelled), p) && p is Ready ==> {
            let slot = old(ring).control().slot(ParkSide::RxUser);
            let own = old(look).park().registered() && (slot matches Some(cur) && cur.id == old(
                look).park().waiter().id);
            &&& final(ring).control().slot(ParkSide::RxUser) == if own {
                None
            } else {
                slot
            }
            &&& !final(look).park().registered()
        },
        call_ensures(WriteFuture::poll::<T>, (write, ring, waker, cancelled), w) && w is Ready ==> {
            let slot = old(ring).control().slot(ParkSide::TxUser);
            let own = old(write).park().registered() && (slot matches Some(cur) && cur.id == old(
                write).park().waiter().id);
            &&& final(ring).control().slot(ParkSide::TxUser) == if own {
                None
            } else {
                slot
            }
            &&& !final(write).park().registered()
        },
{
}

/// Shutting a byte stream down closes the tx end, calls everybody who waits, and keeps the
/// bytes for the reader; a flush has nothing to wait for.
pub proof fn shutting_down_keeps_the_bytes<H>(
    tx: &mut RingTx<H>,
    ring: &mut RingBuffer<u8>,
    woken: Woken,
    polled: Poll<Woken>,
    done: Result<(), BrokenPipe>,
    flushed: Poll<Result<(), BrokenPipe>>,
)
    ensures
        call_ensures(RingTx::<H>::shutdown, (tx, ring), woken) ==> {
            &&& final(ring).state().tx_closed
            &&& final(ring).state().rx_closed == old(ring).state().rx_closed
            &&& final(ring).contents() == old(ring).contents()
            &&& calls_all(woken, old(ring)) && nobody_waits(final(ring))
        },
        call_ensures(RingTx::<H>::poll_shutdown, (tx, ring), polled) ==> {
            &&& final(ring).state().tx_closed
            &&& final(ring).state().rx_closed == old(ring).state().rx_closed
            &&& final(ring).contents() == old(ring).contents()
            &&& polled matches Poll::Ready(w) && calls_all(w, old(ring))
            &&& nobody_waits(final(ring))
        },
        call_ensures(RingTx::<H>::flush, (tx,), done) ==> done is Ok,
        call_ensures(RingTx::<H>::poll_flush, (tx,), flushed) ==> (flushed matches Poll::Ready(r)
            && r is Ok),
{
}

} // verus!
