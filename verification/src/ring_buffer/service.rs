//! What the ends of a ring are given, in terms of the items that the ring holds: who asks for
//! items gets them as soon as there are enough, and is refused or waits only for a reason.

use vstd::prelude::*;

use super::amount::Demand;
use super::errors::{RxError, TxError};
use super::futures::{PeekFuture, ReadFuture, WriteFuture};
use super::park::Poll;
use super::ring::RingBuffer;
use super::rx::RingRx;
use super::segment::{ReclPeekRef, ReclSliceMut, ReclSliceRef};
use super::tx::RingTx;

verus! {

/// The number of items that a ring holds.
pub open spec fn held<T>(ring: &RingBuffer<T>) -> int {
    ring.contents().len() as int
}

/// The number of items that a ring still takes: one slot of the buffer stays unused.
pub open spec fn room<T>(ring: &RingBuffer<T>) -> int {
    ring.buf().len() - 1 - ring.contents().len()
}

/// The lower bound of a demand, or zero.
pub open spec fn low(demand: Demand) -> int {
    match demand.lower() {
        Some(n) => n as int,
        None => 0,
    }
}

/// The upper bound of a demand, or the largest number.
pub open spec fn high(demand: Demand) -> int {
    match demand.upper() {
        Some(n) => n as int,
        None => usize::MAX as int,
    }
}

/// The items lie between the two positions, in ring order: from the reader position up to the
/// writer position, or to the end of the buffer and on from its start. What lies outside is
/// free, but for one slot.
pub proof fn items_between_the_positions<T>(ring: &RingBuffer<T>)
    requires
        2 <= ring.buf().len(),
        0 <= ring.state().rp < ring.buf().len(),
        0 <= ring.state().wp < ring.buf().len(),
    ensures
        held(ring) == if ring.state().wp >= ring.state().rp {
            ring.state().wp - ring.state().rp
        } else {
            ring.state().wp - ring.state().rp + ring.buf().len()
        },
        ring.data() == held(ring),
        ring.free() == room(ring),
        ring.cap() == ring.buf().len(),
        forall|i: int|
            0 <= i < held(ring) ==> #[trigger] ring.contents()[i] == ring.buf()[if ring.state().rp
                + i < ring.buf().len() {
                ring.state().rp + i
            } else {
                ring.state().rp + i - ring.buf().len()
            }],
{
    let cap = ring.buf().len() as int;
    super::arith::distance(ring.state().wp - ring.state().rp, cap);
    assert forall|i: int| 0 <= i < held(ring) implies #[trigger] ring.contents()[i]
        == ring.buf()[if ring.state().rp + i < cap {
        ring.state().rp + i
    } else {
        ring.state().rp + i - cap
    }] by {
        super::arith::one_turn(ring.state().rp + i, cap);
    }
}

/// Items are offered iff there are some that nobody has reserved: from the reader position
/// on, all that were asked for or all that there are. Otherwise the answer tells whether the
/// rx end is closed.
pub proof fn buffered_items_are_offered<T>(
    ring: &RingBuffer<T>,
    length: usize,
    offer: Result<(usize, usize), RxError<usize>>,
    whole: Result<(usize, usize), RxError<usize>>,
)
    requires
        ring.wf(),
        call_ensures(RingBuffer::<T>::try_read_at, (ring, length), offer),
        call_ensures(RingBuffer::<T>::try_peek_at, (ring,), whole),
    ensures
        offer is Ok <==> held(ring) > 0 && !ring.state().sending,
        offer matches Ok((start, take)) ==> {
            &&& start == ring.state().rp
            &&& take <= length && take <= held(ring)
            &&& take == length || take == held(ring)
        },
        offer matches Err(e) ==> e == if ring.state().rx_closed {
            RxError::Closing
        } else {
            RxError::Drained(ring.state().rp as usize)
        },
        whole is Ok <==> offer is Ok,
        whole matches Ok((start, take)) ==> start == ring.state().rp && take == held(ring),
        whole matches Err(e) ==> offer == Err::<(usize, usize), RxError<usize>>(e),
{
    items_between_the_positions(ring);
    super::word::capacity_bound();
}

/// Slots are offered iff there are some that nobody has reserved: from the writer position
/// on, all that were asked for or all that are free. Otherwise the answer tells whether the
/// tx end is closed.
pub proof fn free_slots_are_offered<T>(
    ring: &RingBuffer<T>,
    length: usize,
    offer: Result<(usize, usize), TxError<usize>>,
)
    requires
        ring.wf(),
        call_ensures(RingBuffer::<T>::try_write_at, (ring, length), offer),
    ensures
        offer is Ok <==> room(ring) > 0 && !ring.state().receiving,
        offer matches Ok((start, take)) ==> {
            &&& start == ring.state().wp
            &&& take <= length && take <= room(ring)
            &&& take == length || take == room(ring)
        },
        offer matches Err(e) ==> e == if ring.state().tx_closed {
            TxError::Closing
        } else {
            TxError::Stuffed(ring.state().wp as usize)
        },
{
    items_between_the_positions(ring);
    super::word::capacity_bound();
}

/// The segment covers the oldest `n` items of the ring, `n` being `most` or all that there
/// are, whichever is less; none of them is consumed yet.
pub open spec fn covers_oldest<T>(segm: ReclSliceRef, ring: &RingBuffer<T>, most: int) -> bool {
    &&& segm.start() == ring.state().rp
    &&& segm.offset() == 0
    &&& segm.take() <= most && segm.take() <= held(ring)
    &&& segm.take() == most || segm.take() == held(ring)
    &&& segm.rest(ring) == ring.contents().subrange(0, segm.take())
    &&& segm.claims(ring)
}

/// The segment covers the next `n` free slots of the ring, `n` being `most` or all that there
/// are, whichever is less; none of them is filled yet.
pub open spec fn covers_free<T>(segm: ReclSliceMut, ring: &RingBuffer<T>, most: int) -> bool {
    &&& segm.start() == ring.state().wp
    &&& segm.offset() == 0
    &&& segm.take() <= most && segm.take() <= room(ring)
    &&& segm.take() == most || segm.take() == room(ring)
    &&& segm.claims(ring)
}

proof fn shown_from_the_start<T>(segm: &ReclSliceRef, ring: &RingBuffer<T>)
    requires
        segm.claims(ring),
        segm.offset() == 0,
    ensures
        segm.rest(ring) == ring.contents().subrange(0, segm.take()),
{
    super::laws::read_segment_shows_oldest(segm, ring);
}

/// A try to read succeeds iff the ring holds as many unreserved items as the demand asks for
/// at least, and one in any case, and the demand accepts any amount at all; it then gives the
/// oldest items, as many as the demand accepts. A refusal tells whether the rx end is closed.
#[verifier::rlimit(40)]
pub proof fn reading_meets_the_demand<H, T>(
    rx: &mut RingRx<H>,
    ring: &RingBuffer<T>,
    demand: &Demand,
    got: Result<ReclSliceRef, RxError<usize>>,
)
    requires
        ring.wf(),
        call_ensures(RingRx::<H>::try_read::<T>, (rx, ring, demand), got),
    ensures
        got is Ok <==> {
            &&& !ring.state().sending
            &&& held(ring) >= 1
            &&& held(ring) >= low(*demand)
            &&& low(*demand) <= high(*demand)
        },
        got matches Ok(segm) ==> {
            &&& covers_oldest(segm, ring, high(*demand))
            &&& low(*demand) <= segm.take()
            &&& !segm.is_peek()
        },
        got matches Err(e) ==> e == if ring.state().rx_closed {
            RxError::Closing
        } else {
            RxError::Drained(ring.state().rp as usize)
        },
        *final(rx) == *old(rx),
{
    items_between_the_positions(ring);
    super::word::capacity_bound();
    if let Ok(segm) = got {
        shown_from_the_start(&segm, ring);
    }
}

/// A try to write succeeds iff as many unreserved slots are free as the demand asks for at
/// least, and one in any case, and the demand accepts any amount at all; it then gives as
/// many slots as the demand accepts. A refusal tells whether the tx end is closed.
#[verifier::rlimit(40)]
pub proof fn writing_meets_the_demand<H, T>(
    tx: &mut RingTx<H>,
    ring: &RingBuffer<T>,
    demand: &Demand,
    got: Result<ReclSliceMut, TxError<usize>>,
)
    requires
        ring.wf(),
        call_ensures(RingTx::<H>::try_write::<T>, (tx, ring, demand), got),
    ensures
        got is Ok <==> {
            &&& !ring.state().receiving
            &&& room(ring) >= 1
            &&& room(ring) >= low(*demand)
            &&& low(*demand) <= high(*demand)
        },
        got matches Ok(segm) ==> covers_free(segm, ring, high(*demand)) && low(*demand)
            <= segm.take(),
        got matches Err(e) ==> e == if ring.state().tx_closed {
            TxError::Closing
        } else {
            TxError::Stuffed(ring.state().wp as usize)
        },
        *final(tx) == *old(tx),
{
    items_between_the_positions(ring);
    super::word::capacity_bound();
}

/// Borrowing at most a number of items, at most a number of slots, or all items to look at,
/// succeeds iff there is one that nobody has reserved.
#[verifier::rlimit(40)]
pub proof fn borrowing_takes_what_there_is<H, T>(
    rx: &mut RingRx<H>,
    tx: &mut RingTx<H>,
    ring: &RingBuffer<T>,
    length: usize,
    read: Result<ReclSliceRef, RxError<usize>>,
    peeked: Result<ReclPeekRef, RxError<usize>>,
    written: Result<ReclSliceMut, TxError<usize>>,
)
    requires
        ring.wf(),
        call_ensures(RingRx::<H>::try_read_at_most::<T>, (rx, ring, length), read),
        call_ensures(RingRx::<H>::try_peek::<T>, (rx, ring), peeked),
        call_ensures(RingTx::<H>::try_write_at_most::<T>, (tx, ring, length), written),
    ensures
        read is Ok <==> !ring.state().sending && held(ring) >= 1,
        read matches Ok(segm) ==> covers_oldest(segm, ring, length as int) && !segm.is_peek(),
        read matches Err(e) ==> e == if ring.state().rx_closed {
            RxError::Closing
        } else {
            RxError::Drained(ring.state().rp as usize)
        },
        peeked is Ok <==> !ring.state().sending && held(ring) >= 1,
        peeked matches Ok(segm) ==> covers_oldest(segm, ring, held(ring)) && segm.is_peek(),
        peeked matches Err(e) ==> read == Err::<ReclSliceRef, RxError<usize>>(e),
        written is Ok <==> !ring.state().receiving && room(ring) >= 1,
        written matches Ok(segm) ==> covers_free(segm, ring, length as int),
        written matches Err(e) ==> e == if ring.state().tx_closed {
            TxError::Closing
        } else {
            TxError::Stuffed(ring.state().wp as usize)
        },
{
    items_between_the_positions(ring);
    super::word::capacity_bound();
    if let Ok(segm) = read {
        shown_from_the_start(&segm, ring);
    }
    if let Ok(segm) = peeked {
        shown_from_the_start(&segm, ring);
    }
}

/// A read that is polled gives items as soon as the ring holds as many unreserved ones as it
/// asks for at least, and one in any case. With the rx end closed it gives whatever is left,
/// and is refused only when nothing is. A cancelled read gives up; any other waits.
#[verifier::rlimit(40)]
pub proof fn polled_reads_are_served<T>(
    read: &mut ReadFuture,
    ring: &mut RingBuffer<T>,
    waker: usize,
    cancelled: bool,
    ready: Poll<Result<ReclSliceRef, RxError<usize>>>,
)
    requires
        old(ring).wf(),
        call_ensures(ReadFuture::poll::<T>, (read, ring, waker, cancelled), ready),
    ensures
        ({
            let least = old(read).min_len();
            let most = old(read).max_len();
            let served = !old(ring).state().sending && held(old(ring)) >= 1 && (old(
                ring,
            ).state().rx_closed || least <= held(old(ring)) && least <= most);
            let closed = old(ring).state().rx_closed;
            let give_up = old(read).cancellable() && cancelled;
            &&& served <==> (ready matches Poll::Ready(r) && r is Ok)
            &&& ready matches Poll::Ready(Ok(segm)) ==> covers_oldest(
                segm,
                final(ring),
                most as int,
            ) && !segm.is_peek()
            &&& !served && closed <==> (ready matches Poll::Ready(r) && (r matches Err(e) && e
                == RxError::<usize>::Closing))
            &&& !served && !closed && give_up <==> (ready matches Poll::Ready(r) && (r matches Err(
                e,
            ) && e == RxError::Drained(0usize)))
            &&& !served && !closed && !give_up <==> ready is Pending
        }),
        final(ring).contents() == old(ring).contents(),
        final(ring).buf() == old(ring).buf(),
        final(ring).state() == old(ring).state(),
        final(read).min_len() == old(read).min_len(),
        final(read).max_len() == old(read).max_len(),
{
    items_between_the_positions(old(ring));
    super::word::capacity_bound();
    if let Poll::Ready(Ok(segm)) = ready {
        shown_from_the_start(&segm, final(ring));
    }
}

/// A look that is polled shows all items as soon as there is an unreserved one, whether or
/// not the rx end is closed.
#[verifier::rlimit(40)]
pub proof fn polled_looks_are_served<T>(
    look: &mut PeekFuture,
    ring: &mut RingBuffer<T>,
    waker: usize,
    cancelled: bool,
    ready: Poll<Result<ReclPeekRef, RxError<usize>>>,
)
    requires
        old(ring).wf(),
        call_ensures(PeekFuture::poll::<T>, (look, ring, waker, cancelled), ready),
    ensures
        ({
            let served = !old(ring).state().sending && held(old(ring)) >= 1;
            let closed = old(ring).state().rx_closed;
            let give_up = old(look).cancellable() && cancelled;
            &&& served <==> (ready matches Poll::Ready(r) && r is Ok)
            &&& ready matches Poll::Ready(Ok(segm)) ==> covers_oldest(
                segm,
                final(ring),
                held(old(ring)),
            ) && segm.is_peek()
            &&& !served && closed <==> (ready matches Poll::Ready(r) && (r matches Err(e) && e
                == RxError::<usize>::Closing))
            &&& !served && !closed && give_up <==> (ready matches Poll::Ready(r) && (r matches Err(
                e,
            ) && e == RxError::Drained(0usize)))
            &&& !served && !closed && !give_up <==> ready is Pending
        }),
        final(ring).contents() == old(ring).contents(),
        final(ring).buf() == old(ring).buf(),
        final(ring).state() == old(ring).state(),
{
    items_between_the_positions(old(ring));
    super::word::capacity_bound();
    if let Poll::Ready(Ok(segm)) = ready {
        shown_from_the_start(&segm, final(ring));
    }
}

/// A write that is polled gives slots as soon as as many unreserved ones are free as it asks
/// for at least, and one in any case. It is refused only when the tx end is closed and no
/// unreserved slot is free. A cancelled write gives up; any other waits.
#[verifier::rlimit(40)]
pub proof fn polled_writes_are_served<T>(
    write: &mut WriteFuture,
    ring: &mut RingBuffer<T>,
    waker: usize,
    cancelled: bool,
    ready: Poll<Result<ReclSliceMut, TxError<usize>>>,
)
    requires
        old(ring).wf(),
        call_ensures(WriteFuture::poll::<T>, (write, ring, waker, cancelled), ready),
    ensures
        ({
            let least = old(write).min_len();
            let most = old(write).max_len();
            let offered = !old(ring).state().receiving && room(old(ring)) >= 1;
            let served = offered && least <= room(old(ring)) && least <= most;
            let refused = !offered && old(ring).state().tx_closed;
            let give_up = old(write).cancellable() && cancelled;
            &&& served <==> (ready matches Poll::Ready(r) && r is Ok)
            &&& ready matches Poll::Ready(Ok(segm)) ==> covers_free(
                segm,
                final(ring),
                most as int,
            )
            &&& refused <==> (ready matches Poll::Ready(r) && (r matches Err(e) && e
                == TxError::<usize>::Closing))
            &&& !served && !refused && give_up <==> (ready matches Poll::Ready(r) && (r matches Err(
                e,
            ) && e == TxError::Stuffed(0usize)))
            &&& !served && !refused && !give_up <==> ready is Pending
        }),
        final(ring).contents() == old(ring).contents(),
        final(ring).buf() == old(ring).buf(),
        final(ring).state() == old(ring).state(),
        final(write).min_len() == old(write).min_len(),
        final(write).max_len() == old(write).max_len(),
{
    items_between_the_positions(old(ring));
    super::word::capacity_bound();
}

/// The ends may ask at any time: for items or slots under any demand or length.
pub proof fn ends_may_ask_at_any_time<H, T>(
    rx: &mut RingRx<H>,
    tx: &mut RingTx<H>,
    ring: &RingBuffer<T>,
    demand: &Demand,
    length: usize,
)
    requires
        2 <= ring.buf().len() <= super::word::MAX_CAPACITY,
        0 <= ring.state().rp < ring.buf().len(),
        0 <= ring.state().wp < ring.buf().len(),
    ensures
        call_requires(RingBuffer::<T>::try_read_at, (ring, length)),
        call_requires(RingBuffer::<T>::try_write_at, (ring, length)),
        call_requires(RingBuffer::<T>::try_peek_at, (ring,)),
        call_requires(RingRx::<H>::try_read::<T>, (rx, ring, demand)),
        call_requires(RingRx::<H>::try_read_at_most::<T>, (rx, ring, length)),
        call_requires(RingRx::<H>::try_peek::<T>, (rx, ring)),
        call_requires(RingTx::<H>::try_write::<T>, (tx, ring, demand)),
        call_requires(RingTx::<H>::try_write_at_most::<T>, (tx, ring, length)),
{
}

/// A borrow whose bounds leave it an amount may be polled at any time, cancelled or not, while
/// nobody else waits on its side.
pub proof fn borrows_may_be_polled_at_any_time<T>(
    read: &mut ReadFuture,
    look: &mut PeekFuture,
    write: &mut WriteFuture,
    ring: &mut RingBuffer<T>,
    waker: usize,
    cancelled: bool,
)
    requires
        old(ring).wf(),
        old(read).wf() && old(read).min_len() <= old(read).max_len(),
        old(write).wf() && old(write).min_len() <= old(write).max_len(),
        old(look).wf(),
    ensures
        (old(ring).control().slot(super::demand::ParkSide::RxUser) matches Some(cur) ==> cur.id
            == old(read).park().waiter().id) ==> call_requires(
            ReadFuture::poll::<T>,
            (read, ring, waker, cancelled),
        ),
        (old(ring).control().slot(super::demand::ParkSide::RxUser) matches Some(cur) ==> cur.id
            == old(look).park().waiter().id) ==> call_requires(
            PeekFuture::poll::<T>,
            (look, ring, waker, cancelled),
        ),
        (old(ring).control().slot(super::demand::ParkSide::TxUser) matches Some(cur) ==> cur.id
            == old(write).park().waiter().id) ==> call_requires(
            WriteFuture::poll::<T>,
            (write, ring, waker, cancelled),
        ),
{
}

} // verus!
