//! What moves through a ring: which items a step takes or brings, and what is left after it.

use vstd::prelude::*;

use super::adapter::{BrokenPipe, ReadStep, WriteStep};
use super::amount::Demand;
use super::demand::{ParkSide, Woken};
use super::futures::ParkFuture;
use super::park::{ParkCheck, Poll};
use super::ring::{RecvSlices, RingBuffer, SendSlices};
use super::rx::RingRx;
use super::segment::{ReclSliceMut, ReclSliceRef};
use super::tx::RingTx;

verus! {

/// `n` is the least of the three numbers.
pub open spec fn least_of_three(n: int, a: int, b: int, c: int) -> bool {
    &&& n <= a && n <= b && n <= c
    &&& n == a || n == b || n == c
}

/// `n` is the lesser of the two numbers.
pub open spec fn least_of_two(n: int, a: int, b: int) -> bool {
    &&& n <= a && n <= b
    &&& n == a || n == b
}

/// The oldest `n` items have left the ring for the front of the destination; the others, and
/// the rest of the destination, are as they were.
pub open spec fn oldest_moved(
    before: &RingBuffer<u8>,
    after: &RingBuffer<u8>,
    dst_before: Seq<u8>,
    dst_after: Seq<u8>,
    n: int,
) -> bool {
    &&& dst_after.len() == dst_before.len()
    &&& forall|i: int| 0 <= i < n ==> #[trigger] dst_after[i] == before.contents()[i]
    &&& forall|i: int| n <= i < dst_before.len() ==> #[trigger] dst_after[i] == dst_before[i]
    &&& before.contents() == before.contents().take(n) + after.contents()
}

proof fn split_in_two(items: Seq<u8>, n: int)
    requires
        0 <= n <= items.len(),
    ensures
        items.take(n) + items.skip(n) == items,
{
    assert(items.take(n) + items.skip(n) =~= items);
}

/// A read step into a destination with room, on a ring that holds unreserved items, takes at
/// least one: as many as there are, fit, and lie before the end of the buffer. Any other step
/// takes nothing, and meets the end of the stream iff the rx end is closed.
#[verifier::rlimit(40)]
pub proof fn read_steps_progress<H>(
    rx: &mut RingRx<H>,
    ring: &mut RingBuffer<u8>,
    dst: &mut [u8],
    step: ReadStep,
)
    requires
        old(ring).wf(),
        call_ensures(RingRx::<H>::read, (rx, ring, dst), step),
    ensures
        ({
            let held = old(ring).contents().len() as int;
            let moves = old(dst)@.len() > 0 && held > 0 && !old(ring).state().sending;
            &&& step is Moved <==> moves
            &&& step matches ReadStep::Moved(n, woken) ==> {
                &&& n >= 1
                &&& least_of_three(
                    n as int,
                    old(dst)@.len() as int,
                    held,
                    old(ring).buf().len() - old(ring).state().rp,
                )
                &&& oldest_moved(old(ring), final(ring), old(dst)@, final(dst)@, n as int)
                &&& woken == old(ring).control().wakers()
            }
            &&& !moves ==> {
                &&& step is Eof <==> old(ring).state().rx_closed
                &&& step is Wait <==> !old(ring).state().rx_closed
                &&& final(dst)@ == old(dst)@
                &&& *final(ring) == *old(ring)
            }
            &&& step matches ReadStep::Wait(side, check, _) ==> side == ParkSide::RxUser && check
                == ParkCheck::RxReadable
        }),
        *final(rx) == *old(rx),
{
    super::service::items_between_the_positions(old(ring));
    super::word::capacity_bound();
    if let ReadStep::Moved(n, _) = step {
        split_in_two(old(ring).contents(), n as int);
    }
}

/// A polled read of a ring that holds unreserved items takes as many as there are, fit, and
/// lie before the end of the buffer: at least one, if the destination has room. It meets the
/// end of the stream iff the rx end is closed and nothing can be read; otherwise it waits.
#[verifier::rlimit(40)]
pub proof fn polled_read_steps_progress<H>(
    rx: &mut RingRx<H>,
    ring: &mut RingBuffer<u8>,
    waker: usize,
    dst: &mut [u8],
    ready: Poll<Option<(usize, Woken)>>,
)
    requires
        old(ring).wf(),
        call_ensures(RingRx::<H>::poll_read, (rx, ring, waker, dst), ready),
    ensures
        ({
            let held = old(ring).contents().len() as int;
            let moves = held > 0 && !old(ring).state().sending;
            &&& moves <==> (ready matches Poll::Ready(r) && r is Some)
            &&& ready matches Poll::Ready(Some((n, woken))) ==> {
                &&& old(dst)@.len() > 0 ==> n >= 1
                &&& least_of_three(
                    n as int,
                    old(dst)@.len() as int,
                    held,
                    old(ring).buf().len() - old(ring).state().rp,
                )
                &&& oldest_moved(old(ring), final(ring), old(dst)@, final(dst)@, n as int)
                &&& woken == old(ring).control().wakers()
            }
            &&& !moves && old(ring).state().rx_closed <==> (ready matches Poll::Ready(r) && r
                is None)
            &&& !moves && !old(ring).state().rx_closed <==> ready is Pending
            &&& !moves ==> {
                &&& final(dst)@ == old(dst)@
                &&& final(ring).contents() == old(ring).contents()
                &&& final(ring).state() == old(ring).state()
            }
        }),
{
    super::service::items_between_the_positions(old(ring));
    super::word::capacity_bound();
    if let Poll::Ready(Some((n, _))) = ready {
        split_in_two(old(ring).contents(), n as int);
    }
}

/// A write step with something to write, on a ring with unreserved room, brings at least one
/// item: as many as are offered, fit, and lie before the end of the buffer. They come behind
/// the items of the ring. Any other step brings nothing: it has nothing to write, meets a
/// closed tx end, or waits.
#[verifier::rlimit(40)]
pub proof fn write_steps_progress<H>(
    tx: &mut RingTx<H>,
    ring: &mut RingBuffer<u8>,
    src: &[u8],
    step: WriteStep,
)
    requires
        old(ring).wf(),
        call_ensures(RingTx::<H>::write, (tx, ring, src), step),
    ensures
        ({
            let room = old(ring).buf().len() - 1 - old(ring).contents().len();
            let fits = room > 0 && !old(ring).state().receiving;
            &&& step is Moved <==> src@.len() > 0 && fits
            &&& step matches WriteStep::Moved(n, woken) ==> {
                &&& n >= 1
                &&& least_of_three(
                    n as int,
                    src@.len() as int,
                    room,
                    old(ring).buf().len() - old(ring).state().wp,
                )
                &&& final(ring).contents() == old(ring).contents() + src@.take(n as int)
                &&& woken == old(ring).control().wakers()
            }
            &&& step is Nothing <==> src@.len() == 0
            &&& step is Broken <==> src@.len() > 0 && !fits && old(ring).state().tx_closed
            &&& step is Wait <==> src@.len() > 0 && !fits && !old(ring).state().tx_closed
            &&& !(step is Moved) ==> *final(ring) == *old(ring)
            &&& step matches WriteStep::Wait(side, check, _) ==> side == ParkSide::TxUser && check
                == ParkCheck::TxWritable
        }),
        *final(tx) == *old(tx),
{
    super::service::items_between_the_positions(old(ring));
    super::word::capacity_bound();
}

/// A polled write to a ring with unreserved room brings as many items as are offered, fit,
/// and lie before the end of the buffer. It is refused iff the tx end is closed and there is
/// no such room; otherwise it waits.
#[verifier::rlimit(40)]
pub proof fn polled_write_steps_progress<H>(
    tx: &mut RingTx<H>,
    ring: &mut RingBuffer<u8>,
    waker: usize,
    src: &[u8],
    ready: Poll<Result<(usize, Woken), BrokenPipe>>,
)
    requires
        old(ring).wf(),
        call_ensures(RingTx::<H>::poll_write, (tx, ring, waker, src), ready),
    ensures
        ({
            let room = old(ring).buf().len() - 1 - old(ring).contents().len();
            let fits = room > 0 && !old(ring).state().receiving;
            &&& fits <==> (ready matches Poll::Ready(r) && r is Ok)
            &&& ready matches Poll::Ready(Ok((n, woken))) ==> {
                &&& src@.len() > 0 ==> n >= 1
                &&& least_of_three(
                    n as int,
                    src@.len() as int,
                    room,
                    old(ring).buf().len() - old(ring).state().wp,
                )
                &&& final(ring).contents() == old(ring).contents() + src@.take(n as int)
                &&& woken == old(ring).control().wakers()
            }
            &&& !fits && old(ring).state().tx_closed <==> (ready matches Poll::Ready(r) && r
                is Err)
            &&& !fits && !old(ring).state().tx_closed <==> ready is Pending
            &&& !fits ==> {
                &&& final(ring).contents() == old(ring).contents()
                &&& final(ring).state() == old(ring).state()
            }
        }),
{
    super::service::items_between_the_positions(old(ring));
    super::word::capacity_bound();
}

proof fn rest_behind(src: Seq<u8>, whole: Seq<u8>, rest: Seq<u8>, n: int, m: int)
    requires
        0 <= m <= n <= src.len(),
        whole == src.take(n),
        whole == whole.take(m) + rest,
    ensures
        rest == src.subrange(m, n),
        forall|i: int| 0 <= i < n ==> #[trigger] whole[i] == src[i],
{
    assert((whole.take(m) + rest).len() == m + rest.len());
    assert forall|i: int| 0 <= i < rest.len() implies rest[i] == src[m + i] by {
        assert((whole.take(m) + rest)[m + i] == rest[i]);
    }
    assert(rest =~= src.subrange(m, n));
}

/// What a step reads is what a step wrote: bytes that a write brings to an empty ring come
/// out of the next read in the same order, up to what the destination takes, and what does
/// not come out stays.
#[verifier::rlimit(40)]
#[verifier::spinoff_prover]
pub proof fn read_gives_back_what_was_written<H>(
    tx: &mut RingTx<H>,
    rx: &mut RingRx<H>,
    first: &mut RingBuffer<u8>,
    second: &mut RingBuffer<u8>,
    src: &[u8],
    dst: &mut [u8],
    wrote: WriteStep,
    read: ReadStep,
)
    requires
        old(first).wf(),
        old(first).contents().len() == 0,
        !old(first).state().sending,
        !old(first).state().receiving,
        *final(first) == *old(second),
        src@.len() > 0,
        old(dst)@.len() > 0,
        call_ensures(RingTx::<H>::write, (tx, first, src), wrote),
        call_ensures(RingRx::<H>::read, (rx, second, dst), read),
    ensures
        wrote matches WriteStep::Moved(n, _) && (read matches ReadStep::Moved(m, _) && {
            &&& 1 <= m <= n <= src@.len()
            &&& forall|i: int| 0 <= i < m ==> #[trigger] final(dst)@[i] == src@[i]
            &&& final(second).contents() == src@.subrange(m as int, n as int)
        }),
{
    write_steps_progress(tx, first, src, wrote);
    read_steps_progress(rx, second, dst, read);
    let n = wrote->Moved_0;
    let m = read->Moved_0;
    assert(old(second).contents() =~= src@.take(n as int));
    rest_behind(src@, old(second).contents(), final(second).contents(), n as int, m as int);
}

/// The condition that a parked task waits for, said of the items of the ring.
pub open spec fn awaited<T>(check: ParkCheck, ring: &RingBuffer<T>, least: int) -> bool {
    let held = ring.contents().len() as int;
    let room = ring.buf().len() - 1 - held;
    let state = ring.state();
    match check {
        ParkCheck::TxWritable => room >= 1 && !state.receiving,
        ParkCheck::TxIdle => room >= 1 && !state.receiving || state.tx_closed,
        ParkCheck::TxWritableAtLeast => room >= 1 && room >= least && !state.receiving,
        ParkCheck::RxReadable | ParkCheck::RxPeekable => held >= 1 && !state.sending
            || state.rx_closed,
        ParkCheck::RxReadableAtLeast => held >= 1 && held >= least && !state.sending
            || state.rx_closed,
        ParkCheck::TxFlushed => held >= 1 && !state.sending || state.tx_closed,
        ParkCheck::RxIdle => room >= 1 && !state.receiving || state.rx_closed,
    }
}

/// A wait that is polled is over iff what it waits for has come, or the end on which it waits
/// is closed; it changes neither the items nor the state.
pub proof fn waits_end_when_due<T>(
    wait: &mut ParkFuture,
    ring: &mut RingBuffer<T>,
    waker: usize,
    ready: Poll<()>,
)
    requires
        old(ring).wf(),
        call_ensures(ParkFuture::poll::<T>, (wait, ring, waker), ready),
    ensures
        ready is Ready <==> awaited(old(wait).park().condition(), old(ring), old(wait).arg() as int),
        final(ring).contents() == old(ring).contents(),
        final(ring).buf() == old(ring).buf(),
        final(ring).state() == old(ring).state(),
{
    super::service::items_between_the_positions(old(ring));
}

/// A kernel write gets all items of the ring in order, iff there are some and nobody has
/// reserved them; a kernel read gets all free slots likewise. The items stay until the
/// regions are put back.
#[verifier::rlimit(40)]
pub proof fn whole_regions_are_reserved<'a, T>(
    sender: &'a mut RingBuffer<T>,
    receiver: &'a mut RingBuffer<T>,
    sent: Option<SendSlices<'a, T>>,
    received: Option<RecvSlices<'a, T>>,
)
    requires
        old(sender).wf(),
        old(receiver).wf(),
        call_ensures(RingBuffer::<T>::take_send_iovecs, (sender,), sent),
        call_ensures(RingBuffer::<T>::take_recv_iovecs, (receiver,), received),
    ensures
        sent is Some <==> old(sender).contents().len() > 0 && !old(sender).state().sending,
        sent matches Some(s) ==> {
            &&& s.0@ + s.1@ == old(sender).contents()
            &&& s.0@.len() > 0
            &&& final(sender).contents() == old(sender).contents()
            &&& final(sender).state().sending
        },
        sent is None ==> *final(sender) == *old(sender),
        received is Some <==> old(receiver).buf().len() - 1 - old(receiver).contents().len() > 0
            && !old(receiver).state().receiving,
        received matches Some(s) ==> {
            &&& s.0@.len() + s.1@.len() == old(receiver).buf().len() - 1 - old(
                receiver,
            ).contents().len()
            &&& s.0@.len() > 0
            &&& final(receiver).state().receiving
        },
        received is None ==> *final(receiver) == *old(receiver),
{
    super::service::items_between_the_positions(old(sender));
    super::service::items_between_the_positions(old(receiver));
    if let Some(s) = received {
        assert((s.0@ + s.1@).len() == s.0@.len() + s.1@.len());
    }
}

/// A region that is put back is free for the user again; what was sent is gone from the
/// front, what was received stands at the back, and nothing else moved.
pub proof fn regions_come_back<T>(
    sender: &mut RingBuffer<T>,
    receiver: &mut RingBuffer<T>,
    count: usize,
    a: Woken,
    b: Woken,
)
    requires
        old(sender).wf(),
        old(receiver).wf(),
        count <= old(sender).contents().len(),
        count <= old(receiver).buf().len() - 1 - old(receiver).contents().len(),
        call_ensures(RingBuffer::<T>::put_back_send, (sender, count), a),
        call_ensures(RingBuffer::<T>::put_back_recv, (receiver, count), b),
    ensures
        !final(sender).state().sending,
        final(sender).state().receiving == old(sender).state().receiving,
        final(sender).state().tx_closed == old(sender).state().tx_closed,
        final(sender).state().rx_closed == old(sender).state().rx_closed,
        final(sender).contents() == old(sender).contents().subrange(
            count as int,
            old(sender).contents().len() as int,
        ),
        !final(receiver).state().receiving,
        final(receiver).state().sending == old(receiver).state().sending,
        final(receiver).state().tx_closed == old(receiver).state().tx_closed,
        final(receiver).state().rx_closed == old(receiver).state().rx_closed,
        final(receiver).contents().len() == old(receiver).contents().len() + count,
        final(receiver).contents().take(old(receiver).contents().len() as int) == old(
            receiver,
        ).contents(),
{
    assert(old(sender).contents().skip(count as int) =~= old(sender).contents().subrange(
        count as int,
        old(sender).contents().len() as int,
    ));
    assert(final(receiver).contents().take(old(receiver).contents().len() as int) =~= old(
        receiver,
    ).contents());
}

/// Closing an end is for good, closes that end alone, and loses no item.
pub proof fn closing_keeps_the_items<T>(
    tx_ring: &mut RingBuffer<T>,
    rx_ring: &mut RingBuffer<T>,
    a: Woken,
    b: Woken,
)
    requires
        call_ensures(RingBuffer::<T>::close_tx, (tx_ring,), a),
        call_ensures(RingBuffer::<T>::close_rx, (rx_ring,), b),
    ensures
        final(tx_ring).state().tx_closed,
        final(tx_ring).state().rx_closed == old(tx_ring).state().rx_closed,
        final(tx_ring).state().sending == old(tx_ring).state().sending,
        final(tx_ring).state().receiving == old(tx_ring).state().receiving,
        final(tx_ring).contents() == old(tx_ring).contents(),
        final(rx_ring).state().rx_closed,
        final(rx_ring).state().tx_closed == old(rx_ring).state().tx_closed,
        final(rx_ring).state().sending == old(rx_ring).state().sending,
        final(rx_ring).state().receiving == old(rx_ring).state().receiving,
        final(rx_ring).contents() == old(rx_ring).contents(),
{
}

/// Items that are moved into a fresh write segment and committed come behind the items of the
/// ring: as many as are offered and the segment takes.
#[verifier::rlimit(40)]
pub proof fn committed_items_are_appended<T: Copy>(
    segm: &mut ReclSliceMut,
    filling: &mut RingBuffer<T>,
    committing: &mut RingBuffer<T>,
    src: &[T],
    moved: usize,
    woken: Woken,
)
    requires
        old(segm).claims(old(filling)),
        old(segm).offset() == 0,
        *final(filling) == *old(committing),
        call_ensures(ReclSliceMut::move_items_from_buff::<T>, (segm, filling, src), moved),
        call_ensures(ReclSliceMut::commit::<T>, (*final(segm), committing), woken),
    ensures
        least_of_two(moved as int, src@.len() as int, old(segm).take()),
        final(filling).contents() == old(filling).contents(),
        final(committing).contents() == old(filling).contents() + src@.take(moved as int),
{
    assert(old(segm).filled(old(filling)) =~= Seq::<T>::empty());
    assert(Seq::<T>::empty() + src@.take(moved as int) =~= src@.take(moved as int));
}

/// Items that are moved out of a read segment are those of the ring that it has not given
/// yet, in order; they leave the ring when the segment is committed, and stay if it only
/// looks.
#[verifier::rlimit(40)]
pub proof fn consumed_items_leave<T: Copy>(
    segm: &mut ReclSliceRef,
    ring: &RingBuffer<T>,
    committing: &mut RingBuffer<T>,
    dst: &mut [T],
    moved: usize,
    woken: Option<Woken>,
)
    requires
        old(segm).claims(ring),
        *ring == *old(committing),
        call_ensures(ReclSliceRef::move_items_to_buff::<T>, (segm, ring, dst), moved),
        call_ensures(ReclSliceRef::commit::<T>, (*final(segm), committing), woken),
    ensures
        least_of_two(moved as int, old(dst)@.len() as int, old(segm).take() - old(segm).offset()),
        final(dst)@.len() == old(dst)@.len(),
        forall|i: int|
            0 <= i < moved ==> #[trigger] final(dst)@[i] == ring.contents()[old(segm).offset() + i],
        forall|i: int| moved <= i < old(dst)@.len() ==> #[trigger] final(dst)@[i] == old(dst)@[i],
        final(segm).offset() == old(segm).offset() + moved,
        old(segm).is_peek() ==> final(committing).contents() == ring.contents(),
        !old(segm).is_peek() ==> final(committing).contents() == ring.contents().subrange(
            old(segm).offset() + moved,
            ring.contents().len() as int,
        ),
{
    super::laws::read_segment_shows_oldest(old(segm), ring);
    super::service::items_between_the_positions(ring);
    assert(ring.contents().skip(old(segm).offset() + moved) =~= ring.contents().subrange(
        old(segm).offset() + moved,
        ring.contents().len() as int,
    ));
}

/// The slices of a read segment are, one after the other, the items that it has not given
/// yet; its current piece is the front of them, and is empty only when nothing is left.
#[verifier::rlimit(40)]
pub proof fn slices_are_the_rest<'a, T>(
    segm: &ReclSliceRef,
    ring: &'a RingBuffer<T>,
    slices: Vec<&'a [T]>,
    piece: &'a [T],
)
    requires
        segm.claims(ring),
        call_ensures(ReclSliceRef::iter_slices::<T>, (segm, ring), slices),
        call_ensures(ReclSliceRef::as_segm_ref::<T>, (segm, ring), piece),
    ensures
        ({
            let rest = ring.contents().subrange(segm.offset(), segm.take());
            &&& slices@.len() <= 2
            &&& forall|i: int| 0 <= i < slices@.len() ==> (#[trigger] slices@[i])@.len() > 0
            &&& slices@.len() == 0 <==> rest.len() == 0
            &&& slices@.len() == 1 ==> slices@[0]@ == rest
            &&& slices@.len() == 2 ==> slices@[0]@ + slices@[1]@ == rest
            &&& piece@ == (if slices@.len() == 0 {
                Seq::<T>::empty()
            } else {
                slices@[0]@
            })
        }),
{
    super::laws::read_segment_shows_oldest(segm, ring);
    super::service::items_between_the_positions(ring);
    let rest = segm.rest(ring);
    let room = ring.cap() - segm.next();
    super::arith::one_turn(segm.start() + segm.offset(), ring.cap());
    let views = slices@.map_values(|s: &'a [T]| s@);
    assert(forall|i: int| 0 <= i < slices@.len() ==> #[trigger] views[i] == slices@[i]@);
    assert(views.len() == slices@.len());
    if rest.len() > room {
        assert(rest.take(room) + rest.skip(room) =~= rest);
        assert(piece@ =~= rest.take(room));
    } else {
        assert(piece@ =~= rest);
    }
    if slices@.len() > 0 {
        assert(views[0] == slices@[0]@);
    }
    if slices@.len() > 1 {
        assert(views[1] == slices@[1]@);
    }
}

/// A piece is granted iff something is left and the demand accepts an amount that is left: as
/// much of the current piece as the demand accepts.
#[verifier::rlimit(40)]
pub proof fn pieces_meet_the_demand<'a, T>(
    segm: &ReclSliceRef,
    ring: &'a RingBuffer<T>,
    demand: &Demand,
    piece: Option<&'a [T]>,
    current: &'a [T],
)
    requires
        segm.claims(ring),
        call_ensures(ReclSliceRef::take_segm_ref::<T>, (segm, ring, demand), piece),
        call_ensures(ReclSliceRef::as_segm_ref::<T>, (segm, ring), current),
    ensures
        ({
            let left = segm.take() - segm.offset();
            let low = super::service::low(*demand);
            let high = super::service::high(*demand);
            &&& piece is Some <==> left > 0 && low <= left && low <= high
            &&& piece matches Some(p) ==> p@.len() <= high && p@.len() <= current@.len() && (p@.len()
                == high || p@.len() == current@.len()) && p@ == current@.subrange(
                0,
                p@.len() as int,
            )
        }),
{
    super::service::items_between_the_positions(ring);
    super::arith::one_turn(segm.start() + segm.offset(), ring.cap());
    if let Some(p) = piece {
        assert(p@ =~= current@.subrange(0, p@.len() as int));
    }
}

/// Likewise for the slots of a write segment.
#[verifier::rlimit(40)]
pub proof fn free_pieces_meet_the_demand<'a, T>(
    segm: &ReclSliceMut,
    ring: &'a mut RingBuffer<T>,
    demand: &Demand,
    piece: Option<&'a mut [T]>,
)
    requires
        segm.claims(old(ring)),
        call_ensures(ReclSliceMut::take_segm_mut::<T>, (segm, ring, demand), piece),
    ensures
        ({
            let left = segm.take() - segm.offset();
            let low = super::service::low(*demand);
            let high = super::service::high(*demand);
            let before_end = if segm.start() + segm.offset() < old(ring).buf().len() {
                old(ring).buf().len() - (segm.start() + segm.offset())
            } else {
                2 * old(ring).buf().len() - (segm.start() + segm.offset())
            };
            &&& piece is Some <==> left > 0 && low <= left && low <= high
            &&& piece matches Some(p) ==> least_of_three(p@.len() as int, high, left, before_end)
            &&& piece is None ==> *final(ring) == *old(ring)
        }),
{
    super::service::items_between_the_positions(old(ring));
    super::arith::one_turn(segm.start() + segm.offset(), old(ring).cap());
}

/// Two demands agree on exactly the amounts that both accept, and disagree iff there is none.
pub proof fn compromise_is_what_both_accept(
    one: &Demand,
    other: &Demand,
    agreement: Option<Demand>,
    amount: usize,
)
    requires
        call_ensures(Demand::compromise, (one, other), agreement),
    ensures
        ({
            let both = super::service::low(*one) <= amount <= super::service::high(*one)
                && super::service::low(*other) <= amount <= super::service::high(*other);
            &&& agreement matches Some(common) ==> (super::service::low(common) <= amount
                <= super::service::high(common) <==> both)
            &&& agreement matches Some(common) ==> super::service::low(common)
                <= super::service::high(common)
            &&& agreement is None ==> !both
        }),
{
}

/// A demand asks for what it was made of.
pub proof fn demands_ask_for_their_bounds(n: usize, m: usize, a: Demand, b: Demand, c: Demand)
    requires
        call_ensures(Demand::at_least, (n,), a),
        call_ensures(Demand::less_than, (n,), b),
        call_ensures(Demand::between, (n, m), c),
    ensures
        super::service::low(a) == n && super::service::high(a) == usize::MAX,
        super::service::low(b) == 0 && super::service::high(b) == n,
        super::service::low(c) == n && super::service::high(c) == m,
        a.at_least_len() == n && a.at_most_len() == usize::MAX,
        b.at_least_len() == 0 && b.at_most_len() == n,
        c.at_least_len() == n && c.at_most_len() == m,
{
}

/// The slices of a write segment are, one after the other, the slots that it has not filled
/// yet: none of them is empty, and the first ends with them or at the end of the buffer.
#[verifier::rlimit(40)]
pub proof fn free_slices_are_the_rest<'a, T>(
    segm: &ReclSliceMut,
    ring: &'a mut RingBuffer<T>,
    slices: Vec<&'a mut [T]>,
)
    requires
        segm.claims(old(ring)),
        call_ensures(ReclSliceMut::iter_slices_mut::<T>, (segm, ring), slices),
    ensures
        ({
            let left = segm.take() - segm.offset();
            let cap = old(ring).buf().len() as int;
            let next = super::sizes::slot_behind(segm.start(), segm.offset(), cap);
            &&& slices@.len() == if left == 0 {
                0int
            } else if left <= cap - next {
                1int
            } else {
                2int
            }
            &&& slices@.len() == 1 ==> slices@[0]@ == old(ring).buf().subrange(next, next + left)
            &&& slices@.len() == 2 ==> slices@[0]@ == old(ring).buf().subrange(next, cap)
                && slices@[1]@ == old(ring).buf().subrange(0, left - (cap - next))
            &&& final(ring).state() == old(ring).state()
        }),
{
    let left = segm.take() - segm.offset();
    let cap = old(ring).buf().len() as int;
    super::service::items_between_the_positions(old(ring));
    super::arith::one_turn(segm.start() + segm.offset(), cap);
    let next = segm.next();
    let room = cap - next;
    let rest = super::region::region(old(ring).buf(), next, left);
    let views = slices@.map_values(|s: &'a mut [T]| s@);
    assert(views.len() == slices@.len());
    assert forall|i: int| 0 <= i < left implies #[trigger] rest[i] == old(ring).buf()[if next + i
        < cap {
        next + i
    } else {
        next + i - cap
    }] by {
        super::arith::one_turn(next + i, cap);
    }
    if left > 0 && left <= room {
        assert(views[0] == slices@[0]@);
        assert(rest =~= old(ring).buf().subrange(next, next + left));
    } else if left > room {
        assert(views[0] == slices@[0]@ && views[1] == slices@[1]@);
        assert(rest.take(room) =~= old(ring).buf().subrange(next, cap));
        assert(rest.skip(room) =~= old(ring).buf().subrange(0, left - room));
    }
}

/// Bytes may be read and written at any time; a polled stream may wait while nobody else waits
/// on its side.
pub proof fn streams_may_be_used_at_any_time<H>(
    rx: &mut RingRx<H>,
    tx: &mut RingTx<H>,
    ring: &mut RingBuffer<u8>,
    waker: usize,
    dst: &mut [u8],
    src: &[u8],
)
    requires
        old(ring).wf(),
    ensures
        call_requires(RingRx::<H>::read, (rx, ring, dst)),
        call_requires(RingTx::<H>::write, (tx, ring, src)),
        (old(ring).control().slot(ParkSide::RxUser) matches Some(cur) ==> cur.id == old(
            rx).parked().id) ==> call_requires(RingRx::<H>::poll_read, (rx, ring, waker, dst)),
        (old(ring).control().slot(ParkSide::TxUser) matches Some(cur) ==> cur.id == old(
            tx).parked().id) ==> call_requires(RingTx::<H>::poll_write, (tx, ring, waker, src)),
{
}

} // verus!
