//! What the ring tells of itself, and where its slots lie.

use vstd::prelude::*;

use super::demand::Woken;
use super::ring::{RingBuffer, SendSlices};
use super::rx::RingRx;
use super::segment::{ReclSliceMut, ReclSliceRef};
use super::service::{held, room};
use super::tx::RingTx;
use super::word::MAX_CAPACITY;

verus! {

/// The slot that lies `step` slots behind slot `start`, less than one turn on.
pub open spec fn slot_behind(start: int, step: int, cap: int) -> int {
    if start + step < cap {
        start + step
    } else {
        start + step - cap
    }
}

/// A position takes thirty bits of a state word of sixty-four, and fourteen of one of
/// thirty-two.
pub proof fn largest_capacity()
    ensures
        usize::BITS == 64 ==> MAX_CAPACITY == 1073741823,
        usize::BITS == 32 ==> MAX_CAPACITY == 16383,
{
    assert(usize::BITS == 64 ==> super::word::POS_MASK == 1073741823) by (bit_vector);
    assert(usize::BITS == 32 ==> super::word::POS_MASK == 16383) by (bit_vector);
}

/// A ring is made of any buffer of two slots or more, up to the largest capacity. It is empty
/// and open, nobody waits, and its storage comes back.
pub proof fn fresh_rings_are_empty<T>(buffer: Vec<T>, made: Result<RingBuffer<T>, usize>)
    requires
        call_ensures(RingBuffer::<T>::try_new, (buffer,), made),
    ensures
        made is Ok <==> 2 <= buffer@.len() <= MAX_CAPACITY,
        made matches Err(len) ==> len == buffer@.len(),
        made matches Ok(ring) ==> {
            &&& ring.buf() == buffer@
            &&& held(&ring) == 0
            &&& room(&ring) == buffer@.len() - 1
            &&& !ring.state().tx_closed && !ring.state().rx_closed
            &&& !ring.state().sending && !ring.state().receiving
            &&& ring.wf()
            &&& super::waking::nobody_waits(&ring)
        },
{
    if let Ok(ring) = made {
        super::service::items_between_the_positions(&ring);
    }
}

/// The numbers and flags that a ring tells are those of its items and of its state.
pub proof fn rings_tell_the_truth<T>(ring: &RingBuffer<T>, amount: usize, n: usize, is: bool)
    requires
        ring.wf(),
    ensures
        call_ensures(RingBuffer::<T>::capacity, (ring,), n) ==> n == ring.buf().len(),
        call_ensures(RingBuffer::<T>::data_size, (ring,), n) ==> n == held(ring),
        call_ensures(RingBuffer::<T>::free_size, (ring,), n) ==> n == room(ring),
        call_ensures(RingBuffer::<T>::reader_pos, (ring,), n) ==> n == ring.state().rp,
        call_ensures(RingBuffer::<T>::writer_pos, (ring,), n) ==> n == ring.state().wp,
        call_ensures(RingBuffer::<T>::is_tx_closed, (ring,), is) ==> is == ring.state().tx_closed,
        call_ensures(RingBuffer::<T>::is_rx_closed, (ring,), is) ==> is == ring.state().rx_closed,
        call_ensures(RingBuffer::<T>::has_tx_space, (ring,), is) || call_ensures(
            RingBuffer::<T>::has_recv_space,
            (ring,),
            is,
        ) ==> is == (room(ring) >= 1 && !ring.state().receiving),
        call_ensures(RingBuffer::<T>::has_tx_data, (ring,), is) ==> is == (held(ring) >= 1
            && !ring.state().sending),
        call_ensures(RingBuffer::<T>::has_free_at_least, (ring, amount), is) ==> is == (room(ring)
            >= amount && !ring.state().receiving),
        call_ensures(RingBuffer::<T>::has_data_at_least, (ring, amount), is) ==> is == (held(ring)
            >= amount && !ring.state().sending),
{
    super::service::items_between_the_positions(ring);
}

/// The halves tell the same. The writer is blocked iff it finds no slot or its end is closed;
/// the reader is done iff nothing is left and its end is closed.
pub proof fn halves_tell_the_truth<H, T>(
    tx: &RingTx<H>,
    rx: &RingRx<H>,
    ring: &RingBuffer<T>,
    n: usize,
    is: bool,
)
    requires
        ring.wf(),
    ensures
        call_ensures(RingTx::<H>::is_blocked_closing::<T>, (tx, ring), is) ==> is == (room(ring)
            == 0 || ring.state().receiving || ring.state().tx_closed),
        call_ensures(RingRx::<H>::is_drained_closing::<T>, (rx, ring), is) ==> is == (held(ring)
            == 0 && ring.state().rx_closed),
        call_ensures(RingTx::<H>::is_closed::<T>, (tx, ring), is) ==> is == ring.state().tx_closed,
        call_ensures(RingRx::<H>::is_closed::<T>, (rx, ring), is) ==> is == ring.state().rx_closed,
        call_ensures(RingTx::<H>::capacity::<T>, (tx, ring), n) ==> n == ring.buf().len(),
        call_ensures(RingRx::<H>::capacity::<T>, (rx, ring), n) ==> n == ring.buf().len(),
        call_ensures(RingTx::<H>::data_size::<T>, (tx, ring), n) ==> n == held(ring),
        call_ensures(RingRx::<H>::data_size::<T>, (rx, ring), n) ==> n == held(ring),
        call_ensures(RingTx::<H>::free_size::<T>, (tx, ring), n) ==> n == room(ring),
{
    super::service::items_between_the_positions(ring);
}

/// Moving the writer on appends the items in the slots that it passes; moving the reader on
/// drops the oldest. The buffer and the flags stay.
#[verifier::rlimit(40)]
pub proof fn advances_move_items<T>(
    writing: &mut RingBuffer<T>,
    reading: &mut RingBuffer<T>,
    amount: usize,
    a: Woken,
    b: Woken,
)
    requires
        old(writing).wf(),
        old(reading).wf(),
        amount <= room(old(writing)),
        amount <= held(old(reading)),
        call_ensures(RingBuffer::<T>::advance_write, (writing, amount), a),
        call_ensures(RingBuffer::<T>::advance_read, (reading, amount), b),
    ensures
        held(final(writing)) == held(old(writing)) + amount,
        forall|i: int|
            0 <= i < held(old(writing)) ==> #[trigger] final(writing).contents()[i] == old(writing).contents()[i],
        forall|i: int|
            0 <= i < amount ==> final(writing).contents()[held(old(writing)) + i] == old(writing).buf()[#[trigger] slot_behind(
            old(writing).state().wp, i, old(writing).buf().len() as int)],
        final(writing).buf() == old(writing).buf(),
        final(writing).state().rp == old(writing).state().rp,
        final(writing).state().tx_closed == old(writing).state().tx_closed,
        final(writing).state().rx_closed == old(writing).state().rx_closed,
        final(writing).state().sending == old(writing).state().sending,
        final(writing).state().receiving == old(writing).state().receiving,
        final(reading).contents() == old(reading).contents().subrange(
            amount as int,
            held(old(reading)),
        ),
        final(reading).buf() == old(reading).buf(),
        final(reading).state().wp == old(reading).state().wp,
        final(reading).state().tx_closed == old(reading).state().tx_closed,
        final(reading).state().rx_closed == old(reading).state().rx_closed,
        final(reading).state().sending == old(reading).state().sending,
        final(reading).state().receiving == old(reading).state().receiving,
{
    let cap = old(writing).buf().len() as int;
    assert forall|i: int| 0 <= i < amount implies final(writing).contents()[held(old(writing)) + i]
        == old(writing).buf()[#[trigger] slot_behind(old(writing).state().wp, i, cap)] by {
        super::arith::one_turn(old(writing).state().wp + i, cap);
    }
    assert(old(reading).contents().skip(amount as int) =~= old(reading).contents().subrange(
        amount as int,
        held(old(reading)),
    ));
}

/// The two slices of a region are its slots in ring order; the first ends with the region or
/// at the end of the buffer.
pub proof fn slices_lie_in_ring_order<'a, T>(
    ring: &'a RingBuffer<T>,
    start: usize,
    len: usize,
    slices: SendSlices<'a, T>,
)
    requires
        start < ring.buf().len(),
        len <= ring.buf().len(),
        call_ensures(RingBuffer::<T>::readable_slices_, (ring, start, len), slices),
    ensures
        slices.0@.len() + slices.1@.len() == len,
        slices.0@.len() == len || slices.0@.len() == ring.buf().len() - start,
        forall|i: int|
            0 <= i < slices.0@.len() ==> #[trigger] slices.0@[i] == ring.buf()[start + i],
        forall|i: int| 0 <= i < slices.1@.len() ==> #[trigger] slices.1@[i] == ring.buf()[i],
{
    let cap = ring.buf().len() as int;
    let all = slices.0@ + slices.1@;
    assert(all.len() == len);
    assert forall|i: int| 0 <= i < slices.0@.len() implies #[trigger] slices.0@[i] == ring.buf()[start
        + i] by {
        assert(all[i] == slices.0@[i]);
        super::arith::one_turn(start + i, cap);
    }
    assert forall|i: int| 0 <= i < slices.1@.len() implies #[trigger] slices.1@[i]
        == ring.buf()[i] by {
        assert(all[slices.0@.len() + i] == slices.1@[i]);
        super::arith::one_turn(start + slices.0@.len() + i, cap);
    }
}

/// What is written to the current piece of a write segment lands in the slots of that piece,
/// and nowhere else.
#[verifier::rlimit(40)]
pub proof fn pieces_are_filled_in_place<'a, T>(
    segm: &ReclSliceMut,
    ring: &'a mut RingBuffer<T>,
    piece: &'a mut [T],
)
    requires
        segm.claims(old(ring)),
        final(piece)@.len() == old(piece)@.len(),
        call_ensures(ReclSliceMut::as_segm_mut::<T>, (segm, ring), piece),
    ensures
        ({
            let cap = old(ring).buf().len() as int;
            let next = slot_behind(segm.start(), segm.offset(), cap);
            let left = segm.take() - segm.offset();
            let len = old(piece)@.len() as int;
            &&& len <= left && next + len <= cap && (len == left || next + len == cap)
            &&& final(ring).buf().len() == cap
            &&& forall|p: int|
                0 <= p < cap ==> #[trigger] final(ring).buf()[p] == if next <= p < next + len {
                    final(piece)@[p - next]
                } else {
                    old(ring).buf()[p]
                }
            &&& final(ring).state() == old(ring).state()
            &&& final(ring).contents() == old(ring).contents()
        }),
{
    let cap = old(ring).buf().len() as int;
    let next = slot_behind(segm.start(), segm.offset(), cap);
    let len = old(piece)@.len() as int;
    super::service::items_between_the_positions(old(ring));
    super::arith::one_turn(segm.start() + segm.offset(), cap);
    assert forall|p: int| 0 <= p < cap implies #[trigger] final(ring).buf()[p] == if next <= p < next
        + len {
        final(piece)@[p - next]
    } else {
        old(ring).buf()[p]
    } by {
        super::arith::distance(p - next, cap);
    }
    super::service::items_between_the_positions(final(ring));
    assert forall|i: int| 0 <= i < held(old(ring)) implies final(ring).contents()[i] == old(ring).contents()[i] by {
    }
    assert(final(ring).contents() =~= old(ring).contents());
}

/// A segment counts what went through it: each item that is counted is one less that is left,
/// until none is left.
pub proof fn segments_count(
    write: &mut ReclSliceMut,
    read: &mut ReclSliceRef,
    amount: usize,
    before: usize,
    after: usize,
    none_left: bool,
)
    requires
        old(write).offset() <= old(write).take(),
        old(read).offset() <= old(read).take(),
    ensures
        call_ensures(ReclSliceMut::least_count, (old(write),), before) && call_ensures(
            ReclSliceMut::consume,
            (write, amount),
            (),
        ) && call_ensures(ReclSliceMut::least_count, (final(write),), after) ==> after == before
            - amount && final(write).start() == old(write).start() && final(write).take() == old(write).take(),
        call_ensures(ReclSliceMut::least_count, (final(write),), after) && call_ensures(
            ReclSliceMut::is_empty,
            (final(write),),
            none_left,
        ) ==> none_left == (after == 0),
        call_ensures(ReclSliceRef::least_count, (old(read),), before) && call_ensures(
            ReclSliceRef::consume,
            (read, amount),
            (),
        ) && call_ensures(ReclSliceRef::least_count, (final(read),), after) ==> after == before
            - amount && final(read).start() == old(read).start() && final(read).take() == old(read).take() && final(read).is_peek() == old(read).is_peek(),
        call_ensures(ReclSliceRef::least_count, (final(read),), after) && call_ensures(
            ReclSliceRef::is_empty,
            (final(read),),
            none_left,
        ) ==> none_left == (after == 0),
{
}

/// A shared ring is split iff its caller holds the only reference to it: one strong reference
/// and no weak one. Otherwise the handle comes back. Of the two halves, one has the handle and
/// the other a clone of it; nobody waits by either.
pub proof fn sole_owners_split<T, S: Clone, F: Fn(&S) -> usize, G: Fn(&S) -> usize>(
    ring_buff: S,
    strong: F,
    weak: G,
    strong_refs: usize,
    weak_refs: usize,
    halves: Result<(RingTx<S>, RingRx<S>), S>,
)
    requires
        forall|n: usize| call_ensures(strong, (&ring_buff,), n) ==> n == strong_refs,
        forall|n: usize| call_ensures(weak, (&ring_buff,), n) ==> n == weak_refs,
        call_ensures(RingBuffer::<T>::try_split_shared, (ring_buff, strong, weak), halves),
    ensures
        halves is Ok <==> strong_refs == 1 && weak_refs == 0,
        halves matches Err(back) ==> back == ring_buff,
        halves matches Ok((tx, rx)) ==> {
            &&& cloned(ring_buff, tx.handle())
            &&& rx.handle() == ring_buff
            &&& tx.parked().waker is None
            &&& rx.parked().waker is None
        },
{
}

/// One half alone is split off iff there is one strong reference.
pub proof fn sole_owners_split_off_a_half<T, S, F: Fn(&S) -> usize>(
    ring_buff: S,
    strong: F,
    strong_refs: usize,
    writer: Result<RingTx<S>, S>,
    reader: Result<RingRx<S>, S>,
)
    requires
        forall|n: usize| call_ensures(strong, (&ring_buff,), n) ==> n == strong_refs,
        call_ensures(RingBuffer::<T>::try_split_shared_tx, (ring_buff, strong), writer),
        call_ensures(RingBuffer::<T>::try_split_shared_rx, (ring_buff, strong), reader),
    ensures
        writer is Ok <==> strong_refs == 1,
        reader is Ok <==> strong_refs == 1,
        writer matches Ok(tx) ==> tx.handle() == ring_buff && tx.parked().waker is None,
        reader matches Ok(rx) ==> rx.handle() == ring_buff && rx.parked().waker is None,
        writer matches Err(back) ==> back == ring_buff,
        reader matches Err(back) ==> back == ring_buff,
{
}

} // verus!
