//! What holds of every ring, every segment and every waiting task.

use vstd::assert_by_contradiction;
use vstd::prelude::*;

use super::demand::{ParkSide, Waiter, Woken};
use super::errors::{RxError, TxError};
use super::park::{ParkCheck, Poll};
use super::ring::RingBuffer;
use super::segment::{ReclSliceMut, ReclSliceRef};

verus! {

/// Buffered items and free slots fill the buffer up to the one slot that stays
/// unused. The ring is empty iff both positions agree, and full iff the writer
/// position is immediately behind the reader position.
pub proof fn sizes_add_up<T>(ring: &RingBuffer<T>)
    requires
        ring.wf(),
    ensures
        ring.data() + ring.free() == ring.cap() - 1,
        0 <= ring.data() < ring.cap(),
        0 <= ring.free() < ring.cap(),
        ring.contents().len() == ring.data(),
        ring.data() == 0 <==> ring.state().wp == ring.state().rp,
        ring.free() == 0 <==> (ring.state().wp + 1) % ring.cap() == ring.state().rp,
{
    super::arith::distance(ring.state().wp - ring.state().rp, ring.cap());
    super::arith::one_turn(ring.state().wp + 1, ring.cap());
}

/// An advance of the writer and an advance of the reader give the same state in
/// either order.
pub proof fn ends_commute(state: super::word::RingState, cap: int, written: int, read: int)
    ensures
        state.after_write(cap, written).after_read(cap, read) == state.after_read(
            cap,
            read,
        ).after_write(cap, written),
{
}

/// Two advances of one end are one advance by the sum.
pub proof fn advances_add_up(state: super::word::RingState, cap: int, n: int, m: int)
    requires
        0 < cap,
    ensures
        state.after_write(cap, n).after_write(cap, m) == state.after_write(cap, n + m),
        state.after_read(cap, n).after_read(cap, m) == state.after_read(cap, n + m),
{
    vstd::arithmetic::div_mod::lemma_add_mod_noop(state.wp + n, m, cap);
    vstd::arithmetic::div_mod::lemma_add_mod_noop((state.wp + n) % cap, m, cap);
    vstd::arithmetic::div_mod::lemma_mod_twice(state.wp + n, cap);
    vstd::arithmetic::div_mod::lemma_add_mod_noop(state.rp + n, m, cap);
    vstd::arithmetic::div_mod::lemma_add_mod_noop((state.rp + n) % cap, m, cap);
    vstd::arithmetic::div_mod::lemma_mod_twice(state.rp + n, cap);
}

/// A closed end stays closed, and a reservation stays in place, whatever the other
/// operations of the user ends do to the positions.
pub proof fn flags_outlast_advances(state: super::word::RingState, cap: int, n: int)
    ensures
        ({
            let written = state.after_write(cap, n);
            let read = state.after_read(cap, n);
            &&& written.tx_closed == state.tx_closed && written.rx_closed == state.rx_closed
            &&& written.sending == state.sending && written.receiving == state.receiving
            &&& read.tx_closed == state.tx_closed && read.rx_closed == state.rx_closed
            &&& read.sending == state.sending && read.receiving == state.receiving
        }),
{
}

/// A reservation blocks the user end of its region, whatever length is asked for.
pub proof fn reservation_blocks_user<T>(ring: &RingBuffer<T>, length: usize)
    ensures
        ring.state().sending ==> ring.read_offer(length) is Err && ring.peek_offer() is Err,
        ring.state().receiving ==> ring.write_offer(length) is Err,
{
}

/// A full ring refuses writes and an empty ring refuses reads; closing an end only
/// shows once its region is used up.
pub proof fn errors_mean_no_region<T>(ring: &RingBuffer<T>, length: usize)
    ensures
        ring.write_offer(length) is Ok <==> ring.free() > 0 && !ring.state().receiving,
        ring.write_offer(length) == Err::<(usize, usize), TxError<usize>>(TxError::Closing) <==>
            ring.write_offer(length) is Err && ring.state().tx_closed,
        ring.read_offer(length) is Ok <==> ring.data() > 0 && !ring.state().sending,
        ring.read_offer(length) == Err::<(usize, usize), RxError<usize>>(RxError::Closing) <==>
            ring.read_offer(length) is Err && ring.state().rx_closed,
{
}

/// A reservation that is returned with `n` sent items advances the reader by `n` and
/// changes nothing else; likewise for received items and the writer.
pub proof fn reservations_return(state: super::word::RingState, cap: int, n: int)
    ensures
        !state.sending ==> (super::word::RingState {
            sending: false,
            ..(super::word::RingState { sending: true, ..state }).after_read(cap, n)
        }) == state.after_read(cap, n),
        !state.receiving ==> (super::word::RingState {
            receiving: false,
            ..(super::word::RingState { receiving: true, ..state }).after_write(cap, n)
        }) == state.after_write(cap, n),
{
}

/// A read segment shows the oldest items of its ring, in order.
pub proof fn read_segment_shows_oldest<T>(segm: &ReclSliceRef, ring: &RingBuffer<T>)
    requires
        segm.claims(ring),
    ensures
        segm.rest(ring) == ring.contents().subrange(segm.offset(), segm.take()),
{
    let cap = ring.cap();
    super::arith::distance(ring.state().wp - ring.state().rp, cap);
    super::arith::one_turn(segm.start() + segm.offset(), cap);
    let rest = segm.rest(ring);
    let shown = ring.contents().subrange(segm.offset(), segm.take());
    assert forall|i: int| 0 <= i < rest.len() implies rest[i] == shown[i] by {
        super::arith::one_turn(segm.next() + i, cap);
        super::arith::one_turn(segm.start() + segm.offset() + i, cap);
    }
    assert(rest =~= shown);
}

/// A write segment stays valid while the reader takes items, and what was filled
/// through it stays filled.
pub proof fn write_claim_survives_reader<T>(
    segm: &ReclSliceMut,
    before: &RingBuffer<T>,
    after: &RingBuffer<T>,
    read: int,
)
    requires
        segm.claims(before),
        0 <= read <= before.data(),
        after.buf() == before.buf(),
        after.state() == before.state().after_read(before.cap(), read),
    ensures
        segm.claims(after),
        segm.filled(after) == segm.filled(before),
{
    super::region::read_contents(before.buf(), before.state(), read);
}

/// A read segment stays valid while the writer hands items over, and it shows the same
/// items.
pub proof fn read_claim_survives_writer<T>(
    segm: &ReclSliceRef,
    before: &RingBuffer<T>,
    after: &RingBuffer<T>,
    written: int,
)
    requires
        segm.claims(before),
        0 <= written <= before.free(),
        after.buf() == before.buf(),
        after.state() == before.state().after_write(before.cap(), written),
    ensures
        segm.claims(after),
        segm.rest(after) == segm.rest(before),
{
    super::region::written_contents(before.buf(), before.state(), written);
}

/// A read segment stays valid while the writer fills free slots, and it shows the same
/// items.
pub proof fn read_claim_survives_filling<T>(
    segm: &ReclSliceRef,
    before: &RingBuffer<T>,
    after: &RingBuffer<T>,
    gap: int,
    items: Seq<T>,
)
    requires
        segm.claims(before),
        0 <= gap,
        gap + items.len() <= before.free(),
        after.control() == before.control(),
        after.buf() == super::region::overlaid(
            before.buf(),
            super::region::wrapped(before.state().wp, gap, before.cap()),
            items,
        ),
    ensures
        segm.claims(after),
        segm.rest(after) == segm.rest(before),
        after.contents() == before.contents(),
{
    let cap = before.cap();
    let rp = before.state().rp;
    let data = before.data();
    let at = super::region::wrapped(before.state().wp, gap, cap);
    super::arith::distance(before.state().wp - rp, cap);
    super::arith::one_turn(before.state().wp + gap, cap);
    super::arith::one_turn(rp + (data + gap), cap);
    if items.len() > 0 {
        super::region::region_kept(before.buf(), rp, data, data + gap, items);
    } else {
        super::region::overlaid_nothing(before.buf(), at, items);
    }
    read_segment_shows_oldest(segm, before);
    read_segment_shows_oldest(segm, after);
}

/// A finished write gives at least as many slots as it asked for and no more than it
/// takes.
pub proof fn write_honours_demand<T>(
    ring: &RingBuffer<T>,
    min_len: usize,
    max_len: usize,
    cancelled: bool,
)
    requires
        ring.wf(),
    ensures
        super::futures::write_outcome(ring, min_len, max_len, cancelled) matches Poll::Ready(Ok((start, take)))
            ==> min_len <= take <= max_len && start == ring.state().wp && take <= ring.free(),
        super::futures::write_outcome(ring, min_len, max_len, cancelled) is Pending && min_len
            <= max_len ==> !ParkCheck::TxWritableAtLeast.holds(ring, min_len),
{
    sizes_add_up(ring);
}

/// A finished read gives at least as many items as it asked for, unless the rx end is
/// closed, and no more than it takes.
pub proof fn read_honours_demand<T>(
    ring: &RingBuffer<T>,
    min_len: usize,
    max_len: usize,
    cancelled: bool,
)
    requires
        ring.wf(),
    ensures
        super::futures::read_outcome(ring, min_len, max_len, cancelled) matches Poll::Ready(Ok((start, take)))
            ==> (min_len <= take || ring.state().rx_closed) && take <= max_len && start
            == ring.state().rp && take <= ring.data(),
        super::futures::read_outcome(ring, min_len, max_len, cancelled) is Pending && min_len
            <= max_len ==> !ParkCheck::RxReadableAtLeast.holds(ring, min_len),
{
    sizes_add_up(ring);
}

/// The waker that a record names for a side.
pub open spec fn called(woken: Woken, side: ParkSide) -> Option<usize> {
    match side {
        ParkSide::TxUser => woken.tx_user,
        ParkSide::TxRuntime => woken.tx_runtime,
        ParkSide::RxUser => woken.rx_user,
        ParkSide::RxRuntime => woken.rx_runtime,
    }
}

/// Every parked task is called by the next state change.
pub proof fn parked_tasks_are_called<T>(ring: &RingBuffer<T>, side: ParkSide, waiter: Waiter)
    requires
        ring.control().slot(side) == Some(waiter),
    ensures
        called(ring.control().wakers(), side) == waiter.waker,
{
}

/// A reservation, which wakes nobody, satisfies nobody.
pub proof fn reserving_satisfies_nobody<T>(
    before: &RingBuffer<T>,
    after: &RingBuffer<T>,
    check: ParkCheck,
    arg: usize,
)
    requires
        after.buf() == before.buf(),
        after.state() == (super::word::RingState { sending: true, ..before.state() })
            || after.state() == (super::word::RingState { receiving: true, ..before.state() }),
    ensures
        check.holds(after, arg) ==> check.holds(before, arg),
{
}

/// What one operation may do to a ring while a task is parked on `side`: change the
/// state and empty all slots, reserve a region, or let somebody come to or leave
/// another slot.
pub open spec fn ring_moves<T>(before: &RingBuffer<T>, after: &RingBuffer<T>, side: ParkSide) -> bool {
    ||| after.control().quiet()
    ||| {
        &&& after.buf() == before.buf()
        &&& after.control().same_slots(&before.control())
        &&& after.state() == (super::word::RingState { sending: true, ..before.state() })
            || after.state() == (super::word::RingState { receiving: true, ..before.state() })
    }
    ||| {
        &&& after.buf() == before.buf()
        &&& after.state() == before.state()
        &&& after.control().slot(side) == before.control().slot(side)
    }
}

/// The operation from `before` to `after` calls the waker of `waiter` on `side`.
pub open spec fn calls<T>(
    before: &RingBuffer<T>,
    after: &RingBuffer<T>,
    side: ParkSide,
    waiter: Waiter,
) -> bool {
    &&& before.control().slot(side) == Some(waiter)
    &&& after.control().quiet()
}

/// No wake-up is lost: if the condition of a task did not hold at some moment after the
/// task was registered, and holds now, then the waker of the task was called since it
/// was registered.
pub proof fn no_lost_wakeup<T>(
    rings: Seq<RingBuffer<T>>,
    side: ParkSide,
    waiter: Waiter,
    check: ParkCheck,
    arg: usize,
    rechecked: int,
)
    requires
        0 <= rechecked < rings.len(),
        forall|i: int|
            #![trigger rings[i]]
            0 <= i < rings.len() - 1 ==> ring_moves(&rings[i], &rings[i + 1], side),
        rings[0].control().slot(side) == Some(waiter),
        !check.holds(&rings[rechecked], arg),
        check.holds(&rings.last(), arg),
    ensures
        exists|i: int|
            #![trigger rings[i]]
            0 <= i < rings.len() - 1 && calls(&rings[i], &rings[i + 1], side, waiter),
{
    assert_by_contradiction!(exists|i: int|
        #![trigger rings[i]]
        0 <= i < rings.len() - 1 && calls(&rings[i], &rings[i + 1], side, waiter), {
        still_parked(rings, side, waiter, rings.len() - 1);
        still_unsatisfied(rings, side, waiter, check, arg, rechecked, rings.len() - 1);
    });
}

proof fn still_parked<T>(rings: Seq<RingBuffer<T>>, side: ParkSide, waiter: Waiter, k: int)
    requires
        0 <= k < rings.len(),
        forall|i: int|
            #![trigger rings[i]]
            0 <= i < rings.len() - 1 ==> ring_moves(&rings[i], &rings[i + 1], side),
        forall|i: int|
            #![trigger rings[i]]
            0 <= i < rings.len() - 1 ==> !calls(&rings[i], &rings[i + 1], side, waiter),
        rings[0].control().slot(side) == Some(waiter),
    ensures
        rings[k].control().slot(side) == Some(waiter),
    decreases k,
{
    if k > 0 {
        still_parked(rings, side, waiter, k - 1);
        assert(ring_moves(&rings[k - 1], &rings[k], side));
    }
}

proof fn still_unsatisfied<T>(
    rings: Seq<RingBuffer<T>>,
    side: ParkSide,
    waiter: Waiter,
    check: ParkCheck,
    arg: usize,
    from: int,
    k: int,
)
    requires
        0 <= from <= k < rings.len(),
        forall|i: int|
            #![trigger rings[i]]
            0 <= i < rings.len() - 1 ==> ring_moves(&rings[i], &rings[i + 1], side),
        forall|i: int|
            #![trigger rings[i]]
            0 <= i < rings.len() - 1 ==> !calls(&rings[i], &rings[i + 1], side, waiter),
        rings[0].control().slot(side) == Some(waiter),
        !check.holds(&rings[from], arg),
    ensures
        !check.holds(&rings[k], arg),
    decreases k,
{
    if k > from {
        still_unsatisfied(rings, side, waiter, check, arg, from, k - 1);
        still_parked(rings, side, waiter, k - 1);
        let before = &rings[k - 1];
        let after = &rings[k];
        assert(ring_moves(before, after, side));
        assert(!calls(before, after, side, waiter));
        assert(!after.control().quiet());
    }
}

/// What a step did to a ring.
pub ghost enum RingStep<T> {
    /// The writer handed these items over.
    Write(Seq<T>),
    /// The reader took this many items.
    Read(int),
    /// The items stayed as they were.
    Keep,
}

/// `step` leads from `before` to `after`.
pub open spec fn leads<T>(before: &RingBuffer<T>, step: RingStep<T>, after: &RingBuffer<T>) -> bool {
    match step {
        RingStep::Write(items) => after.contents() == before.contents() + items,
        RingStep::Read(n) => {
            &&& 0 <= n <= before.contents().len()
            &&& after.contents() == before.contents().skip(n)
        },
        RingStep::Keep => after.contents() == before.contents(),
    }
}

/// `steps` lead through `rings`.
pub open spec fn history<T>(rings: Seq<RingBuffer<T>>, steps: Seq<RingStep<T>>) -> bool {
    &&& rings.len() == steps.len() + 1
    &&& forall|i: int|
        0 <= i < steps.len() ==> leads(&rings[i], #[trigger] steps[i], &rings[i + 1])
}

/// All items that were written.
pub open spec fn all_written<T>(steps: Seq<RingStep<T>>) -> Seq<T>
    decreases steps.len(),
{
    if steps.len() == 0 {
        Seq::empty()
    } else {
        let earlier = all_written(steps.drop_last());
        match steps.last() {
            RingStep::Write(items) => earlier + items,
            _ => earlier,
        }
    }
}

/// All items that were read.
pub open spec fn all_read<T>(rings: Seq<RingBuffer<T>>, steps: Seq<RingStep<T>>) -> Seq<T>
    decreases steps.len(),
{
    if steps.len() == 0 {
        Seq::empty()
    } else {
        let earlier = all_read(rings.drop_last(), steps.drop_last());
        match steps.last() {
            RingStep::Read(n) => earlier + rings[rings.len() - 2].contents().take(n),
            _ => earlier,
        }
    }
}

/// No item is duplicated, lost or reordered: what was buffered at first and what was
/// written since is what was read since and what is buffered now.
pub proof fn no_duplication_no_loss<T>(rings: Seq<RingBuffer<T>>, steps: Seq<RingStep<T>>)
    requires
        history(rings, steps),
    ensures
        rings[0].contents() + all_written(steps) == all_read(rings, steps)
            + rings.last().contents(),
    decreases steps.len(),
{
    if steps.len() == 0 {
        assert(rings[0].contents() + Seq::<T>::empty() =~= Seq::<T>::empty()
            + rings[0].contents());
    } else {
        let earlier_rings = rings.drop_last();
        let earlier_steps = steps.drop_last();
        assert forall|i: int| 0 <= i < earlier_steps.len() implies leads(
            &earlier_rings[i],
            #[trigger] earlier_steps[i],
            &earlier_rings[i + 1],
        ) by {
            assert(earlier_steps[i] == steps[i]);
        }
        no_duplication_no_loss(earlier_rings, earlier_steps);
        let last = steps.len() - 1;
        let before = rings[last].contents();
        assert(leads(&rings[last], steps[last], &rings[last + 1]));
        assert(earlier_rings.last() == rings[last]);
        let first = rings[0].contents();
        let written = all_written(earlier_steps);
        let read = all_read(earlier_rings, earlier_steps);
        assert(first + written == read + before);
        match steps.last() {
            RingStep::Write(items) => {
                assert(first + (written + items) =~= (first + written) + items);
                assert(read + (before + items) =~= (read + before) + items);
            },
            RingStep::Read(n) => {
                assert(before =~= before.take(n) + before.skip(n));
                assert((read + before.take(n)) + before.skip(n) =~= read + before);
            },
            RingStep::Keep => {},
        }
    }
}

} // verus!
