//! What the tasks of a stream do, in terms of the bytes that their rings hold.

use vstd::prelude::*;

use super::{
    fill_done, fill_next, flush_done, flush_next, FillStep, FlushStep, StreamRings, TaskFlow,
};
use crate::ring_buffer::demand::Woken;
use crate::ring_buffer::ring::RingBuffer;

verus! {

/// The flush task sends all bytes that the ring holds, in order, whenever there are some that
/// are not on their way already, whether or not the tx end is closed. Only when there are none
/// does it stop, if the tx end is closed, or wait.
pub proof fn flush_sends_everything<'a>(ring: &'a mut RingBuffer<u8>, step: FlushStep<'a>)
    requires
        old(ring).wf(),
        call_ensures(flush_next, (ring,), step),
    ensures
        ({
            let sends = old(ring).contents().len() > 0 && !old(ring).state().sending;
            &&& step is Submit <==> sends
            &&& step matches FlushStep::Submit(s) ==> {
                &&& s.0@ + s.1@ == old(ring).contents()
                &&& s.0@.len() > 0
                &&& final(ring).contents() == old(ring).contents()
                &&& final(ring).state().sending
                &&& final(ring).state().tx_closed == old(ring).state().tx_closed
                &&& final(ring).state().rx_closed == old(ring).state().rx_closed
                &&& final(ring).state().receiving == old(ring).state().receiving
            }
            &&& step is Stop <==> !sends && old(ring).state().tx_closed
            &&& step is Wait <==> !sends && !old(ring).state().tx_closed
            &&& !sends ==> *final(ring) == *old(ring)
        }),
{
    crate::ring_buffer::service::items_between_the_positions(old(ring));
}

/// What was sent leaves the front of the ring, the rest stays to be sent, and the region is
/// free again. A failure loses no byte, closes the tx end, and is handed on.
pub proof fn sent_bytes_leave<E>(
    ring: &mut RingBuffer<u8>,
    outcome: Result<usize, E>,
    after: (TaskFlow<E>, Woken),
)
    requires
        old(ring).wf(),
        outcome matches Ok(n) ==> n <= old(ring).contents().len(),
        call_ensures(flush_done::<E>, (ring, outcome), after),
    ensures
        !final(ring).state().sending,
        final(ring).state().receiving == old(ring).state().receiving,
        final(ring).state().rx_closed == old(ring).state().rx_closed,
        final(ring).state().tx_closed == (old(ring).state().tx_closed || outcome is Err),
        match outcome {
            Ok(n) => {
                &&& after.0 is Continue
                &&& final(ring).contents() == old(ring).contents().subrange(
                    n as int,
                    old(ring).contents().len() as int,
                )
            },
            Err(e) => {
                &&& after.0 matches TaskFlow::Failed(f) && f == e
                &&& final(ring).contents() == old(ring).contents()
            },
        },
        crate::ring_buffer::waking::calls_all(after.1, old(ring)),
        crate::ring_buffer::waking::nobody_waits(final(ring)),
{
    if let Ok(n) = outcome {
        assert(old(ring).contents().skip(n as int) =~= old(ring).contents().subrange(
            n as int,
            old(ring).contents().len() as int,
        ));
    }
}

/// The fill task asks for as many bytes as the ring has room for, whenever there is room that
/// is not being filled already. Only when there is none does it stop, if the rx end is closed,
/// or wait.
pub proof fn fill_asks_for_all_room<'a>(ring: &'a mut RingBuffer<u8>, step: FillStep<'a>)
    requires
        old(ring).wf(),
        call_ensures(fill_next, (ring,), step),
    ensures
        ({
            let room = old(ring).buf().len() - 1 - old(ring).contents().len();
            let asks = room > 0 && !old(ring).state().receiving;
            &&& step is Submit <==> asks
            &&& step matches FillStep::Submit(s) ==> {
                &&& s.0@.len() + s.1@.len() == room
                &&& s.0@.len() > 0
                &&& final(ring).state().receiving
                &&& final(ring).state().tx_closed == old(ring).state().tx_closed
                &&& final(ring).state().rx_closed == old(ring).state().rx_closed
                &&& final(ring).state().sending == old(ring).state().sending
            }
            &&& step is Stop <==> !asks && old(ring).state().rx_closed
            &&& step is Wait <==> !asks && !old(ring).state().rx_closed
            &&& !asks ==> *final(ring) == *old(ring)
        }),
{
    crate::ring_buffer::service::items_between_the_positions(old(ring));
    if let FillStep::Submit(s) = step {
        assert((s.0@ + s.1@).len() == s.0@.len() + s.1@.len());
    }
}

/// What was received comes behind the bytes of the ring: the bytes in the slots from the
/// writer position on. No bytes, or a failure, close the rx end and end the task; what the
/// ring holds can still be read.
#[verifier::rlimit(40)]
pub proof fn received_bytes_are_appended<E>(
    ring: &mut RingBuffer<u8>,
    outcome: Result<usize, E>,
    after: (TaskFlow<E>, Woken),
)
    requires
        old(ring).wf(),
        outcome matches Ok(n) ==> n <= old(ring).buf().len() - 1 - old(ring).contents().len(),
        call_ensures(fill_done::<E>, (ring, outcome), after),
    ensures
        !final(ring).state().receiving,
        final(ring).state().sending == old(ring).state().sending,
        final(ring).state().tx_closed == old(ring).state().tx_closed,
        final(ring).state().rx_closed == (old(ring).state().rx_closed || match outcome {
            Ok(n) => n == 0,
            Err(_) => true,
        }),
        match outcome {
            Ok(n) => {
                let held = old(ring).contents().len() as int;
                let cap = old(ring).buf().len() as int;
                &&& after.0 is Continue <==> n > 0
                &&& after.0 is Stop <==> n == 0
                &&& final(ring).contents().len() == held + n
                &&& forall|i: int|
                    0 <= i < held ==> #[trigger] final(ring).contents()[i] == old(ring).contents()[i]
                &&& forall|i: int|
                    held <= i < held + n ==> #[trigger] final(ring).contents()[i] == old(ring).buf()[if old(ring).state().wp + (i - held) < cap {
                        old(ring).state().wp + (i - held)
                    } else {
                        old(ring).state().wp + (i - held) - cap
                    }]
            },
            Err(e) => {
                &&& after.0 matches TaskFlow::Failed(f) && f == e
                &&& final(ring).contents() == old(ring).contents()
            },
        },
        crate::ring_buffer::waking::calls_all(after.1, old(ring)),
        crate::ring_buffer::waking::nobody_waits(final(ring)),
{
    if let Ok(n) = outcome {
        let held = old(ring).contents().len() as int;
        let cap = old(ring).buf().len() as int;
        assert forall|i: int| held <= i < held + n implies #[trigger] final(ring).contents()[i]
            == old(ring).buf()[if old(ring).state().wp + (i - held) < cap {
            old(ring).state().wp + (i - held)
        } else {
            old(ring).state().wp + (i - held) - cap
        }] by {
            crate::ring_buffer::arith::one_turn(old(ring).state().wp + (i - held), cap);
        }
    }
}

/// The rings of a fresh stream are empty and as large as asked for. The stream can be written
/// to and read from; the halves that the tasks replace are closed. There is a stream iff the
/// capacity is admissible.
pub proof fn fresh_streams_are_empty(cap: usize, made: Result<StreamRings, usize>)
    requires
        call_ensures(StreamRings::try_new, (cap,), made),
    ensures
        made is Ok <==> 2 <= cap <= crate::ring_buffer::word::MAX_CAPACITY,
        made matches Err(c) ==> c == cap,
        made matches Ok(rings) ==> {
            &&& rings.write_ring.contents().len() == 0 && rings.read_ring.contents().len() == 0
            &&& rings.write_ring.buf().len() == cap && rings.read_ring.buf().len() == cap
            &&& !rings.write_ring.state().tx_closed && rings.write_ring.state().rx_closed
            &&& rings.read_ring.state().tx_closed && !rings.read_ring.state().rx_closed
            &&& !rings.write_ring.state().sending && !rings.write_ring.state().receiving
            &&& !rings.read_ring.state().sending && !rings.read_ring.state().receiving
            &&& crate::ring_buffer::waking::nobody_waits(&rings.write_ring)
            &&& crate::ring_buffer::waking::nobody_waits(&rings.read_ring)
        },
{
    if let Ok(rings) = made {
        crate::ring_buffer::service::items_between_the_positions(&rings.write_ring);
        crate::ring_buffer::service::items_between_the_positions(&rings.read_ring);
    }
}

/// Closing a stream closes the end of each ring that its user holds and loses no byte: the
/// flush task still sends what was written.
pub proof fn closing_a_stream_keeps_its_bytes(rings: &mut StreamRings, woken: (Woken, Woken))
    requires
        call_ensures(StreamRings::close, (rings,), woken),
    ensures
        final(rings).write_ring.state().tx_closed,
        final(rings).read_ring.state().rx_closed,
        final(rings).write_ring.state().rx_closed == old(rings).write_ring.state().rx_closed,
        final(rings).read_ring.state().tx_closed == old(rings).read_ring.state().tx_closed,
        final(rings).write_ring.state().sending == old(rings).write_ring.state().sending,
        final(rings).read_ring.state().receiving == old(rings).read_ring.state().receiving,
        final(rings).write_ring.contents() == old(rings).write_ring.contents(),
        final(rings).read_ring.contents() == old(rings).read_ring.contents(),
        crate::ring_buffer::waking::calls_all(woken.0, &old(rings).write_ring),
        crate::ring_buffer::waking::calls_all(woken.1, &old(rings).read_ring),
{
}

/// A flush that is repeated until nothing is left sends each byte once and in order: what a
/// step sends and what it leaves are together what was there.
#[verifier::rlimit(40)]
pub proof fn flushing_loses_nothing<'a, E>(
    before: &'a mut RingBuffer<u8>,
    after: &mut RingBuffer<u8>,
    step: FlushStep<'a>,
    n: usize,
    done: (TaskFlow<E>, Woken),
)
    requires
        old(before).wf(),
        *final(before) == *old(after),
        step is Submit,
        n <= old(before).contents().len(),
        call_ensures(flush_next, (before,), step),
        call_ensures(flush_done::<E>, (after, Ok(n)), done),
    ensures
        step matches FlushStep::Submit(s) && (s.0@ + s.1@).subrange(0, n as int) + final(after).contents() == old(before).contents(),
        final(after).state().sending == false,
{
    let all = old(before).contents();
    flush_sends_everything(before, step);
    sent_bytes_leave(after, Ok(n), done);
    assert(all.subrange(0, n as int) + all.subrange(n as int, all.len() as int) =~= all);
}

/// The tasks may decide at any time, and report any outcome of what they submitted.
pub proof fn tasks_may_decide_at_any_time<E>(
    ring: &mut RingBuffer<u8>,
    outcome: Result<usize, E>,
)
    requires
        old(ring).wf(),
    ensures
        call_requires(flush_next, (ring,)),
        call_requires(fill_next, (ring,)),
        old(ring).state().sending && (outcome matches Ok(n) ==> n <= old(ring).contents().len())
            ==> call_requires(flush_done::<E>, (ring, outcome)),
        old(ring).state().receiving && (outcome matches Ok(n) ==> n <= old(ring).buf().len() - 1
            - old(ring).contents().len()) ==> call_requires(fill_done::<E>, (ring, outcome)),
{
    crate::ring_buffer::service::items_between_the_positions(old(ring));
}

} // verus!
