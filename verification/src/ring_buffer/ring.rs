//! The ring buffer: one owned buffer, its positions and its flags.
//!
//! * `data = (wp - rp) mod cap` is the number of buffered items;
//! * `free = cap - 1 - data` is the number of free slots.
//!
//! One slot always stays unused, which tells a full ring from an empty one by
//! the two positions alone. The readable region `[rp, rp + data)` and the
//! writable region `[wp, wp + free)` may wrap around the end of the buffer and
//! are then handed out as two slices.

use vstd::prelude::*;

use super::demand::{ParkSide, Waiter, Woken};
use super::errors::{RxError, TxError};
use super::state::RingCore;
use super::word::{
    has_flag, unpack, MAX_CAPACITY, RECV_IN_FLIGHT, RX_CLOSED, SEND_IN_FLIGHT, TX_CLOSED,
};

verus! {

/// A ring buffer between a user and a runtime side.
#[derive(Debug)]
pub struct RingBuffer<T> {
    buffer: Vec<T>,
    core: RingCore,
}

/// The readable region of a ring as two slices; the second is empty unless the
/// region wraps.
#[derive(Debug)]
pub struct SendSlices<'a, T>(pub &'a [T], pub &'a [T]);

/// The writable region of a ring as two slices; the second is empty unless the
/// region wraps.
#[derive(Debug)]
pub struct RecvSlices<'a, T>(pub &'a mut [T], pub &'a mut [T]);

impl<T> RingBuffer<T> {
    /// The buffer, slot by slot.
    pub closed spec fn buf(&self) -> Seq<T> {
        self.buffer@
    }

    /// The state word and the waker slots.
    pub closed spec fn control(&self) -> RingCore {
        self.core
    }

    /// The positions and the flags.
    pub open spec fn state(&self) -> super::word::RingState {
        self.control()@
    }

    /// The number of slots.
    pub open spec fn cap(&self) -> int {
        self.buf().len() as int
    }

    /// The number of buffered items.
    pub open spec fn data(&self) -> int {
        self.state().data(self.cap())
    }

    /// The number of free slots.
    pub open spec fn free(&self) -> int {
        self.state().free(self.cap())
    }

    /// The buffered items, oldest first.
    pub open spec fn contents(&self) -> Seq<T> {
        super::region::region(self.buf(), self.state().rp, self.data())
    }

    /// The capacity is admissible and both positions lie inside the buffer.
    pub open spec fn wf(&self) -> bool {
        &&& 2 <= self.cap() <= MAX_CAPACITY
        &&& self.state().inside(self.cap())
    }

    /// The buffer, the positions and the flags are those of `before`, and so is
    /// every waker slot but that of `side`.
    pub open spec fn kept_except(&self, before: &RingBuffer<T>, side: ParkSide) -> bool {
        &&& self.buf() == before.buf()
        &&& self.state() == before.state()
        &&& forall|other: ParkSide|
            other != side ==> #[trigger] self.control().slot(other) == before.control().slot(other)
    }

    /// Create a ring over `buffer`; `Err` gives the length back when it is
    /// smaller than two or larger than [`MAX_CAPACITY`].
    pub fn try_new(buffer: Vec<T>) -> (made: Result<Self, usize>)
        ensures
            match made {
                Ok(ring) => {
                    &&& 2 <= buffer@.len() <= MAX_CAPACITY
                    &&& ring.wf()
                    &&& ring.buf() == buffer@
                    &&& ring.state() == super::word::RingState::initial()
                    &&& ring.control().quiet()
                },
                Err(len) => {
                    &&& !(2 <= buffer@.len() <= MAX_CAPACITY)
                    &&& len == buffer@.len()
                },
            },
    {
        let cap: usize = buffer.len();
        if cap < 2 || cap > MAX_CAPACITY {
            return Err(cap);
        }
        Ok(RingBuffer { buffer, core: RingCore::new() })
    }

    /// The buffer length.
    pub fn capacity(&self) -> (cap: usize)
        ensures
            cap == self.cap(),
    {
        self.buffer.len()
    }

    fn data_(&self, rp: usize, wp: usize) -> (data: usize)
        requires
            2 <= self.cap() <= MAX_CAPACITY,
            rp < self.cap(),
            wp < self.cap(),
        ensures
            data == (wp - rp) % self.cap(),
            data < self.cap(),
    {
        proof {
            super::word::capacity_bound();
            super::arith::shifted_mod(wp - rp, self.cap());
        }
        (wp + self.capacity() - rp) % self.capacity()
    }

    fn free_(&self, rp: usize, wp: usize) -> (free: usize)
        requires
            2 <= self.cap() <= MAX_CAPACITY,
            rp < self.cap(),
            wp < self.cap(),
        ensures
            free == self.cap() - 1 - (wp - rp) % self.cap(),
    {
        self.capacity() - 1 - self.data_(rp, wp)
    }

    /// The number of buffered items.
    pub fn data_size(&self) -> (size: usize)
        requires
            self.wf(),
        ensures
            size == self.data(),
    {
        let (rp, wp): (usize, usize) = unpack(self.core.load_state_());
        self.data_(rp, wp)
    }

    /// The number of free slots.
    pub fn free_size(&self) -> (size: usize)
        requires
            self.wf(),
        ensures
            size == self.free(),
    {
        let (rp, wp): (usize, usize) = unpack(self.core.load_state_());
        self.free_(rp, wp)
    }

    /// Whether the tx end is closed.
    pub fn is_tx_closed(&self) -> (closed: bool)
        ensures
            closed == self.state().tx_closed,
    {
        has_flag(self.core.load_state_(), TX_CLOSED)
    }

    /// Whether the rx end is closed.
    pub fn is_rx_closed(&self) -> (closed: bool)
        ensures
            closed == self.state().rx_closed,
    {
        has_flag(self.core.load_state_(), RX_CLOSED)
    }

    /// The reader position.
    pub fn reader_pos(&self) -> (rp: usize)
        ensures
            rp == self.state().rp,
    {
        unpack(self.core.load_state_()).0
    }

    /// The writer position.
    pub fn writer_pos(&self) -> (wp: usize)
        ensures
            wp == self.state().wp,
    {
        unpack(self.core.load_state_()).1
    }

    /// Advance the writer position by `amount`: the slots behind it become
    /// buffered items.
    pub fn advance_write(&mut self, amount: usize) -> (woken: Woken)
        requires
            old(self).wf(),
            amount <= old(self).free(),
        ensures
            final(self).wf(),
            final(self).buf() == old(self).buf(),
            final(self).state() == old(self).state().after_write(old(self).cap(), amount as int),
            final(self).contents() == old(self).contents() + super::region::region(
                old(self).buf(),
                old(self).state().wp,
                amount as int,
            ),
            final(self).control().quiet(),
            woken == old(self).control().wakers(),
    {
        proof {
            super::word::capacity_bound();
            super::arith::distance(self.state().wp - self.state().rp, self.cap());
            super::region::written_contents(self.buf(), self.state(), amount as int);
        }
        self.core.advance_write(self.capacity(), amount)
    }

    /// Advance the reader position by `amount`: the oldest items leave the ring.
    pub fn advance_read(&mut self, amount: usize) -> (woken: Woken)
        requires
            old(self).wf(),
            amount <= old(self).data(),
        ensures
            final(self).wf(),
            final(self).buf() == old(self).buf(),
            final(self).state() == old(self).state().after_read(old(self).cap(), amount as int),
            final(self).contents() == old(self).contents().skip(amount as int),
            final(self).control().quiet(),
            woken == old(self).control().wakers(),
    {
        proof {
            super::word::capacity_bound();
            super::arith::distance(self.state().wp - self.state().rp, self.cap());
            super::region::read_contents(self.buf(), self.state(), amount as int);
        }
        self.core.advance_read(self.capacity(), amount)
    }

    /// What a request for `length` writable slots is answered.
    pub open spec fn write_offer(&self, length: usize) -> Result<(usize, usize), TxError<usize>> {
        if self.state().writable(self.cap()) {
            Ok((self.state().wp as usize, super::region::min_of(length as int, self.free()) as usize))
        } else if self.state().tx_closed {
            Err(TxError::Closing)
        } else {
            Err(TxError::Stuffed(self.state().wp as usize))
        }
    }

    /// What a request for `length` readable items is answered.
    pub open spec fn read_offer(&self, length: usize) -> Result<(usize, usize), RxError<usize>> {
        if self.state().readable(self.cap()) {
            Ok((self.state().rp as usize, super::region::min_of(length as int, self.data()) as usize))
        } else if self.state().rx_closed {
            Err(RxError::Closing)
        } else {
            Err(RxError::Drained(self.state().rp as usize))
        }
    }

    /// What a request to look at all readable items is answered.
    pub open spec fn peek_offer(&self) -> Result<(usize, usize), RxError<usize>> {
        self.read_offer(usize::MAX)
    }

    /// The writable region of at most `length` slots that starts at the writer
    /// position, as its start and its length.
    ///
    /// * `Stuffed`: the ring is full, or its writable region is reserved;
    /// * `Closing`: the same, with the tx end closed.
    pub fn try_write_at(&self, length: usize) -> (offer: Result<(usize, usize), TxError<usize>>)
        requires
            self.wf(),
        ensures
            offer == self.write_offer(length),
    {
        let state: usize = self.core.load_state_();
        let (rp, wp): (usize, usize) = unpack(state);
        let free: usize = self.free_(rp, wp);
        if free == 0 || has_flag(state, RECV_IN_FLIGHT) {
            if has_flag(state, TX_CLOSED) {
                return Err(TxError::Closing);
            }
            return Err(TxError::Stuffed(wp));
        }
        let take: usize = if length <= free {
            length
        } else {
            free
        };
        Ok((wp, take))
    }

    /// The readable region of at most `length` items that starts at the reader
    /// position, as its start and its length.
    ///
    /// * `Drained`: the ring is empty, or its readable region is reserved;
    /// * `Closing`: the same, with the rx end closed.
    pub fn try_read_at(&self, length: usize) -> (offer: Result<(usize, usize), RxError<usize>>)
        requires
            self.wf(),
        ensures
            offer == self.read_offer(length),
    {
        let state: usize = self.core.load_state_();
        let (rp, wp): (usize, usize) = unpack(state);
        let data: usize = self.data_(rp, wp);
        if data == 0 || has_flag(state, SEND_IN_FLIGHT) {
            if has_flag(state, RX_CLOSED) {
                return Err(RxError::Closing);
            }
            return Err(RxError::Drained(rp));
        }
        let take: usize = if length <= data {
            length
        } else {
            data
        };
        Ok((rp, take))
    }

    /// The whole readable region, as its start and its length.
    pub fn try_peek_at(&self) -> (offer: Result<(usize, usize), RxError<usize>>)
        requires
            self.wf(),
        ensures
            offer == self.peek_offer(),
    {
        let state: usize = self.core.load_state_();
        let (rp, wp): (usize, usize) = unpack(state);
        let data: usize = self.data_(rp, wp);
        if data == 0 || has_flag(state, SEND_IN_FLIGHT) {
            if has_flag(state, RX_CLOSED) {
                return Err(RxError::Closing);
            }
            return Err(RxError::Drained(rp));
        }
        Ok((rp, data))
    }

    /// The slots `[rp, rp + len)` as two slices.
    pub fn readable_slices_(&self, rp: usize, len: usize) -> (slices: SendSlices<'_, T>)
        requires
            rp < self.cap(),
            len <= self.cap(),
        ensures
            slices.0@.len() == super::region::min_of(len as int, self.cap() - rp),
            slices.0@ + slices.1@ == super::region::region(self.buf(), rp as int, len as int),
    {
        let cap: usize = self.capacity();
        let whole: &[T] = self.buffer.as_slice();
        let first: usize = if len <= cap - rp {
            len
        } else {
            cap - rp
        };
        let (head, tail) = whole.split_at(rp);
        let (a, _) = tail.split_at(first);
        let (b, _) = head.split_at(len - first);
        proof {
            let all = a@ + b@;
            assert forall|i: int| 0 <= i < len implies all[i] == super::region::region(
                self.buf(),
                rp as int,
                len as int,
            )[i] by {
                super::arith::one_turn(rp + i, self.cap());
            }
            assert(all =~= super::region::region(self.buf(), rp as int, len as int));
        }
        SendSlices(a, b)
    }

    /// The slots `[wp, wp + len)` as two slices to write into.
    pub fn writable_slices_(&mut self, wp: usize, len: usize) -> (slices: RecvSlices<'_, T>)
        requires
            wp < old(self).cap(),
            len <= old(self).cap(),
        ensures
            slices.0@.len() == super::region::min_of(len as int, old(self).cap() - wp),
            slices.0@ + slices.1@ == super::region::region(old(self).buf(), wp as int, len as int),
            final(self).control() == old(self).control(),
            final(slices.0)@.len() == slices.0@.len() && final(slices.1)@.len() == slices.1@.len()
                ==> final(self).buf() == super::region::overlaid(
                old(self).buf(),
                wp as int,
                final(slices.0)@ + final(slices.1)@,
            ),
    {
        let cap: usize = self.capacity();
        let first: usize = if len <= cap - wp {
            len
        } else {
            cap - wp
        };
        let ghost before = self.buf();
        let whole: &mut [T] = self.buffer.as_mut_slice();
        let (head, tail) = whole.split_at_mut(wp);
        let (a, a_rest) = tail.split_at_mut(first);
        let (b, b_rest) = head.split_at_mut(len - first);
        proof {
            let all = a@ + b@;
            assert forall|i: int| 0 <= i < len implies all[i] == super::region::region(
                before,
                wp as int,
                len as int,
            )[i] by {
                super::arith::one_turn(wp + i, before.len() as int);
            }
            assert(all =~= super::region::region(before, wp as int, len as int));
            assert(a_rest@ =~= before.subrange(wp + first, before.len() as int));
            assert(b_rest@ =~= before.subrange(len - first, wp as int));
            assert forall|fa: Seq<T>, fb: Seq<T>|
                fa.len() == first && fb.len() == len - first implies (fb + b_rest@) + (fa + a_rest@)
                == #[trigger] super::region::overlaid(before, wp as int, fa + fb) by {
                super::region::overlaid_pieces(before, wp as int, fa, fb);
            }
        }
        RecvSlices(a, b)
    }

    /// Reserve the readable region for a kernel write and hand it out as two
    /// slices; `None` when it is empty or already reserved. The user reader is
    /// blocked until [`RingBuffer::put_back_send`].
    pub fn take_send_iovecs(&mut self) -> (slices: Option<SendSlices<'_, T>>)
        requires
            old(self).wf(),
        ensures
            match slices {
                Some(s) => {
                    &&& old(self).state().readable(old(self).cap())
                    &&& s.0@.len() == super::region::min_of(
                        old(self).data(),
                        old(self).cap() - old(self).state().rp,
                    )
                    &&& s.0@ + s.1@ == old(self).contents()
                    &&& final(self).wf()
                    &&& final(self).buf() == old(self).buf()
                    &&& final(self).state() == (super::word::RingState {
                        sending: true,
                        ..old(self).state()
                    })
                    &&& final(self).control().same_slots(&old(self).control())
                },
                None => {
                    &&& !old(self).state().readable(old(self).cap())
                    &&& *final(self) == *old(self)
                },
            },
    {
        let state: usize = self.core.load_state_();
        let (rp, wp): (usize, usize) = unpack(state);
        let data: usize = self.data_(rp, wp);
        if data == 0 || has_flag(state, SEND_IN_FLIGHT) {
            return None;
        }
        self.core.reserve_send();
        Some(self.readable_slices_(rp, data))
    }

    /// Return the readable region after a kernel write of `written` items,
    /// which leave the ring.
    pub fn put_back_send(&mut self, written: usize) -> (woken: Woken)
        requires
            old(self).wf(),
            old(self).state().sending,
            written <= old(self).data(),
        ensures
            final(self).wf(),
            final(self).buf() == old(self).buf(),
            final(self).state() == (super::word::RingState {
                sending: false,
                ..old(self).state().after_read(old(self).cap(), written as int)
            }),
            final(self).contents() == old(self).contents().skip(written as int),
            final(self).control().quiet(),
            woken == old(self).control().wakers(),
    {
        proof {
            super::word::capacity_bound();
            super::arith::distance(self.state().wp - self.state().rp, self.cap());
            super::region::read_contents(self.buf(), self.state(), written as int);
        }
        self.core.release_send(self.capacity(), written)
    }

    /// Reserve the writable region for a kernel read and hand it out as two
    /// slices; `None` when it is empty or already reserved. The user writer is
    /// blocked until [`RingBuffer::put_back_recv`].
    pub fn take_recv_iovecs(&mut self) -> (slices: Option<RecvSlices<'_, T>>)
        requires
            old(self).wf(),
        ensures
            match slices {
                Some(s) => {
                    &&& old(self).state().writable(old(self).cap())
                    &&& s.0@.len() == super::region::min_of(
                        old(self).free(),
                        old(self).cap() - old(self).state().wp,
                    )
                    &&& s.0@ + s.1@ == super::region::region(
                        old(self).buf(),
                        old(self).state().wp,
                        old(self).free(),
                    )
                    &&& final(s.0)@.len() == s.0@.len() && final(s.1)@.len() == s.1@.len()
                        ==> final(self).buf() == super::region::overlaid(
                        old(self).buf(),
                        old(self).state().wp,
                        final(s.0)@ + final(s.1)@,
                    )
                    &&& final(self).state() == (super::word::RingState {
                        receiving: true,
                        ..old(self).state()
                    })
                    &&& final(self).control().same_slots(&old(self).control())
                },
                None => {
                    &&& !old(self).state().writable(old(self).cap())
                    &&& *final(self) == *old(self)
                },
            },
    {
        let state: usize = self.core.load_state_();
        let (rp, wp): (usize, usize) = unpack(state);
        let free: usize = self.free_(rp, wp);
        if free == 0 || has_flag(state, RECV_IN_FLIGHT) {
            return None;
        }
        self.core.reserve_recv();
        Some(self.writable_slices_(wp, free))
    }

    /// Return the writable region after a kernel read of `received` items,
    /// which become buffered items.
    pub fn put_back_recv(&mut self, received: usize) -> (woken: Woken)
        requires
            old(self).wf(),
            old(self).state().receiving,
            received <= old(self).free(),
        ensures
            final(self).wf(),
            final(self).buf() == old(self).buf(),
            final(self).state() == (super::word::RingState {
                receiving: false,
                ..old(self).state().after_write(old(self).cap(), received as int)
            }),
            final(self).contents() == old(self).contents() + super::region::region(
                old(self).buf(),
                old(self).state().wp,
                received as int,
            ),
            final(self).control().quiet(),
            woken == old(self).control().wakers(),
    {
        proof {
            super::word::capacity_bound();
            super::arith::distance(self.state().wp - self.state().rp, self.cap());
            super::region::written_contents(self.buf(), self.state(), received as int);
        }
        self.core.release_recv(self.capacity(), received)
    }

    /// A read view over the whole buffer.
    pub fn buffer_ref(&self) -> (whole: &[T])
        ensures
            whole@ == self.buf(),
    {
        self.buffer.as_slice()
    }

    /// Give the ring up and get its storage back. A region that is still reserved has to be
    /// returned first.
    pub fn into_buffer(self) -> (buffer: Vec<T>)
        requires
            !self.state().sending,
            !self.state().receiving,
        ensures
            buffer@ == self.buf(),
    {
        self.buffer
    }

    /// The user writer finds a free slot.
    pub fn has_tx_space(&self) -> (found: bool)
        requires
            self.wf(),
        ensures
            found == self.state().writable(self.cap()),
    {
        self.try_write_at(1).is_ok()
    }

    /// Buffered items are available for a kernel write.
    pub fn has_tx_data(&self) -> (found: bool)
        requires
            self.wf(),
        ensures
            found == self.state().readable(self.cap()),
    {
        let state: usize = self.core.load_state_();
        let (rp, wp): (usize, usize) = unpack(state);
        self.data_(rp, wp) > 0 && !has_flag(state, SEND_IN_FLIGHT)
    }

    /// Free slots are available for a kernel read.
    pub fn has_recv_space(&self) -> (found: bool)
        requires
            self.wf(),
        ensures
            found == self.state().writable(self.cap()),
    {
        let state: usize = self.core.load_state_();
        let (rp, wp): (usize, usize) = unpack(state);
        self.free_(rp, wp) > 0 && !has_flag(state, RECV_IN_FLIGHT)
    }

    /// At least `amount` slots are free and not reserved.
    pub fn has_free_at_least(&self, amount: usize) -> (found: bool)
        requires
            self.wf(),
        ensures
            found == (self.free() >= amount && !self.state().receiving),
    {
        let state: usize = self.core.load_state_();
        let (rp, wp): (usize, usize) = unpack(state);
        self.free_(rp, wp) >= amount && !has_flag(state, RECV_IN_FLIGHT)
    }

    /// At least `amount` items are buffered and not reserved.
    pub fn has_data_at_least(&self, amount: usize) -> (found: bool)
        requires
            self.wf(),
        ensures
            found == (self.data() >= amount && !self.state().sending),
    {
        let state: usize = self.core.load_state_();
        let (rp, wp): (usize, usize) = unpack(state);
        self.data_(rp, wp) >= amount && !has_flag(state, SEND_IN_FLIGHT)
    }

    /// Close the tx end: the user writes nothing more.
    pub fn close_tx(&mut self) -> (woken: Woken)
        ensures
            final(self).buf() == old(self).buf(),
            final(self).state() == (super::word::RingState { tx_closed: true, ..old(self).state() }),
            final(self).contents() == old(self).contents(),
            final(self).control().quiet(),
            woken == old(self).control().wakers(),
    {
        self.core.close_tx()
    }

    /// Close the rx end: the user reads nothing more.
    pub fn close_rx(&mut self) -> (woken: Woken)
        ensures
            final(self).buf() == old(self).buf(),
            final(self).state() == (super::word::RingState { rx_closed: true, ..old(self).state() }),
            final(self).contents() == old(self).contents(),
            final(self).control().quiet(),
            woken == old(self).control().wakers(),
    {
        self.core.close_rx()
    }

    /// Register `w` on `side`.
    pub fn register(&mut self, side: ParkSide, w: &Waiter)
        requires
            old(self).control().slot(side) matches Some(cur) ==> cur.id == w.id,
        ensures
            final(self).kept_except(old(self), side),
            final(self).control().slot(side) == Some(*w),
    {
        self.core.register(side, w);
    }

    /// Remove `w` from `side` if it is still registered there.
    pub fn deregister(&mut self, side: ParkSide, w: &Waiter)
        ensures
            final(self).kept_except(old(self), side),
            final(self).control().slot(side) == super::demand::vacated(
                old(self).control().slot(side),
                *w,
            ),
    {
        self.core.deregister(side, w);
    }
}

impl<T: Copy> RingBuffer<T> {
    /// Store the first `count` items of `src` from slot `start` on, in ring order.
    pub(crate) fn copy_in_(&mut self, start: usize, src: &[T], count: usize)
        requires
            2 <= old(self).cap() <= MAX_CAPACITY,
            start < old(self).cap(),
            count <= old(self).cap(),
            count <= src@.len(),
        ensures
            final(self).control() == old(self).control(),
            final(self).buf() == super::region::overlaid(old(self).buf(), start as int, src@.take(count as int)),
    {
        let cap: usize = self.capacity();
        let mut i: usize = 0;
        proof {
            super::word::capacity_bound();
            super::region::overlaid_nothing(self.buf(), start as int, src@.take(0));
        }
        while i < count
            invariant
                cap == self.cap(),
                2 <= cap <= MAX_CAPACITY < 0x4000_0000,
                start < cap,
                i <= count <= cap,
                count <= src@.len(),
                self.cap() == old(self).cap(),
                self.control() == old(self).control(),
                self.buf() == super::region::overlaid(old(self).buf(), start as int, src@.take(i as int)),
            decreases count - i,
        {
            let at: usize = if i < cap - start {
                start + i
            } else {
                i - (cap - start)
            };
            proof {
                super::region::overlaid_next(old(self).buf(), start as int, src@, i as int);
                super::arith::one_turn(start + i, cap as int);
            }
            self.buffer[at] = src[i];
            i = i + 1;
        }
    }

    /// Copy `count` items from slot `start` on, in ring order, to the front of `dst`.
    pub(crate) fn copy_out_(&self, start: usize, dst: &mut [T], count: usize)
        requires
            2 <= self.cap() <= MAX_CAPACITY,
            start < self.cap(),
            count <= self.cap(),
            count <= old(dst)@.len(),
        ensures
            final(dst)@ == super::region::region(self.buf(), start as int, count as int) + old(dst)@.skip(
                count as int,
            ),
    {
        let cap: usize = self.capacity();
        let mut i: usize = 0;
        let ghost before = dst@;
        proof {
            super::word::capacity_bound();
            assert(dst@ =~= super::region::region(self.buf(), start as int, 0) + before.skip(0));
        }
        while i < count
            invariant
                cap == self.cap(),
                2 <= cap <= MAX_CAPACITY < 0x4000_0000,
                start < cap,
                i <= count <= cap,
                count <= before.len(),
                dst@ == super::region::region(self.buf(), start as int, i as int) + before.skip(i as int),
            decreases count - i,
        {
            let at: usize = if i < cap - start {
                start + i
            } else {
                i - (cap - start)
            };
            proof {
                super::arith::one_turn(start + i, cap as int);
            }
            dst[i] = self.buffer[at];
            i = i + 1;
            assert(dst@ =~= super::region::region(self.buf(), start as int, i as int) + before.skip(i as int));
        }
    }
}

} // verus!
