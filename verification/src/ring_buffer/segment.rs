//! Segments: claims of a user end on a part of the ring.
//!
//! A segment names a region that starts at a position of the ring and may wrap
//! around the end of the buffer; its two physical pieces count as one logical
//! piece. The segment's memory is the ring's own buffer. A segment counts the
//! items that went through it and, when it is committed, moves the position of
//! its end by exactly that amount.

use vstd::prelude::*;

use super::amount::Demand;
use super::demand::Woken;
use super::ring::{RecvSlices, RingBuffer, SendSlices};

verus! {

/// Moves the writer position when a write segment is committed.
#[derive(Debug)]
pub struct WriterReclaim {
    cap: usize,
}

impl WriterReclaim {
    /// The capacity of the ring that the segment belongs to.
    pub closed spec fn cap(&self) -> usize {
        self.cap
    }

    /// The reclaimer for a ring of `cap` slots.
    pub fn new(cap: usize) -> (r: Self)
        ensures
            r.cap() == cap,
    {
        WriterReclaim { cap }
    }

    /// Hand `amount` written items over to the ring.
    pub fn reclaim<T>(&self, ring: &mut RingBuffer<T>, amount: usize) -> (woken: Woken)
        requires
            old(ring).wf(),
            self.cap() == old(ring).cap(),
            amount <= old(ring).free(),
        ensures
            final(ring).wf(),
            final(ring).buf() == old(ring).buf(),
            final(ring).state() == old(ring).state().after_write(old(ring).cap(), amount as int),
            final(ring).contents() == old(ring).contents() + super::region::region(
                old(ring).buf(),
                old(ring).state().wp,
                amount as int,
            ),
            final(ring).control().quiet(),
            woken == old(ring).control().wakers(),
    {
        ring.advance_write(amount)
    }
}

/// Moves the reader position when a read segment is committed.
#[derive(Debug)]
pub struct ReaderReclaim {
    cap: usize,
}

impl ReaderReclaim {
    /// The capacity of the ring that the segment belongs to.
    pub closed spec fn cap(&self) -> usize {
        self.cap
    }

    /// The reclaimer for a ring of `cap` slots.
    pub fn new(cap: usize) -> (r: Self)
        ensures
            r.cap() == cap,
    {
        ReaderReclaim { cap }
    }

    /// Let `amount` read items leave the ring.
    pub fn reclaim<T>(&self, ring: &mut RingBuffer<T>, amount: usize) -> (woken: Woken)
        requires
            old(ring).wf(),
            self.cap() == old(ring).cap(),
            amount <= old(ring).data(),
        ensures
            final(ring).wf(),
            final(ring).buf() == old(ring).buf(),
            final(ring).state() == old(ring).state().after_read(old(ring).cap(), amount as int),
            final(ring).contents() == old(ring).contents().skip(amount as int),
            final(ring).control().quiet(),
            woken == old(ring).control().wakers(),
    {
        ring.advance_read(amount)
    }
}

/// What committing a read segment does.
#[derive(Debug)]
pub enum ReadReclaim {
    /// A read segment: the consumed items leave the ring.
    Consume(ReaderReclaim),
    /// A peek segment: the ring stays as it is.
    Peek,
}

/// A write segment: `take` slots from slot `start` on.
#[derive(Debug)]
pub struct ReclSliceMut {
    start: usize,
    take: usize,
    offset: usize,
    reclaim: WriterReclaim,
}

impl ReclSliceMut {
    /// The first slot.
    pub closed spec fn start(&self) -> int {
        self.start as int
    }

    /// The number of slots.
    pub closed spec fn take(&self) -> int {
        self.take as int
    }

    /// The number of slots that were filled through the segment.
    pub closed spec fn offset(&self) -> int {
        self.offset as int
    }

    /// The capacity of the ring that the segment belongs to.
    pub closed spec fn ring_cap(&self) -> int {
        self.reclaim.cap() as int
    }

    /// The slots are free slots of `ring`, next to be written.
    pub open spec fn claims<T>(&self, ring: &RingBuffer<T>) -> bool {
        &&& ring.wf()
        &&& self.ring_cap() == ring.cap()
        &&& self.start() == ring.state().wp
        &&& 0 <= self.offset() <= self.take() <= ring.free()
    }

    /// The first slot that was not filled yet.
    pub open spec fn next(&self) -> int {
        super::region::wrapped(self.start(), self.offset(), self.ring_cap())
    }

    /// A segment of `take` slots from slot `start` on of which nothing was filled.
    pub fn new(start: usize, take: usize, reclaim: WriterReclaim) -> (segm: Self)
        ensures
            segm.start() == start,
            segm.take() == take,
            segm.offset() == 0,
            segm.ring_cap() == reclaim.cap(),
    {
        ReclSliceMut { start, take, offset: 0, reclaim }
    }

    /// The number of slots that were not filled yet.
    pub fn least_count(&self) -> (count: usize)
        requires
            self.offset() <= self.take(),
        ensures
            count == self.take() - self.offset(),
    {
        self.take - self.offset
    }

    /// Every slot was filled.
    pub fn is_empty(&self) -> (empty: bool)
        requires
            self.offset() <= self.take(),
        ensures
            empty == (self.take() == self.offset()),
    {
        self.least_count() == 0
    }

    /// The number of slots, filled or not.
    pub fn capacity(&self) -> (cap: usize)
        ensures
            cap == self.take(),
    {
        self.take
    }

    fn next_<T>(&self, ring: &RingBuffer<T>) -> (next: usize)
        requires
            self.claims(ring),
        ensures
            next == self.next(),
            next < ring.cap(),
    {
        proof {
            super::word::capacity_bound();
            super::arith::distance(ring.state().wp - ring.state().rp, ring.cap());
            super::arith::one_turn(self.start() + self.offset(), ring.cap());
        }
        (self.start + self.offset) % self.reclaim.cap
    }

    /// The unfilled slots as at most two slices, none of them empty.
    pub fn iter_slices_mut<'a, T>(&self, ring: &'a mut RingBuffer<T>) -> (slices: Vec<&'a mut [T]>)
        requires
            self.claims(old(ring)),
        ensures
            pieces_of(
                slices@.map_values(|s: &'a mut [T]| s@),
                super::region::region(old(ring).buf(), self.next(), self.take() - self.offset()),
                old(ring).cap() - self.next(),
            ),
            final(ring).control() == old(ring).control(),
            slices@.len() == 0 ==> final(ring).buf() == old(ring).buf(),
            slices@.len() == 1 && final(slices@[0])@.len() == slices@[0]@.len() ==> final(ring).buf()
                == super::region::overlaid(old(ring).buf(), self.next(), final(slices@[0])@),
            slices@.len() == 2 && final(slices@[0])@.len() == slices@[0]@.len() && final(slices@[1])@.len() == slices@[1]@.len() ==> final(ring).buf() == super::region::overlaid(
                old(ring).buf(),
                self.next(),
                final(slices@[0])@ + final(slices@[1])@,
            ),
    {
        let next: usize = self.next_(ring);
        let ghost before = ring.buf();
        let RecvSlices(a, b) = ring.writable_slices_(next, self.take - self.offset);
        let ghost all = a@ + b@;
        let mut slices: Vec<&'a mut [T]> = Vec::new();
        proof {
            super::region::overlaid_nothing(before, next as int, Seq::<T>::empty());
            assert(all.take(a@.len() as int) =~= a@);
            assert(all.skip(a@.len() as int) =~= b@);
            assert(b@.len() == 0 ==> all =~= a@);
            assert(Seq::<T>::empty() + Seq::<T>::empty() =~= Seq::<T>::empty());
            assert forall|x: Seq<T>| #[trigger] (x + Seq::<T>::empty()) == x by {
                assert(x + Seq::<T>::empty() =~= x);
            }
        }
        if a.len() > 0 {
            slices.push(a);
        }
        if b.len() > 0 {
            slices.push(b);
        }
        slices
    }

    /// The unfilled slots of the current physical piece.
    pub fn as_segm_mut<'a, T>(&self, ring: &'a mut RingBuffer<T>) -> (piece: &'a mut [T])
        requires
            self.claims(old(ring)),
        ensures
            piece@ == current_piece(
                old(ring).buf(),
                self.next(),
                self.take() - self.offset(),
            ),
            final(ring).control() == old(ring).control(),
            final(piece)@.len() == piece@.len() ==> final(ring).buf() == super::region::overlaid(
                old(ring).buf(),
                self.next(),
                final(piece)@,
            ),
    {
        let next: usize = self.next_(ring);
        let cap: usize = self.reclaim.cap;
        let count: usize = if self.take - self.offset <= cap - next {
            self.take - self.offset
        } else {
            cap - next
        };
        let RecvSlices(piece, rest) = ring.writable_slices_(next, count);
        proof {
            assert(piece@ + rest@ =~= piece@);
            assert(piece@ =~= current_piece(
                old(ring).buf(),
                self.next(),
                self.take() - self.offset(),
            ));
            assert forall|x: Seq<T>| #[trigger] (x + rest@) == x by {
                assert(x + rest@ =~= x);
            }
        }
        piece
    }

    /// The slots of the current physical piece that `demand` agrees to; `None`
    /// if nothing is left or the unfilled slots are fewer than `demand` accepts.
    pub fn take_segm_mut<'a, T>(&self, ring: &'a mut RingBuffer<T>, demand: &Demand) -> (piece:
        Option<&'a mut [T]>)
        requires
            self.claims(old(ring)),
        ensures
            match (piece, granted(*demand, self.take() - self.offset())) {
                (Some(p), Some(limit)) => {
                    &&& p@ == current_piece(
                        old(ring).buf(),
                        self.next(),
                        self.take() - self.offset(),
                    ).take(
                        super::region::min_of(
                            limit,
                            current_piece(
                                old(ring).buf(),
                                self.next(),
                                self.take() - self.offset(),
                            ).len() as int,
                        ),
                    )
                    &&& final(ring).control() == old(ring).control()
                    &&& final(p)@.len() == p@.len() ==> final(ring).buf()
                        == super::region::overlaid(old(ring).buf(), self.next(), final(p)@)
                },
                (None, None) => *final(ring) == *old(ring),
                _ => false,
            },
    {
        let left: usize = self.least_count();
        if left == 0 {
            return None;
        }
        let available = Demand::less_than(left);
        let agreement = match demand.compromise(&available) {
            Some(agreement) => agreement,
            None => return None,
        };
        let limit: usize = match agreement.max() {
            Some(limit) => limit,
            None => return None,
        };
        let next: usize = self.next_(ring);
        let cap: usize = self.reclaim.cap;
        let count: usize = if limit <= cap - next {
            limit
        } else {
            cap - next
        };
        let RecvSlices(piece, rest) = ring.writable_slices_(next, count);
        proof {
            let whole = current_piece(
                old(ring).buf(),
                self.next(),
                self.take() - self.offset(),
            );
            assert(piece@ + rest@ =~= piece@);
            assert(piece@ =~= whole.take(
                super::region::min_of(limit as int, whole.len() as int),
            ));
            assert forall|x: Seq<T>| #[trigger] (x + rest@) == x by {
                assert(x + rest@ =~= x);
            }
        }
        Some(piece)
    }

    /// Count `amount` more slots as filled.
    pub fn consume(&mut self, amount: usize)
        requires
            old(self).offset() + amount <= old(self).take(),
        ensures
            final(self).offset() == old(self).offset() + amount,
            final(self).take() == old(self).take(),
            final(self).start() == old(self).start(),
            final(self).ring_cap() == old(self).ring_cap(),
    {
        self.offset = self.offset + amount;
    }

    /// What was filled through the segment so far.
    pub open spec fn filled<T>(&self, ring: &RingBuffer<T>) -> Seq<T> {
        super::region::region(ring.buf(), self.start(), self.offset())
    }

    /// Move as many items of `src` into the ring as the segment has room for, and
    /// count them as filled.
    pub fn move_items_from_buff<T: Copy>(&mut self, ring: &mut RingBuffer<T>, src: &[T]) -> (moved:
        usize)
        requires
            old(self).claims(old(ring)),
        ensures
            moved == super::region::min_of(
                src@.len() as int,
                old(self).take() - old(self).offset(),
            ),
            final(self).offset() == old(self).offset() + moved,
            final(self).take() == old(self).take(),
            final(self).start() == old(self).start(),
            final(self).ring_cap() == old(self).ring_cap(),
            final(self).claims(final(ring)),
            final(ring).control() == old(ring).control(),
            final(ring).buf() == super::region::overlaid(
                old(ring).buf(),
                old(self).next(),
                src@.take(moved as int),
            ),
            final(ring).contents() == old(ring).contents(),
            final(self).filled(final(ring)) == old(self).filled(old(ring)) + src@.take(
                moved as int,
            ),
    {
        let next: usize = self.next_(ring);
        let left: usize = self.least_count();
        let moved: usize = if src.len() <= left {
            src.len()
        } else {
            left
        };
        let ghost before = *ring;
        let ghost from = *self;
        ring.copy_in_(next, src, moved);
        self.offset = self.offset + moved;
        proof {
            let cap = before.cap();
            let items = src@.take(moved as int);
            let rp = before.state().rp;
            let data = before.data();
            super::arith::distance(before.state().wp - rp, cap);
            super::arith::one_turn(rp + data, cap);
            super::arith::one_turn(from.start() + from.offset(), cap);
            super::arith::one_turn(rp + (data + from.offset()), cap);
            assert(super::region::wrapped(rp, data + from.offset(), cap) == from.next());
            if moved > 0 {
                super::region::region_kept(before.buf(), rp, data, data + from.offset(), items);
                super::region::region_kept(
                    before.buf(),
                    from.start(),
                    from.offset(),
                    from.offset(),
                    items,
                );
            } else {
                super::region::overlaid_nothing(before.buf(), from.next(), items);
            }
            super::region::region_split(ring.buf(), from.start(), from.offset(), moved as int);
            super::region::region_stored(before.buf(), from.next(), items);
        }
        moved
    }

    /// Hand the filled slots over to the ring.
    pub fn commit<T>(self, ring: &mut RingBuffer<T>) -> (woken: Woken)
        requires
            self.claims(old(ring)),
        ensures
            final(ring).wf(),
            final(ring).buf() == old(ring).buf(),
            final(ring).state() == old(ring).state().after_write(old(ring).cap(), self.offset()),
            final(ring).contents() == old(ring).contents() + self.filled(old(ring)),
            final(ring).control().quiet(),
            woken == old(ring).control().wakers(),
    {
        self.reclaim.reclaim(ring, self.offset)
    }
}

/// A read or peek segment: `take` items from slot `start` on.
#[derive(Debug)]
pub struct ReclSliceRef {
    start: usize,
    take: usize,
    offset: usize,
    cap: usize,
    reclaim: ReadReclaim,
}

/// A read segment whose commit leaves the ring as it is.
pub type ReclPeekRef = ReclSliceRef;

impl ReclSliceRef {
    /// The first slot.
    pub closed spec fn start(&self) -> int {
        self.start as int
    }

    /// The number of items.
    pub closed spec fn take(&self) -> int {
        self.take as int
    }

    /// The number of items that were consumed through the segment.
    pub closed spec fn offset(&self) -> int {
        self.offset as int
    }

    /// The capacity of the ring that the segment belongs to.
    pub closed spec fn ring_cap(&self) -> int {
        self.cap as int
    }

    /// Committing the segment leaves the ring as it is.
    pub closed spec fn is_peek(&self) -> bool {
        self.reclaim is Peek
    }

    /// The reclaimer belongs to the same ring as the segment.
    pub closed spec fn coherent(&self) -> bool {
        self.reclaim matches ReadReclaim::Consume(r) ==> r.cap() == self.cap
    }

    /// The items are the oldest items of `ring`.
    pub open spec fn claims<T>(&self, ring: &RingBuffer<T>) -> bool {
        &&& ring.wf()
        &&& self.coherent()
        &&& self.ring_cap() == ring.cap()
        &&& self.start() == ring.state().rp
        &&& 0 <= self.offset() <= self.take() <= ring.data()
    }

    /// The first slot that was not consumed yet.
    pub open spec fn next(&self) -> int {
        super::region::wrapped(self.start(), self.offset(), self.ring_cap())
    }

    /// The items that were not consumed yet.
    pub open spec fn rest<T>(&self, ring: &RingBuffer<T>) -> Seq<T> {
        super::region::region(ring.buf(), self.next(), self.take() - self.offset())
    }

    /// A segment of `take` items from slot `start` on of which nothing was consumed.
    pub fn new(start: usize, take: usize, cap: usize, reclaim: ReadReclaim) -> (segm: Self)
        ensures
            segm.start() == start,
            segm.take() == take,
            segm.offset() == 0,
            segm.ring_cap() == cap,
            segm.is_peek() == (reclaim is Peek),
            segm.coherent() == (reclaim matches ReadReclaim::Consume(r) ==> r.cap() == cap),
    {
        ReclSliceRef { start, take, offset: 0, cap, reclaim }
    }

    /// The number of items that were not consumed yet.
    pub fn least_count(&self) -> (count: usize)
        requires
            self.offset() <= self.take(),
        ensures
            count == self.take() - self.offset(),
    {
        self.take - self.offset
    }

    /// Every item was consumed.
    pub fn is_empty(&self) -> (empty: bool)
        requires
            self.offset() <= self.take(),
        ensures
            empty == (self.take() == self.offset()),
    {
        self.least_count() == 0
    }

    /// The number of items, consumed or not.
    pub fn capacity(&self) -> (cap: usize)
        ensures
            cap == self.take(),
    {
        self.take
    }

    fn next_<T>(&self, ring: &RingBuffer<T>) -> (next: usize)
        requires
            self.claims(ring),
        ensures
            next == self.next(),
            next < ring.cap(),
    {
        proof {
            super::word::capacity_bound();
            super::arith::distance(ring.state().wp - ring.state().rp, ring.cap());
            super::arith::one_turn(self.start() + self.offset(), ring.cap());
        }
        (self.start + self.offset) % self.cap
    }

    /// The unconsumed items as at most two slices, none of them empty.
    pub fn iter_slices<'a, T>(&self, ring: &'a RingBuffer<T>) -> (slices: Vec<&'a [T]>)
        requires
            self.claims(ring),
        ensures
            pieces_of(
                slices@.map_values(|s: &'a [T]| s@),
                self.rest(ring),
                ring.cap() - self.next(),
            ),
    {
        let next: usize = self.next_(ring);
        let SendSlices(a, b) = ring.readable_slices_(next, self.take - self.offset);
        let mut slices: Vec<&'a [T]> = Vec::new();
        proof {
            let all = a@ + b@;
            assert(all.take(a@.len() as int) =~= a@);
            assert(all.skip(a@.len() as int) =~= b@);
            assert(b@.len() == 0 ==> all =~= a@);
        }
        if a.len() > 0 {
            slices.push(a);
        }
        if b.len() > 0 {
            slices.push(b);
        }
        slices
    }

    /// The unconsumed items of the current physical piece.
    pub fn as_segm_ref<'a, T>(&self, ring: &'a RingBuffer<T>) -> (piece: &'a [T])
        requires
            self.claims(ring),
        ensures
            piece@ == current_piece(ring.buf(), self.next(), self.take() - self.offset()),
    {
        let next: usize = self.next_(ring);
        let SendSlices(piece, rest) = ring.readable_slices_(next, self.take - self.offset);
        proof {
            assert(piece@ =~= (piece@ + rest@).take(piece@.len() as int));
            assert(piece@ =~= current_piece(
                ring.buf(),
                self.next(),
                self.take() - self.offset(),
            ));
        }
        piece
    }

    /// The items of the current physical piece that `demand` agrees to; `None` if
    /// nothing is left or the unconsumed items are fewer than `demand` accepts.
    pub fn take_segm_ref<'a, T>(&self, ring: &'a RingBuffer<T>, demand: &Demand) -> (piece: Option<
        &'a [T],
    >)
        requires
            self.claims(ring),
        ensures
            match (piece, granted(*demand, self.take() - self.offset())) {
                (Some(p), Some(limit)) => {
                    let whole = current_piece(
                        ring.buf(),
                        self.next(),
                        self.take() - self.offset(),
                    );
                    p@ == whole.take(super::region::min_of(limit, whole.len() as int))
                },
                (None, None) => true,
                _ => false,
            },
    {
        let left: usize = self.least_count();
        if left == 0 {
            return None;
        }
        let available = Demand::less_than(left);
        let agreement = match demand.compromise(&available) {
            Some(agreement) => agreement,
            None => return None,
        };
        let limit: usize = match agreement.max() {
            Some(limit) => limit,
            None => return None,
        };
        let whole: &'a [T] = self.as_segm_ref(ring);
        let count: usize = if limit <= whole.len() {
            limit
        } else {
            whole.len()
        };
        let (piece, _) = whole.split_at(count);
        Some(piece)
    }

    /// Count `amount` more items as consumed.
    pub fn consume(&mut self, amount: usize)
        requires
            old(self).offset() + amount <= old(self).take(),
        ensures
            final(self).offset() == old(self).offset() + amount,
            final(self).take() == old(self).take(),
            final(self).start() == old(self).start(),
            final(self).ring_cap() == old(self).ring_cap(),
            final(self).is_peek() == old(self).is_peek(),
            final(self).coherent() == old(self).coherent(),
    {
        self.offset = self.offset + amount;
    }

    /// Move as many items as fit to the front of `dst`, and count them as consumed.
    pub fn move_items_to_buff<T: Copy>(&mut self, ring: &RingBuffer<T>, dst: &mut [T]) -> (moved:
        usize)
        requires
            old(self).claims(ring),
        ensures
            moved == super::region::min_of(
                old(dst)@.len() as int,
                old(self).take() - old(self).offset(),
            ),
            final(dst)@ == old(self).rest(ring).take(moved as int) + old(dst)@.skip(moved as int),
            final(self).rest(ring) == old(self).rest(ring).skip(moved as int),
            final(self).offset() == old(self).offset() + moved,
            final(self).take() == old(self).take(),
            final(self).start() == old(self).start(),
            final(self).ring_cap() == old(self).ring_cap(),
            final(self).is_peek() == old(self).is_peek(),
            final(self).claims(ring),
    {
        let next: usize = self.next_(ring);
        let left: usize = self.least_count();
        let moved: usize = if dst.len() <= left {
            dst.len()
        } else {
            left
        };
        let ghost from = *self;
        ring.copy_out_(next, dst, moved);
        self.offset = self.offset + moved;
        proof {
            let cap = ring.cap();
            let left = from.take() - from.offset();
            super::arith::distance(ring.state().wp - ring.state().rp, cap);
            super::arith::one_turn(from.start() + from.offset(), cap);
            super::arith::one_turn(from.start() + self.offset(), cap);
            super::arith::one_turn(from.next() + moved, cap);
            super::region::region_split(ring.buf(), from.next(), moved as int, left - moved);
            assert(from.rest(ring).take(moved as int) =~= super::region::region(
                ring.buf(),
                from.next(),
                moved as int,
            ));
            assert(self.rest(ring) =~= from.rest(ring).skip(moved as int));
        }
        moved
    }

    /// Let the consumed items leave the ring; a peek segment leaves it as it is.
    pub fn commit<T>(self, ring: &mut RingBuffer<T>) -> (woken: Option<Woken>)
        requires
            self.claims(old(ring)),
        ensures
            final(ring).wf(),
            self.is_peek() ==> *final(ring) == *old(ring) && woken is None,
            !self.is_peek() ==> {
                &&& final(ring).buf() == old(ring).buf()
                &&& final(ring).state() == old(ring).state().after_read(
                    old(ring).cap(),
                    self.offset(),
                )
                &&& final(ring).contents() == old(ring).contents().skip(self.offset())
                &&& final(ring).control().quiet()
                &&& woken == Some(old(ring).control().wakers())
            },
    {
        match self.reclaim {
            ReadReclaim::Consume(r) => Some(r.reclaim(ring, self.offset)),
            ReadReclaim::Peek => None,
        }
    }
}

impl<T> RingBuffer<T> {
    /// The write segment of `take` slots from slot `start` on.
    pub fn write_segm(&self, start: usize, take: usize) -> (segm: ReclSliceMut)
        ensures
            segm.start() == start,
            segm.take() == take,
            segm.offset() == 0,
            segm.ring_cap() == self.cap(),
    {
        ReclSliceMut::new(start, take, WriterReclaim::new(self.capacity()))
    }

    /// The read segment of `take` items from slot `start` on.
    pub fn read_segm(&self, start: usize, take: usize) -> (segm: ReclSliceRef)
        ensures
            segm.start() == start,
            segm.take() == take,
            segm.offset() == 0,
            segm.ring_cap() == self.cap(),
            segm.coherent(),
            !segm.is_peek(),
    {
        let cap: usize = self.capacity();
        ReclSliceRef::new(start, take, cap, ReadReclaim::Consume(ReaderReclaim::new(cap)))
    }

    /// The peek segment of `take` items from slot `start` on.
    pub fn peek_segm(&self, start: usize, take: usize) -> (segm: ReclPeekRef)
        ensures
            segm.start() == start,
            segm.take() == take,
            segm.offset() == 0,
            segm.ring_cap() == self.cap(),
            segm.coherent(),
            segm.is_peek(),
    {
        ReclSliceRef::new(start, take, self.capacity(), ReadReclaim::Peek)
    }
}

/// The part of the region of `len` slots from `next` on that lies before the end
/// of the buffer.
pub open spec fn current_piece<T>(buf: Seq<T>, next: int, len: int) -> Seq<T> {
    super::region::region(buf, next, super::region::min_of(len, buf.len() - next))
}

/// How many of `left` units `demand` agrees to.
pub open spec fn granted(demand: Demand, left: int) -> Option<int> {
    if left > 0 && demand.at_least_len() <= super::region::min_of(
        demand.at_most_len() as int,
        left,
    ) {
        Some(super::region::min_of(demand.at_most_len() as int, left))
    } else {
        None
    }
}

/// `slices` are the non-empty physical pieces of `items`, of which `room` fit
/// before the end of the buffer.
pub open spec fn pieces_of<T>(slices: Seq<Seq<T>>, items: Seq<T>, room: int) -> bool {
    if items.len() == 0 {
        slices.len() == 0
    } else if items.len() <= room {
        slices =~= seq![items]
    } else {
        slices =~= seq![items.take(room), items.skip(room)]
    }
}

} // verus!
