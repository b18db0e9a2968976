//! Regions of a buffer that may wrap around its end.

use vstd::prelude::*;

verus! {

/// The smaller of two numbers.
pub open spec fn min_of(a: int, b: int) -> int {
    if a <= b {
        a
    } else {
        b
    }
}

/// The position `step` slots behind `pos` in a buffer of `cap` slots.
pub open spec fn wrapped(pos: int, step: int, cap: int) -> int {
    (pos + step) % cap
}

/// The items of the region of `len` slots that starts at `start`, in ring order.
pub open spec fn region<T>(buf: Seq<T>, start: int, len: int) -> Seq<T> {
    Seq::new(len as nat, |i: int| buf[wrapped(start, i, buf.len() as int)])
}

/// The buffer after `items` were stored from slot `start` on, in ring order.
pub open spec fn overlaid<T>(buf: Seq<T>, start: int, items: Seq<T>) -> Seq<T> {
    Seq::new(
        buf.len(),
        |p: int|
            {
                let step = (p - start) % (buf.len() as int);
                if step < items.len() {
                    items[step]
                } else {
                    buf[p]
                }
            },
    )
}

/// Storing nothing changes nothing.
pub proof fn overlaid_nothing<T>(buf: Seq<T>, start: int, items: Seq<T>)
    requires
        items.len() == 0,
        0 < buf.len(),
    ensures
        overlaid(buf, start, items) == buf,
{
    let stored = overlaid(buf, start, items);
    assert forall|p: int| 0 <= p < buf.len() implies stored[p] == buf[p] by {
        super::arith::shifted_mod(p - start, buf.len() as int);
    }
    assert(stored =~= buf);
}

/// Storing one more item of `src` changes the next slot.
pub proof fn overlaid_next<T>(buf: Seq<T>, start: int, src: Seq<T>, i: int)
    requires
        0 <= start < buf.len(),
        0 <= i < buf.len(),
        i < src.len(),
    ensures
        overlaid(buf, start, src.take(i + 1)) == overlaid(buf, start, src.take(i)).update(
            wrapped(start, i, buf.len() as int),
            src[i],
        ),
{
    let cap = buf.len() as int;
    let next = overlaid(buf, start, src.take(i + 1));
    let updated = overlaid(buf, start, src.take(i)).update(wrapped(start, i, cap), src[i]);
    super::arith::one_turn(start + i, cap);
    assert forall|p: int| 0 <= p < cap implies next[p] == updated[p] by {
        super::arith::distance(p - start, cap);
    }
    assert(next =~= updated);
}

/// Storing the two pieces of a region in place stores the whole region.
pub proof fn overlaid_pieces<T>(buf: Seq<T>, start: int, a: Seq<T>, b: Seq<T>)
    requires
        0 <= start < buf.len(),
        start + a.len() <= buf.len(),
        b.len() <= start,
        b.len() == 0 || start + a.len() == buf.len(),
    ensures
        (b + buf.subrange(b.len() as int, start)) + (a + buf.subrange(
            start + a.len(),
            buf.len() as int,
        )) == overlaid(buf, start, a + b),
{
    let cap = buf.len() as int;
    let left = (b + buf.subrange(b.len() as int, start)) + (a + buf.subrange(
        start + a.len(),
        cap,
    ));
    let right = overlaid(buf, start, a + b);
    assert forall|p: int| 0 <= p < cap implies left[p] == right[p] by {
        super::arith::distance(p - start, cap);
    }
    assert(left =~= right);
}

/// Moving the writer on appends the slots that it passed.
pub proof fn written_contents<T>(buf: Seq<T>, state: super::word::RingState, amount: int)
    requires
        0 < buf.len(),
        state.inside(buf.len() as int),
        0 <= amount <= state.free(buf.len() as int),
    ensures
        ({
            let cap = buf.len() as int;
            let next = state.after_write(cap, amount);
            &&& next.inside(cap)
            &&& next.data(cap) == state.data(cap) + amount
            &&& region(buf, next.rp, next.data(cap)) == region(buf, state.rp, state.data(cap))
                + region(buf, state.wp, amount)
        }),
{
    let cap = buf.len() as int;
    let next = state.after_write(cap, amount);
    super::arith::distance(state.wp - state.rp, cap);
    super::arith::one_turn(state.wp + amount, cap);
    super::arith::distance(next.wp - next.rp, cap);
    let whole = region(buf, next.rp, next.data(cap));
    let parts = region(buf, state.rp, state.data(cap)) + region(buf, state.wp, amount);
    assert forall|i: int| 0 <= i < whole.len() implies whole[i] == parts[i] by {
        super::arith::one_turn(state.rp + i, cap);
        if i >= state.data(cap) {
            super::arith::one_turn(state.wp + (i - state.data(cap)), cap);
        }
    }
    assert(whole =~= parts);
}

/// Moving the reader on drops the items that it passed.
pub proof fn read_contents<T>(buf: Seq<T>, state: super::word::RingState, amount: int)
    requires
        0 < buf.len(),
        state.inside(buf.len() as int),
        0 <= amount <= state.data(buf.len() as int),
    ensures
        ({
            let cap = buf.len() as int;
            let next = state.after_read(cap, amount);
            &&& next.inside(cap)
            &&& next.data(cap) == state.data(cap) - amount
            &&& region(buf, next.rp, next.data(cap)) == region(
                buf,
                state.rp,
                state.data(cap),
            ).skip(amount)
        }),
{
    let cap = buf.len() as int;
    let next = state.after_read(cap, amount);
    super::arith::distance(state.wp - state.rp, cap);
    super::arith::one_turn(state.rp + amount, cap);
    super::arith::distance(next.wp - next.rp, cap);
    let rest = region(buf, next.rp, next.data(cap));
    let skipped = region(buf, state.rp, state.data(cap)).skip(amount);
    assert forall|i: int| 0 <= i < rest.len() implies rest[i] == skipped[i] by {
        super::arith::one_turn(next.rp + i, cap);
        super::arith::one_turn(state.rp + amount + i, cap);
    }
    assert(rest =~= skipped);
}

/// A region is its front part followed by the rest.
pub proof fn region_split<T>(buf: Seq<T>, start: int, m: int, n: int)
    requires
        0 <= start < buf.len(),
        0 <= m,
        0 <= n,
        m + n <= buf.len(),
    ensures
        region(buf, start, m + n) == region(buf, start, m) + region(
            buf,
            wrapped(start, m, buf.len() as int),
            n,
        ),
{
    let cap = buf.len() as int;
    let whole = region(buf, start, m + n);
    let parts = region(buf, start, m) + region(buf, wrapped(start, m, cap), n);
    super::arith::one_turn(start + m, cap);
    assert forall|i: int| 0 <= i < m + n implies whole[i] == parts[i] by {
        super::arith::one_turn(start + i, cap);
        if i >= m {
            super::arith::one_turn(wrapped(start, m, cap) + (i - m), cap);
        }
    }
    assert(whole =~= parts);
}

/// Reading a region back after storing into it gives what was stored.
pub proof fn region_stored<T>(buf: Seq<T>, start: int, items: Seq<T>)
    requires
        0 <= start < buf.len(),
        items.len() <= buf.len(),
    ensures
        region(overlaid(buf, start, items), start, items.len() as int) == items,
{
    let cap = buf.len() as int;
    let back = region(overlaid(buf, start, items), start, items.len() as int);
    assert forall|i: int| 0 <= i < items.len() implies back[i] == items[i] by {
        super::arith::one_turn(start + i, cap);
        super::arith::distance(wrapped(start, i, cap) - start, cap);
    }
    assert(back =~= items);
}

/// Storing behind a region leaves the region alone.
pub proof fn region_kept<T>(buf: Seq<T>, start: int, len: int, gap: int, items: Seq<T>)
    requires
        0 <= start < buf.len(),
        0 <= len <= gap,
        gap + items.len() <= buf.len(),
        0 < items.len(),
    ensures
        region(overlaid(buf, wrapped(start, gap, buf.len() as int), items), start, len) == region(
            buf,
            start,
            len,
        ),
{
    let cap = buf.len() as int;
    let at = wrapped(start, gap, cap);
    let after = region(overlaid(buf, at, items), start, len);
    let before = region(buf, start, len);
    super::arith::one_turn(start + gap, cap);
    assert forall|i: int| 0 <= i < len implies after[i] == before[i] by {
        super::arith::one_turn(start + i, cap);
        super::arith::distance(wrapped(start, i, cap) - at, cap);
    }
    assert(after =~= before);
}

} // verus!
