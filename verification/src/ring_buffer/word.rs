//! The state word of a ring: the reader position, the writer position and four
//! flags packed into one `usize`.

use vstd::prelude::*;

verus! {

/// Number of high bits reserved for the state flags.
pub const FLAG_BITS: u32 = 4;

/// Number of bits reserved for each position.
pub const POS_BITS: u32 = (usize::BITS - FLAG_BITS) / 2;

/// Mask of one position.
pub const POS_MASK: usize = !0usize >> (usize::BITS - POS_BITS);

/// The maximum buffer length.
pub const MAX_CAPACITY: usize = POS_MASK;

/// The user writer has closed the tx end.
pub const TX_CLOSED: usize = 1usize << (usize::BITS - 1);

/// The user reader has closed the rx end.
pub const RX_CLOSED: usize = 1usize << (usize::BITS - 2);

/// The readable region is reserved by the runtime for a kernel write.
pub const SEND_IN_FLIGHT: usize = 1usize << (usize::BITS - 3);

/// The writable region is reserved by the runtime for a kernel read.
pub const RECV_IN_FLIGHT: usize = 1usize << (usize::BITS - 4);

/// Mask of all four flags.
pub const FLAG_MASK: usize = TX_CLOSED | RX_CLOSED | SEND_IN_FLIGHT | RECV_IN_FLIGHT;

/// The reader position stored in a state word.
pub open spec fn reader_of(state: usize) -> usize {
    state & POS_MASK
}

/// The writer position stored in a state word.
pub open spec fn writer_of(state: usize) -> usize {
    (state >> POS_BITS) & POS_MASK
}

/// Whether a state word carries a flag.
pub open spec fn carries(state: usize, flag: usize) -> bool {
    state & flag != 0
}

/// The word that holds the two positions and no flag.
pub open spec fn packed(rp: usize, wp: usize) -> usize {
    rp | (wp << POS_BITS)
}

/// The reader and writer positions of a state word.
pub fn unpack(state: usize) -> (positions: (usize, usize))
    ensures
        positions == (reader_of(state), writer_of(state)),
{
    (state & POS_MASK, (state >> POS_BITS) & POS_MASK)
}

/// The state word of two positions, without flags.
pub fn pack(rp: usize, wp: usize) -> (state: usize)
    ensures
        state == packed(rp, wp),
{
    rp | (wp << POS_BITS)
}

/// Whether `flag` is set in `state`.
pub fn has_flag(state: usize, flag: usize) -> (set: bool)
    ensures
        set == carries(state, flag),
{
    state & flag != 0
}

/// What a state word means: the two positions and the four flags.
pub ghost struct RingState {
    /// The reader position.
    pub rp: int,
    /// The writer position.
    pub wp: int,
    /// The tx end is closed.
    pub tx_closed: bool,
    /// The rx end is closed.
    pub rx_closed: bool,
    /// The readable region is reserved for a kernel write.
    pub sending: bool,
    /// The writable region is reserved for a kernel read.
    pub receiving: bool,
}

/// The meaning of a state word.
pub open spec fn decode(state: usize) -> RingState {
    RingState {
        rp: reader_of(state) as int,
        wp: writer_of(state) as int,
        tx_closed: carries(state, TX_CLOSED),
        rx_closed: carries(state, RX_CLOSED),
        sending: carries(state, SEND_IN_FLIGHT),
        receiving: carries(state, RECV_IN_FLIGHT),
    }
}

impl RingState {
    /// The state of a fresh ring.
    pub open spec fn initial() -> RingState {
        RingState {
            rp: 0,
            wp: 0,
            tx_closed: false,
            rx_closed: false,
            sending: false,
            receiving: false,
        }
    }

    /// Both positions lie inside a buffer of `cap` slots.
    pub open spec fn inside(self, cap: int) -> bool {
        0 <= self.rp < cap && 0 <= self.wp < cap
    }

    /// The number of buffered items in a buffer of `cap` slots.
    pub open spec fn data(self, cap: int) -> int {
        (self.wp - self.rp) % cap
    }

    /// The number of free slots in a buffer of `cap` slots; one slot always stays unused.
    pub open spec fn free(self, cap: int) -> int {
        cap - 1 - self.data(cap)
    }

    /// The state after the writer moved on by `amount` slots.
    pub open spec fn after_write(self, cap: int, amount: int) -> RingState {
        RingState { wp: (self.wp + amount) % cap, ..self }
    }

    /// The state after the reader moved on by `amount` slots.
    pub open spec fn after_read(self, cap: int, amount: int) -> RingState {
        RingState { rp: (self.rp + amount) % cap, ..self }
    }

    /// The user writer finds a free slot that the runtime has not reserved.
    pub open spec fn writable(self, cap: int) -> bool {
        self.free(cap) > 0 && !self.receiving
    }

    /// The user reader finds a buffered item that the runtime has not reserved.
    pub open spec fn readable(self, cap: int) -> bool {
        self.data(cap) > 0 && !self.sending
    }
}

/// The word after the writer moved on by `amount` slots of a buffer of `cap` slots.
pub fn advanced_writer(state: usize, cap: usize, amount: usize) -> (next: usize)
    requires
        0 < cap <= MAX_CAPACITY,
        writer_of(state) + amount <= usize::MAX,
    ensures
        decode(next) == decode(state).after_write(cap as int, amount as int),
{
    let (rp, wp): (usize, usize) = unpack(state);
    let nw: usize = (wp + amount) % cap;
    proof {
        positions_fit(state);
        moved_positions(state, rp, nw);
    }
    pack(rp, nw) | (state & FLAG_MASK)
}

/// The word after the reader moved on by `amount` slots of a buffer of `cap` slots.
pub fn advanced_reader(state: usize, cap: usize, amount: usize) -> (next: usize)
    requires
        0 < cap <= MAX_CAPACITY,
        reader_of(state) + amount <= usize::MAX,
    ensures
        decode(next) == decode(state).after_read(cap as int, amount as int),
{
    let (rp, wp): (usize, usize) = unpack(state);
    let nr: usize = (rp + amount) % cap;
    proof {
        positions_fit(state);
        moved_positions(state, nr, wp);
    }
    pack(nr, wp) | (state & FLAG_MASK)
}

/// The word after a kernel write of `written` items returned its reservation.
pub fn put_back_sent(state: usize, cap: usize, written: usize) -> (next: usize)
    requires
        0 < cap <= MAX_CAPACITY,
        reader_of(state) + written <= usize::MAX,
    ensures
        decode(next) == (RingState {
            sending: false,
            ..decode(state).after_read(cap as int, written as int)
        }),
{
    let (rp, wp): (usize, usize) = unpack(state);
    let nr: usize = (rp + written) % cap;
    proof {
        positions_fit(state);
        moved_positions_clearing(state, nr, wp, SEND_IN_FLIGHT);
    }
    pack(nr, wp) | (state & FLAG_MASK & !SEND_IN_FLIGHT)
}

/// The word after a kernel read of `received` items returned its reservation.
pub fn put_back_received(state: usize, cap: usize, received: usize) -> (next: usize)
    requires
        0 < cap <= MAX_CAPACITY,
        writer_of(state) + received <= usize::MAX,
    ensures
        decode(next) == (RingState {
            receiving: false,
            ..decode(state).after_write(cap as int, received as int)
        }),
{
    let (rp, wp): (usize, usize) = unpack(state);
    let nw: usize = (wp + received) % cap;
    proof {
        positions_fit(state);
        moved_positions_clearing(state, rp, nw, RECV_IN_FLIGHT);
    }
    pack(rp, nw) | (state & FLAG_MASK & !RECV_IN_FLIGHT)
}

/// A stored position never exceeds the largest capacity.
pub proof fn positions_fit(state: usize)
    ensures
        reader_of(state) <= MAX_CAPACITY,
        writer_of(state) <= MAX_CAPACITY,
{
    assert(state & POS_MASK <= POS_MASK) by (bit_vector);
    assert((state >> POS_BITS) & POS_MASK <= POS_MASK) by (bit_vector);
}

/// The largest capacity leaves room for sums of a few positions.
pub proof fn capacity_bound()
    ensures
        0x3fff <= MAX_CAPACITY < 0x4000_0000,
{
    assert(0x3fff <= POS_MASK < 0x4000_0000) by (bit_vector);
}

/// The zero word is the state of a fresh ring.
pub proof fn zero_word()
    ensures
        decode(0) == RingState::initial(),
{
    assert(forall|m: usize| #[trigger] (0usize & m) == 0) by (bit_vector);
    assert((0usize >> POS_BITS) & POS_MASK == 0) by (bit_vector);
}

/// A word packed from two positions and a set of flags gives back each of them.
pub proof fn pack_unpack(rp: usize, wp: usize, flags: usize)
    requires
        rp <= MAX_CAPACITY,
        wp <= MAX_CAPACITY,
        flags & FLAG_MASK == flags,
    ensures
        reader_of(packed(rp, wp) | flags) == rp,
        writer_of(packed(rp, wp) | flags) == wp,
        (packed(rp, wp) | flags) & FLAG_MASK == flags,
{
    assert(((rp | (wp << POS_BITS)) | flags) & POS_MASK == rp) by (bit_vector)
        requires
            rp <= POS_MASK,
            wp <= POS_MASK,
            flags & FLAG_MASK == flags,
    ;
    assert((((rp | (wp << POS_BITS)) | flags) >> POS_BITS) & POS_MASK == wp) by (bit_vector)
        requires
            rp <= POS_MASK,
            wp <= POS_MASK,
            flags & FLAG_MASK == flags,
    ;
    assert(((rp | (wp << POS_BITS)) | flags) & FLAG_MASK == flags) by (bit_vector)
        requires
            rp <= POS_MASK,
            wp <= POS_MASK,
            flags & FLAG_MASK == flags,
    ;
}

/// Repacking a word with new positions keeps its flags.
pub proof fn moved_positions(state: usize, rp: usize, wp: usize)
    requires
        rp <= MAX_CAPACITY,
        wp <= MAX_CAPACITY,
    ensures
        decode(packed(rp, wp) | (state & FLAG_MASK)) == (RingState {
            rp: rp as int,
            wp: wp as int,
            ..decode(state)
        }),
{
    let kept = state & FLAG_MASK;
    let next = packed(rp, wp) | kept;
    assert(kept & FLAG_MASK == kept) by (bit_vector)
        requires
            kept == state & FLAG_MASK,
    ;
    pack_unpack(rp, wp, kept);
    assert(next & TX_CLOSED == state & TX_CLOSED && next & RX_CLOSED == state & RX_CLOSED && next
        & SEND_IN_FLIGHT == state & SEND_IN_FLIGHT && next & RECV_IN_FLIGHT == state
        & RECV_IN_FLIGHT) by (bit_vector)
        requires
            next & FLAG_MASK == kept,
            kept == state & FLAG_MASK,
    ;
}

/// Repacking a word with new positions and without one flag keeps its other flags.
pub proof fn moved_positions_clearing(state: usize, rp: usize, wp: usize, flag: usize)
    requires
        rp <= MAX_CAPACITY,
        wp <= MAX_CAPACITY,
        flag == SEND_IN_FLIGHT || flag == RECV_IN_FLIGHT,
    ensures
        decode(packed(rp, wp) | (state & FLAG_MASK & !flag)) == (RingState {
            rp: rp as int,
            wp: wp as int,
            sending: decode(state).sending && flag != SEND_IN_FLIGHT,
            receiving: decode(state).receiving && flag != RECV_IN_FLIGHT,
            ..decode(state)
        }),
        SEND_IN_FLIGHT != RECV_IN_FLIGHT,
{
    let kept = state & FLAG_MASK & !flag;
    let next = packed(rp, wp) | kept;
    assert(kept & FLAG_MASK == kept) by (bit_vector)
        requires
            kept == state & FLAG_MASK & !flag,
    ;
    pack_unpack(rp, wp, kept);
    assert(SEND_IN_FLIGHT != RECV_IN_FLIGHT) by (bit_vector);
    assert(next & TX_CLOSED == state & TX_CLOSED && next & RX_CLOSED == state & RX_CLOSED && (if flag
        == SEND_IN_FLIGHT {
        next & SEND_IN_FLIGHT == 0 && next & RECV_IN_FLIGHT == state & RECV_IN_FLIGHT
    } else {
        next & RECV_IN_FLIGHT == 0 && next & SEND_IN_FLIGHT == state & SEND_IN_FLIGHT
    })) by (bit_vector)
        requires
            next & FLAG_MASK == kept,
            kept == state & FLAG_MASK & !flag,
            flag == SEND_IN_FLIGHT || flag == RECV_IN_FLIGHT,
    ;
}

/// The four flags are different bits.
pub proof fn flags_differ()
    ensures
        TX_CLOSED != RX_CLOSED,
        TX_CLOSED != SEND_IN_FLIGHT,
        TX_CLOSED != RECV_IN_FLIGHT,
        RX_CLOSED != SEND_IN_FLIGHT,
        RX_CLOSED != RECV_IN_FLIGHT,
        SEND_IN_FLIGHT != RECV_IN_FLIGHT,
{
    assert(TX_CLOSED != RX_CLOSED && TX_CLOSED != SEND_IN_FLIGHT && TX_CLOSED != RECV_IN_FLIGHT
        && RX_CLOSED != SEND_IN_FLIGHT && RX_CLOSED != RECV_IN_FLIGHT && SEND_IN_FLIGHT
        != RECV_IN_FLIGHT) by (bit_vector);
}

/// Setting a flag changes neither the positions nor another flag.
pub proof fn flag_set(state: usize, flag: usize)
    requires
        flag == TX_CLOSED || flag == RX_CLOSED || flag == SEND_IN_FLIGHT || flag == RECV_IN_FLIGHT,
    ensures
        decode(state | flag) == (RingState {
            tx_closed: decode(state).tx_closed || flag == TX_CLOSED,
            rx_closed: decode(state).rx_closed || flag == RX_CLOSED,
            sending: decode(state).sending || flag == SEND_IN_FLIGHT,
            receiving: decode(state).receiving || flag == RECV_IN_FLIGHT,
            ..decode(state)
        }),
{
    let next = state | flag;
    assert(next & POS_MASK == state & POS_MASK && (next >> POS_BITS) & POS_MASK == (state
        >> POS_BITS) & POS_MASK) by (bit_vector)
        requires
            next == state | flag,
            flag == TX_CLOSED || flag == RX_CLOSED || flag == SEND_IN_FLIGHT || flag
                == RECV_IN_FLIGHT,
    ;
    assert((next & TX_CLOSED != 0) == (state & TX_CLOSED != 0 || flag == TX_CLOSED) && (next
        & RX_CLOSED != 0) == (state & RX_CLOSED != 0 || flag == RX_CLOSED) && (next & SEND_IN_FLIGHT
        != 0) == (state & SEND_IN_FLIGHT != 0 || flag == SEND_IN_FLIGHT) && (next & RECV_IN_FLIGHT
        != 0) == (state & RECV_IN_FLIGHT != 0 || flag == RECV_IN_FLIGHT)) by (bit_vector)
        requires
            next == state | flag,
            flag == TX_CLOSED || flag == RX_CLOSED || flag == SEND_IN_FLIGHT || flag
                == RECV_IN_FLIGHT,
    ;
}

} // verus!
