//! How a lock word tells "acquired" from "released".

use std::marker::PhantomData;

use vstd::prelude::*;

verus! {

/// An unsigned word whose topmost bit can be singled out.
pub trait TrUnsigned: Copy {
    /// The word that holds nothing but its topmost bit.
    spec fn top() -> Self;

    /// The topmost bit is set.
    spec fn has_top(self) -> bool;

    /// The word with its topmost bit set and the others kept.
    spec fn with_top(self) -> Self;

    /// The word with its topmost bit cleared and the others kept.
    spec fn without_top(self) -> Self;

    /// Zero.
    spec fn zero_word() -> Self;

    /// Setting and clearing the topmost bit undo each other.
    proof fn top_bit(self)
        ensures
            Self::top().has_top(),
            !Self::zero_word().has_top(),
            Self::zero_word().with_top() == Self::top(),
            self.with_top().has_top(),
            !self.without_top().has_top(),
            self.with_top().without_top() == self.without_top(),
            self.without_top().with_top() == self.with_top(),
            self.has_top() ==> self.with_top() == self,
            !self.has_top() ==> self.without_top() == self,
    ;

    /// The word that holds nothing but its topmost bit.
    fn top_flag() -> (word: Self)
        ensures
            word == Self::top(),
    ;

    /// Zero.
    fn zero() -> (word: Self)
        ensures
            word == Self::zero_word(),
    ;

    /// Tests the topmost bit.
    fn tests_top(self) -> (set: bool)
        ensures
            set == self.has_top(),
    ;

    /// Sets the topmost bit.
    fn sets_top(self) -> (word: Self)
        ensures
            word == self.with_top(),
    ;

    /// Clears the topmost bit.
    fn clears_top(self) -> (word: Self)
        ensures
            word == self.without_top(),
    ;

    /// Compares two words.
    fn same(self, other: Self) -> (equal: bool)
        ensures
            equal == (self == other),
    ;
}

impl TrUnsigned for u8 {
    open spec fn top() -> u8 {
        0x80u8
    }

    open spec fn has_top(self) -> bool {
        self >= 0x80u8
    }

    open spec fn with_top(self) -> u8 {
        if self >= 0x80u8 {
            self
        } else {
            (self + 0x80u8) as u8
        }
    }

    open spec fn without_top(self) -> u8 {
        if self >= 0x80u8 {
            (self - 0x80u8) as u8
        } else {
            self
        }
    }

    open spec fn zero_word() -> u8 {
        0
    }

    proof fn top_bit(self) {
    }

    fn top_flag() -> (word: u8) {
        assert(1u8 << (u8::BITS - 1) == 0x80u8) by (bit_vector);
        1u8 << (u8::BITS - 1)
    }

    fn zero() -> (word: u8) {
        0
    }

    fn tests_top(self) -> (set: bool) {
        assert((self & 0x80u8 == 0x80u8) == (self >= 0x80u8)) by (bit_vector);
        self & Self::top_flag() == Self::top_flag()
    }

    fn sets_top(self) -> (word: u8) {
        assert(self | 0x80u8 == if self >= 0x80u8 { self as int } else { self + 0x80u8 }) by (bit_vector);
        self | Self::top_flag()
    }

    fn clears_top(self) -> (word: u8) {
        assert(self & !0x80u8 == if self >= 0x80u8 { self - 0x80u8 } else { self as int }) by (bit_vector);
        self & !Self::top_flag()
    }

    fn same(self, other: u8) -> (equal: bool) {
        self == other
    }
}

impl TrUnsigned for u16 {
    open spec fn top() -> u16 {
        0x8000u16
    }

    open spec fn has_top(self) -> bool {
        self >= 0x8000u16
    }

    open spec fn with_top(self) -> u16 {
        if self >= 0x8000u16 {
            self
        } else {
            (self + 0x8000u16) as u16
        }
    }

    open spec fn without_top(self) -> u16 {
        if self >= 0x8000u16 {
            (self - 0x8000u16) as u16
        } else {
            self
        }
    }

    open spec fn zero_word() -> u16 {
        0
    }

    proof fn top_bit(self) {
    }

    fn top_flag() -> (word: u16) {
        assert(1u16 << (u16::BITS - 1) == 0x8000u16) by (bit_vector);
        1u16 << (u16::BITS - 1)
    }

    fn zero() -> (word: u16) {
        0
    }

    fn tests_top(self) -> (set: bool) {
        assert((self & 0x8000u16 == 0x8000u16) == (self >= 0x8000u16)) by (bit_vector);
        self & Self::top_flag() == Self::top_flag()
    }

    fn sets_top(self) -> (word: u16) {
        assert(self | 0x8000u16 == if self >= 0x8000u16 { self as int } else { self + 0x8000u16 }) by (bit_vector);
        self | Self::top_flag()
    }

    fn clears_top(self) -> (word: u16) {
        assert(self & !0x8000u16 == if self >= 0x8000u16 { self - 0x8000u16 } else { self as int }) by (bit_vector);
        self & !Self::top_flag()
    }

    fn same(self, other: u16) -> (equal: bool) {
        self == other
    }
}

impl TrUnsigned for u32 {
    open spec fn top() -> u32 {
        0x8000_0000u32
    }

    open spec fn has_top(self) -> bool {
        self >= 0x8000_0000u32
    }

    open spec fn with_top(self) -> u32 {
        if self >= 0x8000_0000u32 {
            self
        } else {
            (self + 0x8000_0000u32) as u32
        }
    }

    open spec fn without_top(self) -> u32 {
        if self >= 0x8000_0000u32 {
            (self - 0x8000_0000u32) as u32
        } else {
            self
        }
    }

    open spec fn zero_word() -> u32 {
        0
    }

    proof fn top_bit(self) {
    }

    fn top_flag() -> (word: u32) {
        assert(1u32 << (u32::BITS - 1) == 0x8000_0000u32) by (bit_vector);
        1u32 << (u32::BITS - 1)
    }

    fn zero() -> (word: u32) {
        0
    }

    fn tests_top(self) -> (set: bool) {
        assert((self & 0x8000_0000u32 == 0x8000_0000u32) == (self >= 0x8000_0000u32)) by (bit_vector);
        self & Self::top_flag() == Self::top_flag()
    }

    fn sets_top(self) -> (word: u32) {
        assert(self | 0x8000_0000u32 == if self >= 0x8000_0000u32 { self as int } else { self + 0x8000_0000u32 }) by (bit_vector);
        self | Self::top_flag()
    }

    fn clears_top(self) -> (word: u32) {
        assert(self & !0x8000_0000u32 == if self >= 0x8000_0000u32 { self - 0x8000_0000u32 } else { self as int }) by (bit_vector);
        self & !Self::top_flag()
    }

    fn same(self, other: u32) -> (equal: bool) {
        self == other
    }
}

impl TrUnsigned for u64 {
    open spec fn top() -> u64 {
        0x8000_0000_0000_0000u64
    }

    open spec fn has_top(self) -> bool {
        self >= 0x8000_0000_0000_0000u64
    }

    open spec fn with_top(self) -> u64 {
        if self >= 0x8000_0000_0000_0000u64 {
            self
        } else {
            (self + 0x8000_0000_0000_0000u64) as u64
        }
    }

    open spec fn without_top(self) -> u64 {
        if self >= 0x8000_0000_0000_0000u64 {
            (self - 0x8000_0000_0000_0000u64) as u64
        } else {
            self
        }
    }

    open spec fn zero_word() -> u64 {
        0
    }

    proof fn top_bit(self) {
    }

    fn top_flag() -> (word: u64) {
        assert(1u64 << (u64::BITS - 1) == 0x8000_0000_0000_0000u64) by (bit_vector);
        1u64 << (u64::BITS - 1)
    }

    fn zero() -> (word: u64) {
        0
    }

    fn tests_top(self) -> (set: bool) {
        assert((self & 0x8000_0000_0000_0000u64 == 0x8000_0000_0000_0000u64) == (self >= 0x8000_0000_0000_0000u64)) by (bit_vector);
        self & Self::top_flag() == Self::top_flag()
    }

    fn sets_top(self) -> (word: u64) {
        assert(self | 0x8000_0000_0000_0000u64 == if self >= 0x8000_0000_0000_0000u64 { self as int } else { self + 0x8000_0000_0000_0000u64 }) by (bit_vector);
        self | Self::top_flag()
    }

    fn clears_top(self) -> (word: u64) {
        assert(self & !0x8000_0000_0000_0000u64 == if self >= 0x8000_0000_0000_0000u64 { self - 0x8000_0000_0000_0000u64 } else { self as int }) by (bit_vector);
        self & !Self::top_flag()
    }

    fn same(self, other: u64) -> (equal: bool) {
        self == other
    }
}

impl TrUnsigned for u128 {
    open spec fn top() -> u128 {
        0x8000_0000_0000_0000_0000_0000_0000_0000u128
    }

    open spec fn has_top(self) -> bool {
        self >= 0x8000_0000_0000_0000_0000_0000_0000_0000u128
    }

    open spec fn with_top(self) -> u128 {
        if self >= 0x8000_0000_0000_0000_0000_0000_0000_0000u128 {
            self
        } else {
            (self + 0x8000_0000_0000_0000_0000_0000_0000_0000u128) as u128
        }
    }

    open spec fn without_top(self) -> u128 {
        if self >= 0x8000_0000_0000_0000_0000_0000_0000_0000u128 {
            (self - 0x8000_0000_0000_0000_0000_0000_0000_0000u128) as u128
        } else {
            self
        }
    }

    open spec fn zero_word() -> u128 {
        0
    }

    proof fn top_bit(self) {
    }

    fn top_flag() -> (word: u128) {
        assert(1u128 << (u128::BITS - 1) == 0x8000_0000_0000_0000_0000_0000_0000_0000u128) by (bit_vector);
        1u128 << (u128::BITS - 1)
    }

    fn zero() -> (word: u128) {
        0
    }

    fn tests_top(self) -> (set: bool) {
        assert((self & 0x8000_0000_0000_0000_0000_0000_0000_0000u128 == 0x8000_0000_0000_0000_0000_0000_0000_0000u128) == (self >= 0x8000_0000_0000_0000_0000_0000_0000_0000u128)) by (bit_vector);
        self & Self::top_flag() == Self::top_flag()
    }

    fn sets_top(self) -> (word: u128) {
        assert(self | 0x8000_0000_0000_0000_0000_0000_0000_0000u128 == if self >= 0x8000_0000_0000_0000_0000_0000_0000_0000u128 { self as int } else { self + 0x8000_0000_0000_0000_0000_0000_0000_0000u128 }) by (bit_vector);
        self | Self::top_flag()
    }

    fn clears_top(self) -> (word: u128) {
        assert(self & !0x8000_0000_0000_0000_0000_0000_0000_0000u128 == if self >= 0x8000_0000_0000_0000_0000_0000_0000_0000u128 { self - 0x8000_0000_0000_0000_0000_0000_0000_0000u128 } else { self as int }) by (bit_vector);
        self & !Self::top_flag()
    }

    fn same(self, other: u128) -> (equal: bool) {
        self == other
    }
}

impl TrUnsigned for usize {
    open spec fn top() -> usize {
        1usize << ((usize::BITS - 1) as u32)
    }

    open spec fn has_top(self) -> bool {
        self >= Self::top()
    }

    open spec fn with_top(self) -> usize {
        if self >= Self::top() {
            self
        } else {
            (self + Self::top()) as usize
        }
    }

    open spec fn without_top(self) -> usize {
        if self >= Self::top() {
            (self - Self::top()) as usize
        } else {
            self
        }
    }

    open spec fn zero_word() -> usize {
        0
    }

    proof fn top_bit(self) {
        let top = Self::top();
        assert(0 < top && (self < top ==> (self + top) as usize == self + top) && (self >= top
            ==> self - top < top)) by (bit_vector)
            requires
                top == 1usize << ((usize::BITS - 1) as u32),
        ;
    }

    fn top_flag() -> (word: usize) {
        1usize << (usize::BITS - 1)
    }

    fn zero() -> (word: usize) {
        0
    }

    fn tests_top(self) -> (set: bool) {
        let top: usize = Self::top_flag();
        assert((self & top == top) == (self >= top)) by (bit_vector)
            requires
                top == 1usize << ((usize::BITS - 1) as u32),
        ;
        self & top == top
    }

    fn sets_top(self) -> (word: usize) {
        let top: usize = Self::top_flag();
        assert(self | top == if self >= top { self } else { (self + top) as usize }) by (bit_vector)
            requires
                top == 1usize << ((usize::BITS - 1) as u32),
        ;
        self | top
    }

    fn clears_top(self) -> (word: usize) {
        let top: usize = Self::top_flag();
        assert(self & !top == if self >= top { (self - top) as usize } else { self }) by (bit_vector)
            requires
                top == 1usize << ((usize::BITS - 1) as u32),
        ;
        self & !top
    }

    fn same(self, other: usize) -> (equal: bool) {
        self == other
    }
}

/// A helper trait to define spinlock behaviour: how a lock word is marked.
pub trait TrMutexSignal<V: Copy> {
    /// The word is marked as acquired.
    spec fn acquired(val: V) -> bool;

    /// The word can be marked as acquired.
    spec fn acquirable(val: V) -> bool;

    /// The word can be marked as released.
    spec fn releasable(val: V) -> bool;

    /// The word, marked as acquired.
    spec fn acquire_of(val: V) -> V;

    /// The word, marked as released.
    spec fn release_of(val: V) -> V;

    /// Marking a released word as acquired and an acquired word as released is
    /// possible, takes effect, and the one undoes the other.
    proof fn round_trip(val: V)
        ensures
            !Self::acquired(val) ==> {
                &&& Self::acquirable(val)
                &&& Self::acquired(Self::acquire_of(val))
                &&& Self::release_of(Self::acquire_of(val)) == val
            },
            Self::acquired(val) ==> {
                &&& Self::releasable(val)
                &&& !Self::acquired(Self::release_of(val))
                &&& Self::acquire_of(Self::release_of(val)) == val
            },
    ;

    /// Is the word marked as acquired?
    fn is_acquired(val: V) -> (is: bool)
        ensures
            is == Self::acquired(val),
    ;

    /// Is the word marked as released?
    fn is_released(val: V) -> (is: bool)
        ensures
            is == !Self::acquired(val),
    {
        !Self::is_acquired(val)
    }

    /// Marks the word as acquired.
    fn make_acquired(val: V) -> (made: V)
        requires
            Self::acquirable(val),
        ensures
            made == Self::acquire_of(val),
    ;

    /// Marks the word as released.
    fn make_released(val: V) -> (made: V)
        requires
            Self::releasable(val),
        ensures
            made == Self::release_of(val),
    ;
}

/// The topmost bit of the word is the mark; the other bits are left to the user.
#[derive(Debug)]
pub struct MsbAsMutexSignal<V: TrUnsigned>(PhantomData<V>);

impl<V: TrUnsigned> MsbAsMutexSignal<V> {
    /// The word that holds the mark alone.
    #[allow(non_snake_case)]
    pub fn K_MSB_FLAG() -> (flag: V)
        ensures
            flag == V::top(),
    {
        V::top_flag()
    }
}

impl<V: TrUnsigned> TrMutexSignal<V> for MsbAsMutexSignal<V> {
    open spec fn acquired(val: V) -> bool {
        val.has_top()
    }

    open spec fn acquirable(val: V) -> bool {
        true
    }

    open spec fn releasable(val: V) -> bool {
        true
    }

    open spec fn acquire_of(val: V) -> V {
        val.with_top()
    }

    open spec fn release_of(val: V) -> V {
        val.without_top()
    }

    proof fn round_trip(val: V) {
        val.top_bit();
    }

    fn is_acquired(val: V) -> (is: bool) {
        val.tests_top()
    }

    fn make_acquired(val: V) -> (made: V) {
        val.sets_top()
    }

    fn make_released(val: V) -> (made: V) {
        val.clears_top()
    }
}

/// The lowest bit of an address is the mark: an acquired lock holds an odd address.
///
/// The addresses themselves have to be even. An odd one is taken for acquired from the
/// start, and releasing it yields another address.
#[derive(Debug)]
pub struct PtrAsMutexSignal<T>(PhantomData<T>);

/// Addresses are told apart by their remainder modulo this number.
const K_MOD: usize = 2;

/// The remainder of an acquired address.
const K_RES: usize = 1;

impl<T> TrMutexSignal<usize> for PtrAsMutexSignal<T> {
    open spec fn acquired(val: usize) -> bool {
        val % 2 == 1
    }

    open spec fn acquirable(val: usize) -> bool {
        val < usize::MAX
    }

    open spec fn releasable(val: usize) -> bool {
        val > 0
    }

    open spec fn acquire_of(val: usize) -> usize {
        (val + 1) as usize
    }

    open spec fn release_of(val: usize) -> usize {
        (val - 1) as usize
    }

    proof fn round_trip(val: usize) {
        assert(usize::MAX % 2 == 1) by {
            assert(usize::MAX == 0xffff_ffff || usize::MAX == 0xffff_ffff_ffff_ffff);
        }
    }

    fn is_acquired(val: usize) -> (is: bool) {
        val % K_MOD == K_RES
    }

    fn make_acquired(val: usize) -> (made: usize) {
        val + K_RES
    }

    fn make_released(val: usize) -> (made: usize) {
        val - K_RES
    }
}

} // verus!
