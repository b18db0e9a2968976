//! A configurable spinlock, usually for further encapsulation.
//!
//! [`SpinAcquire`] decides what a contender asks of the shared lock word, for every
//! value of the word that it may see and every answer that it may get.
//! [`SpinningMutex`] is the lock whose word is at the caller's hand: each of its
//! operations is one such attempt, carried out at once.

use std::marker::PhantomData;

use vstd::prelude::*;

use super::signal::{MsbAsMutexSignal, TrMutexSignal, TrUnsigned};

verus! {

/// A place that holds a lock word.
pub trait TrStateCell<V: TrUnsigned> {
    /// The word.
    spec fn word(&self) -> V;

    /// Reads the word.
    fn value(&self) -> (val: V)
        ensures
            val == self.word(),
    ;

    /// Replaces the word.
    fn store(&mut self, val: V)
        ensures
            final(self).word() == val,
    ;
}

/// The word lies in the lock itself.
impl<V: TrUnsigned> TrStateCell<V> for V {
    open spec fn word(&self) -> V {
        *self
    }

    fn value(&self) -> (val: V) {
        *self
    }

    fn store(&mut self, val: V) {
        *self = val;
    }
}

/// The word lies elsewhere, and the lock borrows it. The place holds the last word of
/// the lock once the lock is gone; the contracts speak of the word while it is borrowed.
impl<'a, V: TrUnsigned> TrStateCell<V> for &'a mut V {
    open spec fn word(&self) -> V {
        **self
    }

    fn value(&self) -> (val: V) {
        **self
    }

    fn store(&mut self, val: V) {
        **self = val;
    }
}

/// What a contender does next.
#[derive(Debug, PartialEq, Eq)]
pub enum SpinAction<V> {
    /// Stop: the caller has cancelled.
    GiveUp,
    /// Read the lock word again.
    Reload,
    /// Replace the word by `desired` if it still is `expected`.
    Exchange { expected: V, desired: V },
}

/// A contender that spins on a lock word until it has acquired the lock or is
/// cancelled.
///
/// The word is shared with others, so it may differ from what the contender saw last.
pub struct SpinAcquire<V: TrUnsigned, S: TrMutexSignal<V>> {
    current: V,
    _signal: PhantomData<S>,
}

impl<V: TrUnsigned, S: TrMutexSignal<V>> SpinAcquire<V, S> {
    /// The word as the contender saw it last.
    pub closed spec fn seen(&self) -> V {
        self.current
    }

    /// A contender that has just read the word.
    pub fn new(value: V) -> (spin: Self)
        ensures
            spin.seen() == value,
    {
        SpinAcquire { current: value, _signal: PhantomData }
    }

    /// Decides what to do next.
    ///
    /// Cancellation is looked at first, so a contender that is cancelled from the
    /// start never acquires the lock. A word that is acquired is read again; one that
    /// is released is to be exchanged.
    pub fn next(&self, cancelled: bool) -> (action: SpinAction<V>)
        ensures
            action == if cancelled {
                SpinAction::GiveUp
            } else if S::acquired(self.seen()) {
                SpinAction::Reload
            } else {
                SpinAction::Exchange {
                    expected: self.seen(),
                    desired: S::acquire_of(self.seen()),
                }
            },
    {
        if cancelled {
            return SpinAction::GiveUp;
        }
        if !S::is_released(self.current) {
            return SpinAction::Reload;
        }
        proof {
            S::round_trip(self.current);
        }
        SpinAction::Exchange { expected: self.current, desired: S::make_acquired(self.current) }
    }

    /// Takes note of the word: after a reload, or after an exchange that failed.
    pub fn observe(&mut self, value: V)
        ensures
            final(self).seen() == value,
    {
        self.current = value;
    }
}

/// What the holder of the lock does to release it, given the word as it saw it last:
/// the word to put in its place, or nothing if the word is not acquired.
pub fn release_step<V: TrUnsigned, S: TrMutexSignal<V>>(current: V) -> (desired: Option<V>)
    ensures
        desired == if S::acquired(current) {
            Some(S::release_of(current))
        } else {
            None
        },
{
    if !S::is_acquired(current) {
        return None;
    }
    proof {
        S::round_trip(current);
    }
    Some(S::make_released(current))
}

/// A spinlock: a lock word in a cell and the data that it guards.
///
/// Handles, waits and guards carry the identity of their lock and can be used with that
/// lock alone.
pub struct SpinningMutex<
    T,
    V = usize,
    B = usize,
    S = MsbAsMutexSignal<V>,
> where V: TrUnsigned, B: TrStateCell<V>, S: TrMutexSignal<V> {
    state_: B,
    value_: T,
    id_: Ghost<int>,
    _use: PhantomData<(V, S)>,
}

/// A lock whose word is borrowed from the caller.
pub type SpinningMutexEmbedded<'a, T, V = usize, S = MsbAsMutexSignal<V>> = SpinningMutex<
    T,
    V,
    &'a mut V,
    S,
>;

/// A lock that owns its word.
pub type SpinningMutexOwned<T, V = usize, S = MsbAsMutexSignal<V>> = SpinningMutex<T, V, V, S>;

impl<'a, T, V: TrUnsigned, S: TrMutexSignal<V>> SpinningMutex<T, V, &'a mut V, S> {
    /// A lock over a borrowed cell, which is reset to zero first.
    pub fn new_embedded(data: T, cell: &'a mut V) -> (mutex: Self)
        ensures
            mutex.data() == data,
            mutex.word() == V::zero_word(),
    {
        *cell = V::zero();
        SpinningMutex::new(data, cell)
    }
}

impl<T, V: TrUnsigned, S: TrMutexSignal<V>> SpinningMutex<T, V, V, S> {
    /// A lock with a cell of its own, which holds zero.
    pub fn new_owned(data: T) -> (mutex: Self)
        ensures
            mutex.data() == data,
            mutex.word() == V::zero_word(),
    {
        SpinningMutex::new(data, V::zero())
    }
}

impl<T, V, B, S> SpinningMutex<T, V, B, S> where
    V: TrUnsigned,
    B: TrStateCell<V>,
    S: TrMutexSignal<V>,
 {
    /// The guarded data.
    pub closed spec fn data(&self) -> T {
        self.value_
    }

    /// The lock word.
    pub closed spec fn word(&self) -> V {
        self.state_.word()
    }

    /// The identity of the lock.
    pub closed spec fn id(&self) -> int {
        self.id_@
    }

    /// A lock over a cell, which keeps the word it holds.
    pub fn new(data: T, cell: B) -> (mutex: Self)
        ensures
            mutex.data() == data,
            mutex.word() == cell.word(),
    {
        SpinningMutex { state_: cell, value_: data, id_: Ghost(arbitrary()), _use: PhantomData }
    }

    /// Takes the data out of the lock.
    pub fn into_inner(self) -> (data: T)
        ensures
            data == self.data(),
    {
        self.value_
    }

    /// Does somebody hold the lock?
    pub fn is_acquired(&self) -> (is: bool)
        ensures
            is == S::acquired(self.word()),
    {
        S::is_acquired(self.state_.value())
    }

    /// The lock word.
    pub fn value(&self) -> (val: V)
        ensures
            val == self.word(),
    {
        self.state_.value()
    }

    /// A handle to acquire this lock with.
    pub fn acquire(&self) -> (acq: Acquire<V, S>)
        ensures
            acq.of() == self.id(),
    {
        Acquire { of: self.id_, _use: PhantomData }
    }

    /// Replaces the word by `desired` if it is `expected`, and returns the word found.
    fn compare_exchange_(&mut self, expected: V, desired: V) -> (res: Result<V, V>)
        ensures
            final(self).data() == old(self).data(),
            final(self).id() == old(self).id(),
            old(self).word() == expected ==> res == Ok::<V, V>(expected) && final(self).word()
                == desired,
            old(self).word() != expected ==> res == Err::<V, V>(old(self).word())
                && *final(self) == *old(self),
    {
        let found = self.state_.value();
        if found.same(expected) {
            self.state_.store(desired);
            Ok(found)
        } else {
            Err(found)
        }
    }
}

/// A handle through which one party acquires a lock.
pub struct Acquire<V: TrUnsigned, S: TrMutexSignal<V>> {
    of: Ghost<int>,
    _use: PhantomData<(V, S)>,
}

impl<V: TrUnsigned, S: TrMutexSignal<V>> Acquire<V, S> {
    /// The identity of the lock.
    pub closed spec fn of(&self) -> int {
        self.of@
    }

    /// Prepares to wait for the lock.
    pub fn lock(&mut self) -> (wait: MayBreakLock<V, S>)
        ensures
            *final(self) == *old(self),
            wait.of() == old(self).of(),
    {
        MayBreakLock { of: self.of, _use: PhantomData }
    }

    /// Acquires the lock if nobody holds it.
    pub fn try_lock<T, B: TrStateCell<V>>(
        &mut self,
        mutex: &mut SpinningMutex<T, V, B, S>,
    ) -> (guard: Option<MutexGuard<V, S>>)
        requires
            old(self).of() == old(mutex).id(),
        ensures
            *final(self) == *old(self),
            guard is Some <==> !S::acquired(old(mutex).word()),
            guard matches Some(g) ==> g.of() == final(mutex).id(),
            final(mutex).id() == old(mutex).id(),
            guard is Some ==> final(mutex).data() == old(mutex).data() && final(mutex).word()
                == S::acquire_of(old(mutex).word()),
            guard is None ==> *final(mutex) == *old(mutex),
    {
        let spin = SpinAcquire::<V, S>::new(mutex.value());
        match spin.next(false) {
            SpinAction::Exchange { expected, desired } => match mutex.compare_exchange_(
                expected,
                desired,
            ) {
                Ok(_) => Some(MutexGuard { of: self.of, _use: PhantomData }),
                Err(_) => None,
            },
            _ => None,
        }
    }
}

/// A wait for the lock that the caller may break off.
pub struct MayBreakLock<V: TrUnsigned, S: TrMutexSignal<V>> {
    of: Ghost<int>,
    _use: PhantomData<(V, S)>,
}

impl<V: TrUnsigned, S: TrMutexSignal<V>> MayBreakLock<V, S> {
    /// The identity of the lock.
    pub closed spec fn of(&self) -> int {
        self.of@
    }

    /// Waits for the lock, unless cancelled.
    ///
    /// A lock that is held by somebody else has to be released first, or the wait would
    /// not end.
    pub fn may_break_with<T, B: TrStateCell<V>>(
        self,
        mutex: &mut SpinningMutex<T, V, B, S>,
        cancelled: bool,
    ) -> (guard: Option<MutexGuard<V, S>>)
        requires
            self.of() == old(mutex).id(),
            cancelled || !S::acquired(old(mutex).word()),
        ensures
            guard is Some <==> !cancelled,
            guard matches Some(g) ==> g.of() == final(mutex).id(),
            final(mutex).id() == old(mutex).id(),
            guard is Some ==> final(mutex).data() == old(mutex).data() && final(mutex).word()
                == S::acquire_of(old(mutex).word()),
            guard is None ==> *final(mutex) == *old(mutex),
    {
        let spin = SpinAcquire::<V, S>::new(mutex.value());
        match spin.next(cancelled) {
            SpinAction::Exchange { expected, desired } => match mutex.compare_exchange_(
                expected,
                desired,
            ) {
                Ok(_) => Some(MutexGuard { of: self.of, _use: PhantomData }),
                Err(_) => None,
            },
            _ => None,
        }
    }

    /// Waits for the lock.
    pub fn wait<T, B: TrStateCell<V>>(
        self,
        mutex: &mut SpinningMutex<T, V, B, S>,
    ) -> (guard: Option<MutexGuard<V, S>>)
        requires
            self.of() == old(mutex).id(),
            !S::acquired(old(mutex).word()),
        ensures
            guard matches Some(g) && g.of() == final(mutex).id(),
            final(mutex).id() == old(mutex).id(),
            final(mutex).data() == old(mutex).data(),
            final(mutex).word() == S::acquire_of(old(mutex).word()),
    {
        self.may_break_with(mutex, false)
    }
}

/// The right to use the data of an acquired lock.
pub struct MutexGuard<V: TrUnsigned, S: TrMutexSignal<V>> {
    of: Ghost<int>,
    _use: PhantomData<(V, S)>,
}

impl<V: TrUnsigned, S: TrMutexSignal<V>> MutexGuard<V, S> {
    /// The identity of the lock.
    pub closed spec fn of(&self) -> int {
        self.of@
    }

    /// The guarded data.
    pub fn get<'m, T, B: TrStateCell<V>>(&self, mutex: &'m SpinningMutex<T, V, B, S>) -> (data:
        &'m T)
        requires
            self.of() == mutex.id(),
        ensures
            *data == mutex.data(),
    {
        &mutex.value_
    }

    /// The guarded data, to be changed.
    pub fn get_mut<'m, T, B: TrStateCell<V>>(
        &mut self,
        mutex: &'m mut SpinningMutex<T, V, B, S>,
    ) -> (data: &'m mut T)
        requires
            old(self).of() == old(mutex).id(),
        ensures
            *final(self) == *old(self),
            final(mutex).id() == old(mutex).id(),
            *data == old(mutex).data(),
            final(mutex).data() == *final(data),
            final(mutex).word() == old(mutex).word(),
    {
        &mut mutex.value_
    }

    /// Releases the lock.
    ///
    /// Returns whether it was still acquired: the word is left alone otherwise.
    pub fn unlock<T, B: TrStateCell<V>>(self, mutex: &mut SpinningMutex<T, V, B, S>) -> (was: bool)
        requires
            self.of() == old(mutex).id(),
        ensures
            final(mutex).id() == old(mutex).id(),
            was == S::acquired(old(mutex).word()),
            was ==> final(mutex).data() == old(mutex).data() && final(mutex).word()
                == S::release_of(old(mutex).word()),
            !was ==> *final(mutex) == *old(mutex),
    {
        let current = mutex.value();
        match release_step::<V, S>(current) {
            Some(desired) => {
                match mutex.compare_exchange_(current, desired) {
                    Ok(_) => true,
                    Err(_) => false,
                }
            },
            None => false,
        }
    }
}

} // verus!
