//! What the locks grant: when each operation succeeds, and who holds the lock after it.

use vstd::prelude::*;

use super::acq_link::{AcqLinkGuard, AcqLinks, GUARDED, NO_NODE};
use super::laws::{RwHolders, RwStep};
use super::mutex::{
    release_step, MayBreakLock, MutexGuard, SpinAcquire, SpinAction, SpinningMutex, TrStateCell,
};
use super::rwlock::{
    upgrade_next, Acquire, MayBreakRead, MayBreakUpgradableRead, MayBreakWrite, ReaderGuard, SpinningRwLock,
    UpgradableReaderGuard, Upgrade, UpgradeAction, WriterGuard,
};
use super::signal::{MsbAsMutexSignal, PtrAsMutexSignal, TrMutexSignal, TrUnsigned};

verus! {

/// A reader enters iff nobody writes, however many readers there are, and is one reader more.
pub proof fn readers_enter_unless_somebody_writes<T>(
    acq: &mut Acquire,
    lock: &mut SpinningRwLock<T>,
    guard: Option<ReaderGuard>,
)
    requires
        call_ensures(Acquire::try_read::<T>, (acq, lock), guard),
    ensures
        guard is Some <==> !old(lock).state().writer,
        final(lock).state().readers == old(lock).state().readers + if guard is Some {
            1int
        } else {
            0int
        },
        final(lock).state().writer == old(lock).state().writer,
        final(lock).state().upgradable == old(lock).state().upgradable,
        final(lock).data() == old(lock).data(),
        read_attempt(*old(lock), guard, *final(lock)),
{
}

/// `count` readers that come one after the other.
pub open spec fn arrivals(count: nat) -> Seq<RwStep> {
    Seq::new(count, |i: int| RwStep::Read)
}

/// Any number of readers share the lock: while nobody writes, as many readers as come enter.
pub proof fn readers_share(holders: RwHolders, count: nat)
    requires
        !holders.lock.writer,
    ensures
        ({
            let after = holders.after_all(arrivals(count));
            &&& after.plain == holders.plain + count
            &&& after.lock.readers == holders.lock.readers + count
            &&& after.lock.writer == holders.lock.writer
            &&& after.lock.upgradable == holders.lock.upgradable
            &&& after.upgradable == holders.upgradable
            &&& after.writing == holders.writing
        }),
    decreases count,
{
    if count > 0 {
        readers_share(holders, (count - 1) as nat);
        assert(arrivals(count).drop_last() =~= arrivals((count - 1) as nat));
    }
}

/// While nobody writes, each of any number of attempts to read, made one after the other,
/// succeeds and adds one reader. `locks` are the states of the lock between the attempts.
pub proof fn every_attempt_to_read_enters<T>(
    locks: Seq<SpinningRwLock<T>>,
    guards: Seq<Option<ReaderGuard>>,
)
    requires
        locks.len() == guards.len() + 1,
        !locks[0].state().writer,
        forall|i: int| 0 <= i < guards.len() ==> read_attempt(locks[i], #[trigger] guards[i], locks[i + 1]),
    ensures
        forall|i: int| 0 <= i < guards.len() ==> #[trigger] guards[i] is Some,
        locks.last().state().readers == locks[0].state().readers + guards.len(),
        !locks.last().state().writer,
    decreases guards.len(),
{
    if guards.len() > 0 {
        let last = guards.len() - 1;
        let earlier = locks.drop_last();
        assert forall|i: int| 0 <= i < guards.drop_last().len() implies read_attempt(
            earlier[i],
            #[trigger] guards.drop_last()[i],
            earlier[i + 1],
        ) by {
            assert(guards.drop_last()[i] == guards[i]);
        }
        every_attempt_to_read_enters(earlier, guards.drop_last());
        assert(earlier.last() == locks[last]);
        assert(read_attempt(locks[last], guards[last], locks[last + 1]));
        assert forall|i: int| 0 <= i < guards.len() implies #[trigger] guards[i] is Some by {
            if i < last {
                assert(guards.drop_last()[i] == guards[i]);
            }
        }
    }
}

/// An attempt to read leads from `before` to `after`.
pub open spec fn read_attempt<T>(
    before: SpinningRwLock<T>,
    guard: Option<ReaderGuard>,
    after: SpinningRwLock<T>,
) -> bool {
    &&& guard is Some <==> before.state().can_read()
    &&& after.state() == if guard is Some {
        before.state().with_reader()
    } else {
        before.state()
    }
}

/// A writer enters iff the lock has neither a writer nor a reader, and is then the writer.
pub proof fn writer_enters_a_free_lock<T>(
    acq: &mut Acquire,
    lock: &mut SpinningRwLock<T>,
    guard: Option<WriterGuard>,
)
    requires
        call_ensures(Acquire::try_write::<T>, (acq, lock), guard),
    ensures
        guard is Some <==> !old(lock).state().writer && old(lock).state().readers == 0,
        final(lock).state().writer == (old(lock).state().writer || guard is Some),
        final(lock).state().readers == old(lock).state().readers,
        final(lock).state().upgradable == old(lock).state().upgradable,
        final(lock).data() == old(lock).data(),
{
}

/// An upgradable reader enters iff there is neither a writer nor an upgradable reader; plain
/// readers do not keep it out.
pub proof fn upgradable_reader_enters_beside_readers<T>(
    acq: &mut Acquire,
    lock: &mut SpinningRwLock<T>,
    guard: Option<UpgradableReaderGuard>,
)
    requires
        call_ensures(Acquire::try_upgradable_read::<T>, (acq, lock), guard),
    ensures
        guard is Some <==> !old(lock).state().writer && !old(lock).state().upgradable,
        guard is Some ==> {
            &&& final(lock).state().readers == old(lock).state().readers + 1
            &&& final(lock).state().upgradable
            &&& !final(lock).state().writer
        },
        guard is None ==> final(lock).state() == old(lock).state(),
        final(lock).data() == old(lock).data(),
{
}

/// A wait that is not broken off ends with the right that was waited for, and one that is
/// broken off leaves the lock as it was.
#[verifier::rlimit(40)]
pub proof fn waits_are_served<T>(
    read: MayBreakRead,
    write: MayBreakWrite,
    upgradable: MayBreakUpgradableRead,
    lock: &mut SpinningRwLock<T>,
    cancelled: bool,
    r: Option<ReaderGuard>,
    w: Option<WriterGuard>,
    u: Option<UpgradableReaderGuard>,
)
    ensures
        call_ensures(MayBreakRead::may_break_with::<T>, (read, lock, cancelled), r) ==> {
            &&& r is Some <==> !cancelled
            &&& final(lock).state().readers == old(lock).state().readers + if cancelled {
                0int
            } else {
                1int
            }
            &&& final(lock).state().writer == old(lock).state().writer
            &&& final(lock).state().upgradable == old(lock).state().upgradable
        },
        call_ensures(MayBreakWrite::may_break_with::<T>, (write, lock, cancelled), w) ==> {
            &&& w is Some <==> !cancelled
            &&& final(lock).state().writer == (old(lock).state().writer || !cancelled)
            &&& final(lock).state().readers == old(lock).state().readers
            &&& final(lock).state().upgradable == old(lock).state().upgradable
        },
        call_ensures(MayBreakUpgradableRead::may_break_with::<T>, (upgradable, lock, cancelled), u)
            ==> {
            &&& u is Some <==> !cancelled
            &&& final(lock).state().readers == old(lock).state().readers + if cancelled {
                0int
            } else {
                1int
            }
            &&& final(lock).state().upgradable == (old(lock).state().upgradable || !cancelled)
            &&& final(lock).state().writer == old(lock).state().writer
        },
{
}

/// The upgradable reader becomes the writer iff it is the only reader, and still counts as a
/// reader then.
pub proof fn last_reader_is_upgraded<T>(
    guard: UpgradableReaderGuard,
    upgrade: &mut Upgrade,
    lock: &mut SpinningRwLock<T>,
    cancelled: bool,
    owned: Result<WriterGuard, UpgradableReaderGuard>,
    lent: Option<WriterGuard>,
)
    requires
        old(lock).state().upgradable,
        !old(lock).state().writer,
    ensures
        call_ensures(UpgradableReaderGuard::try_upgrade::<T>, (guard, lock), owned) ==> {
            &&& owned is Ok <==> old(lock).state().readers == 1
            &&& final(lock).state().writer == (owned is Ok)
            &&& final(lock).state().readers == old(lock).state().readers
            &&& final(lock).state().upgradable
        },
        call_ensures(Upgrade::try_upgrade::<T>, (upgrade, lock), lent) || call_ensures(
            Upgrade::upgrade_with_cancel::<T>,
            (upgrade, lock, cancelled),
            lent,
        ) ==> {
            &&& lent is Some <==> old(lock).state().readers == 1
            &&& final(lock).state().writer == (lent is Some)
            &&& final(lock).state().readers == old(lock).state().readers
            &&& final(lock).state().upgradable
        },
{
}

/// Who leaves gives up exactly what was held: a reader is one reader less, an upgradable
/// reader leaves room for another, a writer leaves the lock without a writer, and with its
/// place among the readers if it had taken one.
#[verifier::rlimit(40)]
pub proof fn leaving_frees_the_lock<T>(
    reader: ReaderGuard,
    upgradable: UpgradableReaderGuard,
    writer: WriterGuard,
    lock: &mut SpinningRwLock<T>,
    plain: ReaderGuard,
)
    requires
        old(lock).wf(),
    ensures
        old(lock).state().readers >= 1 && call_ensures(
            ReaderGuard::release::<T>,
            (reader, lock),
            (),
        ) ==> {
            &&& final(lock).state().readers == old(lock).state().readers - 1
            &&& final(lock).state().upgradable == old(lock).state().upgradable
            &&& final(lock).state().writer == old(lock).state().writer
            &&& final(lock).data() == old(lock).data()
        },
        old(lock).state().upgradable && call_ensures(
            UpgradableReaderGuard::release::<T>,
            (upgradable, lock),
            (),
        ) ==> {
            &&& final(lock).state().readers == old(lock).state().readers - 1
            &&& !final(lock).state().upgradable
            &&& final(lock).state().writer == old(lock).state().writer
            &&& final(lock).data() == old(lock).data()
        },
        call_ensures(UpgradableReaderGuard::downgrade::<T>, (upgradable, lock), plain) ==> {
            &&& final(lock).state().readers == old(lock).state().readers
            &&& !final(lock).state().upgradable
            &&& final(lock).state().writer == old(lock).state().writer
            &&& final(lock).data() == old(lock).data()
        },
        old(lock).state().writer && (writer.replaces_reader() ==> old(lock).state().upgradable)
            && call_ensures(WriterGuard::release::<T>, (writer, lock), ()) ==> {
            &&& !final(lock).state().writer
            &&& final(lock).state().upgradable == (old(lock).state().upgradable
                && !writer.replaces_reader())
            &&& final(lock).state().readers == old(lock).state().readers
                - if writer.replaces_reader() {
                1int
            } else {
                0int
            }
            &&& final(lock).data() == old(lock).data()
        },
{
}

/// A mutex is acquired iff it was free, it is held afterwards, and unlocking it gives back
/// the word that was there before.
pub proof fn free_mutex_is_locked<T, V: TrUnsigned, B: TrStateCell<V>, S: TrMutexSignal<V>>(
    acq: &mut super::mutex::Acquire<V, S>,
    mutex: &mut SpinningMutex<T, V, B, S>,
    guard: Option<MutexGuard<V, S>>,
)
    requires
        call_ensures(super::mutex::Acquire::<V, S>::try_lock::<T, B>, (acq, mutex), guard),
    ensures
        guard is Some <==> !S::acquired(old(mutex).word()),
        S::acquired(final(mutex).word()),
        guard is Some ==> S::release_of(final(mutex).word()) == old(mutex).word(),
        guard is None ==> final(mutex).word() == old(mutex).word(),
        final(mutex).data() == old(mutex).data(),
{
    S::round_trip(old(mutex).word());
}

/// Unlocking a held mutex makes it free, keeps its data, and says so.
pub proof fn unlocking_frees<T, V: TrUnsigned, B: TrStateCell<V>, S: TrMutexSignal<V>>(
    guard: MutexGuard<V, S>,
    mutex: &mut SpinningMutex<T, V, B, S>,
    was: bool,
)
    requires
        call_ensures(MutexGuard::<V, S>::unlock::<T, B>, (guard, mutex), was),
    ensures
        was == S::acquired(old(mutex).word()),
        !S::acquired(final(mutex).word()),
        was ==> S::acquire_of(final(mutex).word()) == old(mutex).word(),
        final(mutex).data() == old(mutex).data(),
{
    S::round_trip(old(mutex).word());
}

/// The mark of a word is its topmost bit, and marking or releasing the word changes no other
/// bit.
#[verifier::rlimit(40)]
pub proof fn topmost_bit_is_the_mark(a: u8, b: u16, c: u32, d: u64, e: u128)
    ensures
        MsbAsMutexSignal::<u8>::acquired(a) <==> a >= 128,
        MsbAsMutexSignal::<u8>::acquire_of(a) == a % 128 + 128,
        MsbAsMutexSignal::<u8>::release_of(a) == a % 128,
        MsbAsMutexSignal::<u16>::acquired(b) <==> b >= 32768,
        MsbAsMutexSignal::<u16>::acquire_of(b) == b % 32768 + 32768,
        MsbAsMutexSignal::<u16>::release_of(b) == b % 32768,
        MsbAsMutexSignal::<u32>::acquired(c) <==> c >= 2147483648,
        MsbAsMutexSignal::<u32>::acquire_of(c) == c % 2147483648 + 2147483648,
        MsbAsMutexSignal::<u32>::release_of(c) == c % 2147483648,
        MsbAsMutexSignal::<u64>::acquired(d) <==> d >= 9223372036854775808,
        MsbAsMutexSignal::<u64>::acquire_of(d) == d % 9223372036854775808 + 9223372036854775808,
        MsbAsMutexSignal::<u64>::release_of(d) == d % 9223372036854775808,
        MsbAsMutexSignal::<u128>::acquired(e) <==> e >= 170141183460469231731687303715884105728,
        MsbAsMutexSignal::<u128>::release_of(e) == e % 170141183460469231731687303715884105728,
{
}

/// The topmost bit of a word of the machine's size is the mark: the marked words are those in
/// the upper half, and releasing one moves it to the lower half.
pub proof fn topmost_bit_of_a_machine_word(val: usize)
    ensures
        MsbAsMutexSignal::<usize>::acquired(val) <==> val > usize::MAX / 2,
        MsbAsMutexSignal::<usize>::release_of(val) == if val > usize::MAX / 2 {
            val - usize::MAX / 2 - 1
        } else {
            val as int
        },
{
    let top = <usize as TrUnsigned>::top();
    assert(top - 1 == usize::MAX / 2) by {
        assert(0 < top && (top - 1) as usize == !0usize / 2) by (bit_vector)
            requires
                top == 1usize << ((usize::BITS - 1) as u32),
        ;
        let most = usize::MAX;
        assert(most <= !0usize) by (bit_vector);
    }
}

/// The mark of an address is that it is odd, and the marked address is the next one.
pub proof fn odd_addresses_are_marked<T>(val: usize)
    ensures
        PtrAsMutexSignal::<T>::acquired(val) <==> val % 2 != 0,
        val < usize::MAX ==> PtrAsMutexSignal::<T>::acquire_of(val) == val + 1,
        val > 0 ==> PtrAsMutexSignal::<T>::release_of(val) == val - 1,
{
}

/// A contender that nobody cancelled is inserted next to a node that has no successor; the
/// two are then neighbours, and nobody else's neighbours change.
pub proof fn contenders_are_linked(
    links: &mut AcqLinks,
    node: usize,
    candidate: usize,
    cancelled: bool,
    res: Result<usize, Option<usize>>,
    other: usize,
)
    requires
        old(links).has(node),
        old(links).has(candidate),
        node != candidate,
        old(links).node(node).prev != GUARDED,
        old(links).node(candidate).prev != GUARDED,
        call_ensures(AcqLinks::try_insert_next_, (links, node, candidate, cancelled), res),
    ensures
        !cancelled ==> (res is Ok <==> old(links).node(node).next == NO_NODE),
        !cancelled && old(links).node(node).next != NO_NODE ==> res == Err::<usize, Option<usize>>(
            Some(old(links).node(node).next),
        ),
        cancelled && (old(links).node(node).prev != NO_NODE || old(links).node(candidate).prev
            != NO_NODE) ==> res == Err::<usize, Option<usize>>(None),
        res is Ok ==> {
            &&& final(links).node(node).next == candidate
            &&& final(links).node(candidate).prev == node
            &&& final(links).node(node).prev == old(links).node(node).prev
            &&& final(links).node(candidate).next == old(links).node(candidate).next
        },
        old(links).has(other) && (res is Err || other != node && other != candidate)
            ==> final(links).node(other) == old(links).node(other),
{
}

/// A node is guarded at once if it has no predecessor, and otherwise unless cancelled; the
/// guard keeps the predecessor, and releasing it puts the predecessor back.
pub proof fn guards_keep_the_predecessor(
    links: &mut AcqLinks,
    node: usize,
    cancelled: bool,
    res: Result<AcqLinkGuard, usize>,
)
    requires
        old(links).has(node),
        old(links).node(node).prev != GUARDED,
        call_ensures(AcqLinkGuard::try_acquire, (links, node, cancelled), res),
    ensures
        res is Ok <==> !cancelled || old(links).node(node).prev == NO_NODE,
        res matches Ok(guard) ==> guard.of() == node && guard.kept() == old(links).node(node).prev
            && final(links).node(node).prev == GUARDED && final(links).node(node).next == old(
            links,
        ).node(node).next,
        res is Err ==> final(links)@ == old(links)@,
{
}

/// A contender gives up iff it is cancelled, looks again while the lock is held, and asks for
/// the lock otherwise: it replaces the word that it saw by the same word with the mark.
pub proof fn contenders_ask_for_a_free_lock<V: TrUnsigned, S: TrMutexSignal<V>>(
    spin: &SpinAcquire<V, S>,
    cancelled: bool,
    action: SpinAction<V>,
)
    requires
        call_ensures(SpinAcquire::<V, S>::next, (spin, cancelled), action),
    ensures
        action is GiveUp <==> cancelled,
        action is Reload <==> !cancelled && S::acquired(spin.seen()),
        action is Exchange <==> !cancelled && !S::acquired(spin.seen()),
        action matches SpinAction::Exchange { expected, desired } ==> expected == spin.seen()
            && S::acquired(desired) && S::release_of(desired) == expected,
{
    S::round_trip(spin.seen());
}

/// A holder releases a word that is marked, to the word without the mark, and leaves any other
/// word alone. A waiting upgradable reader writes once it is alone, gives up if cancelled, and
/// tries again otherwise.
pub proof fn holders_release_what_is_held<V: TrUnsigned, S: TrMutexSignal<V>>(
    current: V,
    desired: Option<V>,
    upgraded: bool,
    cancelled: bool,
    action: UpgradeAction,
)
    ensures
        call_ensures(release_step::<V, S>, (current,), desired) ==> {
            &&& desired is Some <==> S::acquired(current)
            &&& desired matches Some(word) ==> !S::acquired(word) && S::acquire_of(word) == current
        },
        call_ensures(upgrade_next, (upgraded, cancelled), action) ==> {
            &&& action is Granted <==> upgraded
            &&& action is GiveUp <==> !upgraded && cancelled
            &&& action is Retry <==> !upgraded && !cancelled
        },
{
    S::round_trip(current);
}

/// A fresh lock is free and holds its data; acquiring is asked of that lock.
pub proof fn fresh_locks_are_free<T>(data: T, lock: SpinningRwLock<T>, back: T, count: usize)
    requires
        call_ensures(SpinningRwLock::<T>::new_owned, (data,), lock),
    ensures
        lock.state().readers == 0,
        !lock.state().upgradable,
        !lock.state().writer,
        lock.data() == data,
        call_ensures(SpinningRwLock::<T>::into_inner, (lock,), back) ==> back == data,
        call_ensures(SpinningRwLock::<T>::reader_count, (&lock,), count) ==> count == 0,
{
}

/// A fresh mutex is free if no word without data is marked; its data comes back.
pub proof fn fresh_mutexes_hold_their_data<T, V: TrUnsigned, S: TrMutexSignal<V>>(
    data: T,
    mutex: SpinningMutex<T, V, V, S>,
    back: T,
    is: bool,
)
    requires
        call_ensures(SpinningMutex::<T, V, V, S>::new_owned, (data,), mutex),
    ensures
        mutex.data() == data,
        mutex.word() == V::zero_word(),
        call_ensures(SpinningMutex::<T, V, V, S>::into_inner, (mutex,), back) ==> back == data,
        call_ensures(SpinningMutex::<T, V, V, S>::is_acquired, (&mutex,), is) ==> is
            == S::acquired(V::zero_word()),
{
}

/// A wait for a mutex ends with the lock unless it is broken off, and then changes nothing; the
/// data stays.
pub proof fn mutex_waits_are_served<T, V: TrUnsigned, B: TrStateCell<V>, S: TrMutexSignal<V>>(
    wait: MayBreakLock<V, S>,
    mutex: &mut SpinningMutex<T, V, B, S>,
    cancelled: bool,
    guard: Option<MutexGuard<V, S>>,
)
    requires
        cancelled || !S::acquired(old(mutex).word()),
        call_ensures(MayBreakLock::<V, S>::may_break_with::<T, B>, (wait, mutex, cancelled), guard),
    ensures
        guard is Some <==> !cancelled,
        guard is Some ==> S::acquired(final(mutex).word()) && S::release_of(final(mutex).word())
            == old(mutex).word(),
        guard is None ==> final(mutex).word() == old(mutex).word(),
        final(mutex).data() == old(mutex).data(),
{
    S::round_trip(old(mutex).word());
}

/// Holders see and change the guarded data, and nothing else.
pub proof fn holders_reach_the_data<T>(
    reader: &ReaderGuard,
    upgradable: &UpgradableReaderGuard,
    writer: &mut WriterGuard,
    lock: &SpinningRwLock<T>,
    changing: &mut SpinningRwLock<T>,
    seen: &T,
    data: &mut T,
)
    ensures
        call_ensures(ReaderGuard::get::<T>, (reader, lock), seen) ==> *seen == lock.data(),
        call_ensures(UpgradableReaderGuard::get::<T>, (upgradable, lock), seen) ==> *seen
            == lock.data(),
        call_ensures(WriterGuard::get::<T>, (old(writer), lock), seen) ==> *seen == lock.data(),
        call_ensures(WriterGuard::get_mut::<T>, (writer, changing), data) ==> *old(data) == old(
            changing).data() && *final(data) == final(changing).data() && final(changing).state()
            == old(changing).state(),
{
}

/// A party may ask for its lock in any state of the lock.
pub proof fn locks_may_be_asked_for_in_any_state<T>(
    acq: &mut Acquire,
    lock: &mut SpinningRwLock<T>,
    read: MayBreakRead,
    write: MayBreakWrite,
)
    requires
        old(lock).wf(),
        old(acq).of() == old(lock).id(),
        read.of() == old(lock).id(),
        write.of() == old(lock).id(),
    ensures
        old(lock).state().readers < usize::MAX ==> call_requires(
            Acquire::try_read::<T>,
            (acq, lock),
        ) && call_requires(Acquire::try_upgradable_read::<T>, (acq, lock)) && call_requires(
            MayBreakRead::may_break_with::<T>,
            (read, lock, true),
        ),
        call_requires(Acquire::try_write::<T>, (acq, lock)),
        call_requires(MayBreakWrite::may_break_with::<T>, (write, lock, true)),
        old(lock).state().readers < usize::MAX && !old(lock).state().writer ==> call_requires(
            MayBreakRead::wait::<T>,
            (read, lock),
        ),
        old(lock).state().readers == 0 && !old(lock).state().writer ==> call_requires(
            MayBreakWrite::wait::<T>,
            (write, lock),
        ),
{
}

} // verus!
