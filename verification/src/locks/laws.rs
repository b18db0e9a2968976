//! What holds of the locks over any course of events.

use vstd::prelude::*;

use super::rwlock::RwState;
use super::signal::{TrMutexSignal, TrUnsigned};

verus! {

/// An event at a shared lock word.
pub ghost enum LockStep<V> {
    /// A contender that last saw the word `expected` tries to exchange it. The
    /// exchange may fail for no reason.
    Attempt { expected: V, fails: bool },
    /// A holder releases the lock.
    Release,
}

/// A lock word and the number of those who hold the lock.
pub ghost struct LockView<V> {
    pub word: V,
    pub holders: nat,
}

impl<V: TrUnsigned> LockView<V> {
    /// After one event. Contenders that saw an acquired word attempt nothing, and
    /// nobody releases a lock that is not held.
    pub open spec fn after<S: TrMutexSignal<V>>(self, step: LockStep<V>) -> LockView<V> {
        match step {
            LockStep::Attempt { expected, fails } => if !S::acquired(expected) && !fails
                && self.word == expected {
                LockView { word: S::acquire_of(expected), holders: self.holders + 1 }
            } else {
                self
            },
            LockStep::Release => if self.holders > 0 && S::acquired(self.word) {
                LockView { word: S::release_of(self.word), holders: (self.holders - 1) as nat }
            } else {
                self
            },
        }
    }

    /// After all events.
    pub open spec fn after_all<S: TrMutexSignal<V>>(self, steps: Seq<LockStep<V>>) -> LockView<V>
        decreases steps.len(),
    {
        if steps.len() == 0 {
            self
        } else {
            self.after_all::<S>(steps.drop_last()).after::<S>(steps.last())
        }
    }
}

/// Whatever contenders attempt, with values however stale and exchanges however
/// unlucky: at most one of them holds the lock, and the word tells whether one does.
pub proof fn at_most_one_holder<V: TrUnsigned, S: TrMutexSignal<V>>(
    word: V,
    steps: Seq<LockStep<V>>,
)
    requires
        !S::acquired(word),
    ensures
        ({
            let after = (LockView { word, holders: 0 }).after_all::<S>(steps);
            &&& after.holders <= 1
            &&& S::acquired(after.word) <==> after.holders == 1
        }),
    decreases steps.len(),
{
    if steps.len() > 0 {
        at_most_one_holder::<V, S>(word, steps.drop_last());
        let before = (LockView { word, holders: 0 }).after_all::<S>(steps.drop_last());
        S::round_trip(before.word);
    }
}

/// Once all holders have left, the word is what it was: acquiring and releasing a lock
/// keeps what the user has stored in the word.
pub proof fn word_comes_back<V: TrUnsigned, S: TrMutexSignal<V>>(
    word: V,
    steps: Seq<LockStep<V>>,
)
    requires
        !S::acquired(word),
    ensures
        ({
            let after = (LockView { word, holders: 0 }).after_all::<S>(steps);
            after.word == if after.holders == 0 {
                word
            } else {
                S::acquire_of(word)
            }
        }),
    decreases steps.len(),
{
    if steps.len() > 0 {
        word_comes_back::<V, S>(word, steps.drop_last());
        at_most_one_holder::<V, S>(word, steps.drop_last());
        S::round_trip(word);
    }
}

/// A contender that reads a released word again attempts the exchange, and the exchange
/// succeeds unless somebody changed the word or it failed for no reason: no contender
/// is stuck with a stale value.
pub proof fn released_lock_is_acquired<V: TrUnsigned, S: TrMutexSignal<V>>(view: LockView<V>)
    requires
        !S::acquired(view.word),
    ensures
        ({
            let after = view.after::<S>(LockStep::Attempt { expected: view.word, fails: false });
            after.holders == view.holders + 1 && S::acquired(after.word)
        }),
{
    S::round_trip(view.word);
}

/// An event at a reader-writer lock.
pub ghost enum RwStep {
    /// Somebody tries to read.
    Read,
    /// Somebody tries to read upgradably.
    ReadUpgradable,
    /// Somebody tries to write.
    Write,
    /// The upgradable reader tries to write, and to go on as the upgradable reader after.
    Upgrade,
    /// The upgradable reader tries to write in place of reading: as a writer it leaves
    /// the lock altogether.
    Replace,
    /// A reader leaves.
    LeaveRead,
    /// The upgradable reader leaves.
    LeaveUpgradable,
    /// The upgradable reader goes on as an ordinary one.
    Downgrade,
    /// The writer leaves; an upgradable reader that wrote reads again.
    LeaveWrite,
    /// The writer that has taken the place of the upgradable reader leaves with it.
    LeaveReplaced,
}

/// A reader-writer lock and the numbers of those who hold it.
pub ghost struct RwHolders {
    pub lock: RwState,
    /// Readers that are not upgradable.
    pub plain: nat,
    /// Upgradable readers, and those whose place a writer has taken.
    pub upgradable: nat,
    /// Writers.
    pub writing: nat,
    /// Writers that have taken the place of their upgradable reader.
    pub replacing: nat,
}

impl RwHolders {
    /// Nobody holds the lock.
    pub open spec fn nobody() -> RwHolders {
        RwHolders { lock: RwState::free(), plain: 0, upgradable: 0, writing: 0, replacing: 0 }
    }

    /// After one event. Nobody leaves who is not there, and the upgradable reader
    /// neither leaves nor is downgraded while it writes.
    pub open spec fn after(self, step: RwStep) -> RwHolders {
        match step {
            RwStep::Read => if self.lock.can_read() {
                RwHolders { lock: self.lock.with_reader(), plain: self.plain + 1, ..self }
            } else {
                self
            },
            RwStep::ReadUpgradable => if self.lock.can_read_upgradable() {
                RwHolders {
                    lock: self.lock.with_reader().with_upgradable(true),
                    upgradable: self.upgradable + 1,
                    ..self
                }
            } else {
                self
            },
            RwStep::Write => if self.lock.can_write() {
                RwHolders {
                    lock: self.lock.with_writer(true),
                    writing: self.writing + 1,
                    ..self
                }
            } else {
                self
            },
            RwStep::Upgrade => if self.lock.can_upgrade() {
                RwHolders {
                    lock: self.lock.with_writer(true),
                    writing: self.writing + 1,
                    ..self
                }
            } else {
                self
            },
            RwStep::Replace => if self.lock.can_upgrade() {
                RwHolders {
                    lock: self.lock.with_writer(true),
                    writing: self.writing + 1,
                    replacing: self.replacing + 1,
                    ..self
                }
            } else {
                self
            },
            RwStep::LeaveRead => if self.plain > 0 {
                RwHolders {
                    lock: self.lock.without_reader(),
                    plain: (self.plain - 1) as nat,
                    ..self
                }
            } else {
                self
            },
            RwStep::LeaveUpgradable => if self.upgradable > 0 && self.writing == 0 {
                RwHolders {
                    lock: self.lock.without_reader().with_upgradable(false),
                    upgradable: (self.upgradable - 1) as nat,
                    ..self
                }
            } else {
                self
            },
            RwStep::Downgrade => if self.upgradable > 0 && self.writing == 0 {
                RwHolders {
                    lock: self.lock.with_upgradable(false),
                    plain: self.plain + 1,
                    upgradable: (self.upgradable - 1) as nat,
                    ..self
                }
            } else {
                self
            },
            RwStep::LeaveWrite => if self.writing > self.replacing {
                RwHolders {
                    lock: self.lock.with_writer(false),
                    writing: (self.writing - 1) as nat,
                    ..self
                }
            } else {
                self
            },
            RwStep::LeaveReplaced => if self.replacing > 0 {
                RwHolders {
                    lock: self.lock.with_writer(false).without_reader().with_upgradable(false),
                    upgradable: (self.upgradable - 1) as nat,
                    writing: (self.writing - 1) as nat,
                    replacing: (self.replacing - 1) as nat,
                    ..self
                }
            } else {
                self
            },
        }
    }

    /// After all events.
    pub open spec fn after_all(self, steps: Seq<RwStep>) -> RwHolders
        decreases steps.len(),
    {
        if steps.len() == 0 {
            self
        } else {
            self.after_all(steps.drop_last()).after(steps.last())
        }
    }
}

/// Over any course of events: the lock knows its holders, there is at most one writer
/// and at most one upgradable reader, and while somebody writes nobody reads but the
/// upgradable reader that writes. A writer in the place of an upgradable reader holds that
/// place until it leaves.
pub proof fn writers_exclude_readers(steps: Seq<RwStep>)
    ensures
        ({
            let after = RwHolders::nobody().after_all(steps);
            &&& after.lock.wf()
            &&& after.lock.readers == after.plain + after.upgradable
            &&& after.upgradable <= 1
            &&& after.lock.upgradable <==> after.upgradable == 1
            &&& after.writing <= 1
            &&& after.lock.writer <==> after.writing == 1
            &&& after.writing == 1 ==> after.plain == 0
            &&& after.replacing <= after.writing
            &&& after.replacing == 1 ==> after.upgradable == 1
        }),
    decreases steps.len(),
{
    if steps.len() > 0 {
        writers_exclude_readers(steps.drop_last());
    }
}

} // verus!
