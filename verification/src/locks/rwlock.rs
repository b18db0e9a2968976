//! A spinning reader-writer lock with upgradable readers.
//!
//! Any number of readers may hold the lock together, one of them as the upgradable
//! reader. A writer holds it alone. The upgradable reader may become the writer once
//! all other readers have left; it still counts as a reader meanwhile.

use vstd::prelude::*;

verus! {

/// Who holds the lock.
#[verifier::ext_equal]
pub ghost struct RwState {
    /// The number of readers, the upgradable one among them.
    pub readers: nat,
    /// One of the readers is upgradable.
    pub upgradable: bool,
    /// Somebody writes.
    pub writer: bool,
}

impl RwState {
    /// Nobody holds the lock.
    pub open spec fn free() -> RwState {
        RwState { readers: 0, upgradable: false, writer: false }
    }

    /// The upgradable reader is one of the readers, and a writer shares the lock with
    /// nobody but its own upgradable reader.
    pub open spec fn wf(self) -> bool {
        &&& self.upgradable ==> self.readers >= 1
        &&& self.writer ==> self.readers == if self.upgradable {
            1nat
        } else {
            0nat
        }
    }

    /// A reader may enter.
    pub open spec fn can_read(self) -> bool {
        !self.writer
    }

    /// An upgradable reader may enter.
    pub open spec fn can_read_upgradable(self) -> bool {
        !self.writer && !self.upgradable
    }

    /// A writer may enter.
    pub open spec fn can_write(self) -> bool {
        !self.writer && self.readers == 0
    }

    /// The upgradable reader may become the writer.
    pub open spec fn can_upgrade(self) -> bool {
        self.upgradable && !self.writer && self.readers == 1
    }

    /// One more reader.
    pub open spec fn with_reader(self) -> RwState {
        RwState { readers: self.readers + 1, ..self }
    }

    /// One reader less.
    pub open spec fn without_reader(self) -> RwState {
        RwState { readers: (self.readers - 1) as nat, ..self }
    }

    /// One of the readers is upgradable, or none is.
    pub open spec fn with_upgradable(self, upgradable: bool) -> RwState {
        RwState { upgradable, ..self }
    }

    /// Somebody writes, or nobody does.
    pub open spec fn with_writer(self, writer: bool) -> RwState {
        RwState { writer, ..self }
    }
}

/// The right to read.
pub struct ReaderGuard {
    of: Ghost<int>,
}

/// The right to read, and to become the writer later.
pub struct UpgradableReaderGuard {
    of: Ghost<int>,
}

/// The right to write.
pub struct WriterGuard {
    /// The writer has taken the place of the upgradable reader and leaves with it.
    reads: bool,
    of: Ghost<int>,
}

/// A reader-writer lock and the data that it guards.
///
/// Handles, waits and guards carry the identity of their lock and can be used with that
/// lock alone.
pub struct SpinningRwLock<T> {
    readers: usize,
    upgradable: bool,
    writer: bool,
    value: T,
    id: Ghost<int>,
}

impl<T> SpinningRwLock<T> {
    /// Who holds the lock.
    pub closed spec fn state(&self) -> RwState {
        RwState {
            readers: self.readers as nat,
            upgradable: self.upgradable,
            writer: self.writer,
        }
    }

    /// The guarded data.
    pub closed spec fn data(&self) -> T {
        self.value
    }

    /// The identity of the lock.
    pub closed spec fn id(&self) -> int {
        self.id@
    }

    /// The holders are compatible with each other.
    pub open spec fn wf(&self) -> bool {
        self.state().wf()
    }

    /// A lock that nobody holds.
    pub fn new_owned(data: T) -> (lock: Self)
        ensures
            lock.wf(),
            lock.state() == RwState::free(),
            lock.data() == data,
    {
        SpinningRwLock {
            readers: 0,
            upgradable: false,
            writer: false,
            value: data,
            id: Ghost(arbitrary()),
        }
    }

    /// Takes the data out of the lock.
    pub fn into_inner(self) -> (data: T)
        ensures
            data == self.data(),
    {
        self.value
    }

    /// The number of readers, the upgradable one among them.
    pub fn reader_count(&self) -> (count: usize)
        ensures
            count == self.state().readers,
    {
        self.readers
    }

    /// A handle to acquire this lock with.
    pub fn acquire(&self) -> (acq: Acquire)
        ensures
            acq.of() == self.id(),
    {
        Acquire { of: self.id }
    }
}

/// A handle through which one party acquires a lock.
pub struct Acquire {
    of: Ghost<int>,
}

impl Acquire {
    /// The identity of the lock.
    pub closed spec fn of(&self) -> int {
        self.of@
    }

    /// Enters as a reader if nobody writes.
    pub fn try_read<T>(&mut self, lock: &mut SpinningRwLock<T>) -> (guard: Option<ReaderGuard>)
        requires
            old(self).of() == old(lock).id(),
            old(lock).wf(),
            old(lock).state().readers < usize::MAX,
        ensures
            final(lock).id() == old(lock).id(),
            guard matches Some(g) ==> g.of() == final(lock).id(),
            *final(self) == *old(self),
            final(lock).wf(),
            final(lock).data() == old(lock).data(),
            guard is Some <==> old(lock).state().can_read(),
            final(lock).state() == if guard is Some {
                old(lock).state().with_reader()
            } else {
                old(lock).state()
            },
    {
        if lock.writer {
            return None;
        }
        lock.readers = lock.readers + 1;
        Some(ReaderGuard { of: self.of })
    }

    /// Enters as the writer if nobody else holds the lock.
    pub fn try_write<T>(&mut self, lock: &mut SpinningRwLock<T>) -> (guard: Option<WriterGuard>)
        requires
            old(self).of() == old(lock).id(),
            old(lock).wf(),
        ensures
            final(lock).id() == old(lock).id(),
            guard matches Some(g) ==> g.of() == final(lock).id(),
            *final(self) == *old(self),
            final(lock).wf(),
            final(lock).data() == old(lock).data(),
            guard is Some <==> old(lock).state().can_write(),
            guard matches Some(w) ==> !w.replaces_reader(),
            final(lock).state() == if guard is Some {
                old(lock).state().with_writer(true)
            } else {
                old(lock).state()
            },
    {
        if lock.writer || lock.readers != 0 {
            return None;
        }
        lock.writer = true;
        Some(WriterGuard { reads: false, of: self.of })
    }

    /// Enters as the upgradable reader if nobody writes and nobody else is upgradable.
    pub fn try_upgradable_read<T>(&mut self, lock: &mut SpinningRwLock<T>) -> (guard: Option<
        UpgradableReaderGuard,
    >)
        requires
            old(self).of() == old(lock).id(),
            old(lock).wf(),
            old(lock).state().readers < usize::MAX,
        ensures
            final(lock).id() == old(lock).id(),
            guard matches Some(g) ==> g.of() == final(lock).id(),
            *final(self) == *old(self),
            final(lock).wf(),
            final(lock).data() == old(lock).data(),
            guard is Some <==> old(lock).state().can_read_upgradable(),
            final(lock).state() == if guard is Some {
                old(lock).state().with_reader().with_upgradable(true)
            } else {
                old(lock).state()
            },
    {
        if lock.writer || lock.upgradable {
            return None;
        }
        lock.readers = lock.readers + 1;
        lock.upgradable = true;
        Some(UpgradableReaderGuard { of: self.of })
    }

    /// Prepares to wait for the right to read.
    pub fn read(&mut self) -> (wait: MayBreakRead)
        ensures
            *final(self) == *old(self),
            wait.of() == old(self).of(),
    {
        MayBreakRead { of: self.of }
    }

    /// Prepares to wait for the right to write.
    pub fn write(&mut self) -> (wait: MayBreakWrite)
        ensures
            *final(self) == *old(self),
            wait.of() == old(self).of(),
    {
        MayBreakWrite { of: self.of }
    }

    /// Prepares to wait for the right to read upgradably.
    pub fn upgradable_read(&mut self) -> (wait: MayBreakUpgradableRead)
        ensures
            *final(self) == *old(self),
            wait.of() == old(self).of(),
    {
        MayBreakUpgradableRead { of: self.of }
    }
}

/// A wait for the right to read that the caller may break off.
pub struct MayBreakRead {
    of: Ghost<int>,
}

impl MayBreakRead {
    /// The identity of the lock.
    pub closed spec fn of(&self) -> int {
        self.of@
    }

    /// Waits for the right to read, unless cancelled.
    pub fn may_break_with<T>(self, lock: &mut SpinningRwLock<T>, cancelled: bool) -> (guard: Option<
        ReaderGuard,
    >)
        requires
            self.of() == old(lock).id(),
            old(lock).wf(),
            old(lock).state().readers < usize::MAX,
            cancelled || old(lock).state().can_read(),
        ensures
            final(lock).id() == old(lock).id(),
            guard matches Some(g) ==> g.of() == final(lock).id(),
            final(lock).wf(),
            final(lock).data() == old(lock).data(),
            guard is Some <==> !cancelled,
            final(lock).state() == if guard is Some {
                old(lock).state().with_reader()
            } else {
                old(lock).state()
            },
    {
        if cancelled {
            return None;
        }
        Acquire { of: self.of }.try_read(lock)
    }

    /// Waits for the right to read.
    pub fn wait<T>(self, lock: &mut SpinningRwLock<T>) -> (guard: Option<ReaderGuard>)
        requires
            self.of() == old(lock).id(),
            old(lock).wf(),
            old(lock).state().readers < usize::MAX,
            old(lock).state().can_read(),
        ensures
            final(lock).id() == old(lock).id(),
            guard matches Some(g) ==> g.of() == final(lock).id(),
            final(lock).wf(),
            final(lock).data() == old(lock).data(),
            guard is Some,
            final(lock).state() == old(lock).state().with_reader(),
    {
        self.may_break_with(lock, false)
    }
}

/// A wait for the right to write that the caller may break off.
pub struct MayBreakWrite {
    of: Ghost<int>,
}

impl MayBreakWrite {
    /// The identity of the lock.
    pub closed spec fn of(&self) -> int {
        self.of@
    }

    /// Waits for the right to write, unless cancelled.
    pub fn may_break_with<T>(self, lock: &mut SpinningRwLock<T>, cancelled: bool) -> (guard: Option<
        WriterGuard,
    >)
        requires
            self.of() == old(lock).id(),
            old(lock).wf(),
            cancelled || old(lock).state().can_write(),
        ensures
            final(lock).id() == old(lock).id(),
            guard matches Some(g) ==> g.of() == final(lock).id(),
            final(lock).wf(),
            final(lock).data() == old(lock).data(),
            guard is Some <==> !cancelled,
            guard matches Some(w) ==> !w.replaces_reader(),
            final(lock).state() == if guard is Some {
                old(lock).state().with_writer(true)
            } else {
                old(lock).state()
            },
    {
        if cancelled {
            return None;
        }
        Acquire { of: self.of }.try_write(lock)
    }

    /// Waits for the right to write.
    pub fn wait<T>(self, lock: &mut SpinningRwLock<T>) -> (guard: Option<WriterGuard>)
        requires
            self.of() == old(lock).id(),
            old(lock).wf(),
            old(lock).state().can_write(),
        ensures
            final(lock).id() == old(lock).id(),
            guard matches Some(g) ==> g.of() == final(lock).id(),
            final(lock).wf(),
            final(lock).data() == old(lock).data(),
            guard matches Some(w) && !w.replaces_reader(),
            final(lock).state() == old(lock).state().with_writer(true),
    {
        self.may_break_with(lock, false)
    }
}

/// A wait for the right to read upgradably that the caller may break off.
pub struct MayBreakUpgradableRead {
    of: Ghost<int>,
}

impl MayBreakUpgradableRead {
    /// The identity of the lock.
    pub closed spec fn of(&self) -> int {
        self.of@
    }

    /// Waits for the right to read upgradably, unless cancelled.
    pub fn may_break_with<T>(self, lock: &mut SpinningRwLock<T>, cancelled: bool) -> (guard: Option<
        UpgradableReaderGuard,
    >)
        requires
            self.of() == old(lock).id(),
            old(lock).wf(),
            old(lock).state().readers < usize::MAX,
            cancelled || old(lock).state().can_read_upgradable(),
        ensures
            final(lock).id() == old(lock).id(),
            guard matches Some(g) ==> g.of() == final(lock).id(),
            final(lock).wf(),
            final(lock).data() == old(lock).data(),
            guard is Some <==> !cancelled,
            final(lock).state() == if guard is Some {
                old(lock).state().with_reader().with_upgradable(true)
            } else {
                old(lock).state()
            },
    {
        if cancelled {
            return None;
        }
        Acquire { of: self.of }.try_upgradable_read(lock)
    }

    /// Waits for the right to read upgradably.
    pub fn wait<T>(self, lock: &mut SpinningRwLock<T>) -> (guard: Option<UpgradableReaderGuard>)
        requires
            self.of() == old(lock).id(),
            old(lock).wf(),
            old(lock).state().readers < usize::MAX,
            old(lock).state().can_read_upgradable(),
        ensures
            final(lock).id() == old(lock).id(),
            guard matches Some(g) ==> g.of() == final(lock).id(),
            final(lock).wf(),
            final(lock).data() == old(lock).data(),
            guard is Some,
            final(lock).state() == old(lock).state().with_reader().with_upgradable(true),
    {
        self.may_break_with(lock, false)
    }

    /// Waits for the right to read upgradably; `f` supplies a guard if there is none.
    pub fn wait_or<T, F: FnOnce() -> UpgradableReaderGuard>(
        self,
        lock: &mut SpinningRwLock<T>,
        f: F,
    ) -> (guard: UpgradableReaderGuard)
        requires
            self.of() == old(lock).id(),
            old(lock).wf(),
            old(lock).state().readers < usize::MAX,
            old(lock).state().can_read_upgradable(),
            call_requires(f, ()),
        ensures
            final(lock).id() == old(lock).id(),
            guard.of() == final(lock).id(),
            final(lock).wf(),
            final(lock).data() == old(lock).data(),
            final(lock).state() == old(lock).state().with_reader().with_upgradable(true),
    {
        match self.wait(lock) {
            Some(guard) => guard,
            None => f(),
        }
    }
}

impl ReaderGuard {
    /// The identity of the lock.
    pub closed spec fn of(&self) -> int {
        self.of@
    }

    /// The guarded data.
    pub fn get<'l, T>(&self, lock: &'l SpinningRwLock<T>) -> (data: &'l T)
        requires
            self.of() == lock.id(),
        ensures
            *data == lock.data(),
    {
        &lock.value
    }

    /// Leaves the lock.
    pub fn release<T>(self, lock: &mut SpinningRwLock<T>)
        requires
            self.of() == old(lock).id(),
            old(lock).wf(),
            old(lock).state().readers > if old(lock).state().upgradable {
                1nat
            } else {
                0nat
            },
        ensures
            final(lock).id() == old(lock).id(),
            final(lock).wf(),
            final(lock).data() == old(lock).data(),
            final(lock).state() == old(lock).state().without_reader(),
    {
        lock.readers = lock.readers - 1;
    }
}

impl UpgradableReaderGuard {
    /// The identity of the lock.
    pub closed spec fn of(&self) -> int {
        self.of@
    }

    /// The guarded data.
    pub fn get<'l, T>(&self, lock: &'l SpinningRwLock<T>) -> (data: &'l T)
        requires
            self.of() == lock.id(),
        ensures
            *data == lock.data(),
    {
        &lock.value
    }

    /// Leaves the lock.
    pub fn release<T>(self, lock: &mut SpinningRwLock<T>)
        requires
            self.of() == old(lock).id(),
            old(lock).wf(),
            old(lock).state().upgradable,
            !old(lock).state().writer,
        ensures
            final(lock).id() == old(lock).id(),
            final(lock).wf(),
            final(lock).data() == old(lock).data(),
            final(lock).state() == old(lock).state().without_reader().with_upgradable(false),
    {
        lock.readers = lock.readers - 1;
        lock.upgradable = false;
    }

    /// Goes on as an ordinary reader.
    pub fn downgrade<T>(self, lock: &mut SpinningRwLock<T>) -> (guard: ReaderGuard)
        requires
            self.of() == old(lock).id(),
            old(lock).wf(),
            old(lock).state().upgradable,
            !old(lock).state().writer,
        ensures
            final(lock).id() == old(lock).id(),
            guard.of() == final(lock).id(),
            final(lock).wf(),
            final(lock).data() == old(lock).data(),
            final(lock).state() == old(lock).state().with_upgradable(false),
    {
        lock.upgradable = false;
        ReaderGuard { of: self.of }
    }

    /// Becomes the writer if there is no other reader, or else stays what it is.
    ///
    /// The writer leaves the lock altogether when it is released.
    pub fn try_upgrade<T>(self, lock: &mut SpinningRwLock<T>) -> (res: Result<
        WriterGuard,
        UpgradableReaderGuard,
    >)
        requires
            self.of() == old(lock).id(),
            old(lock).wf(),
            old(lock).state().upgradable,
            !old(lock).state().writer,
        ensures
            final(lock).id() == old(lock).id(),
            res matches Ok(g) ==> g.of() == final(lock).id(),
            res matches Err(g) ==> g == self,
            final(lock).wf(),
            final(lock).data() == old(lock).data(),
            res is Ok <==> old(lock).state().can_upgrade(),
            res matches Ok(w) ==> w.replaces_reader(),
            final(lock).state() == if res is Ok {
                old(lock).state().with_writer(true)
            } else {
                old(lock).state()
            },
    {
        if lock.readers != 1 {
            return Err(self);
        }
        lock.writer = true;
        Ok(WriterGuard { reads: true, of: self.of })
    }

    /// Prepares to become the writer. The reader stays a reader for now.
    pub fn upgrade(self) -> (upgrade: Upgrade)
        ensures
            upgrade.guard() == self,
    {
        Upgrade::new(self)
    }
}

impl WriterGuard {
    /// The identity of the lock.
    pub closed spec fn of(&self) -> int {
        self.of@
    }

    /// The writer has taken the place of the upgradable reader and leaves with it.
    pub closed spec fn replaces_reader(&self) -> bool {
        self.reads
    }

    /// The guarded data.
    pub fn get<'l, T>(&self, lock: &'l SpinningRwLock<T>) -> (data: &'l T)
        requires
            self.of() == lock.id(),
        ensures
            *data == lock.data(),
    {
        &lock.value
    }

    /// The guarded data, to be changed.
    pub fn get_mut<'l, T>(&mut self, lock: &'l mut SpinningRwLock<T>) -> (data: &'l mut T)
        requires
            old(self).of() == old(lock).id(),
        ensures
            final(lock).id() == old(lock).id(),
            final(self).of() == old(self).of(),
            *data == old(lock).data(),
            final(lock).data() == *final(data),
            final(lock).state() == old(lock).state(),
            final(self).replaces_reader() == old(self).replaces_reader(),
    {
        &mut lock.value
    }

    /// Stops writing.
    pub fn release<T>(self, lock: &mut SpinningRwLock<T>)
        requires
            self.of() == old(lock).id(),
            old(lock).wf(),
            old(lock).state().writer,
            self.replaces_reader() ==> old(lock).state().upgradable,
        ensures
            final(lock).id() == old(lock).id(),
            final(lock).wf(),
            final(lock).data() == old(lock).data(),
            final(lock).state() == if self.replaces_reader() {
                old(lock).state().with_writer(false).without_reader().with_upgradable(false)
            } else {
                old(lock).state().with_writer(false)
            },
    {
        lock.writer = false;
        if self.reads {
            lock.readers = lock.readers - 1;
            lock.upgradable = false;
        }
    }
}

/// What a waiting upgradable reader does after an attempt to become the writer.
#[derive(Debug, Clone, Copy, PartialEq, Eq, Structural)]
pub enum UpgradeAction {
    /// Write.
    Granted,
    /// Stop: the caller has cancelled.
    GiveUp,
    /// Attempt again.
    Retry,
}

/// Decides what to do after an attempt: cancellation is looked at only after a failure.
pub fn upgrade_next(upgraded: bool, cancelled: bool) -> (action: UpgradeAction)
    ensures
        action == if upgraded {
            UpgradeAction::Granted
        } else if cancelled {
            UpgradeAction::GiveUp
        } else {
            UpgradeAction::Retry
        },
{
    if upgraded {
        UpgradeAction::Granted
    } else if cancelled {
        UpgradeAction::GiveUp
    } else {
        UpgradeAction::Retry
    }
}

/// An upgradable reader that is about to become the writer, perhaps more than once.
pub struct Upgrade(UpgradableReaderGuard);

impl Upgrade {
    /// The upgradable reader.
    pub closed spec fn guard(&self) -> UpgradableReaderGuard {
        self.0
    }

    /// The identity of the lock.
    pub open spec fn of(&self) -> int {
        self.guard().of()
    }

    /// Starts from an upgradable reader.
    pub fn new(guard: UpgradableReaderGuard) -> (upgrade: Self)
        ensures
            upgrade.guard() == guard,
    {
        Upgrade(guard)
    }

    /// Becomes the writer if there is no other reader.
    ///
    /// The upgradable reader stays in the lock when the writer is released.
    pub fn try_upgrade<T>(&mut self, lock: &mut SpinningRwLock<T>) -> (guard: Option<WriterGuard>)
        requires
            old(self).of() == old(lock).id(),
            old(lock).wf(),
            old(lock).state().upgradable,
            !old(lock).state().writer,
        ensures
            final(lock).id() == old(lock).id(),
            guard matches Some(g) ==> g.of() == final(lock).id(),
            *final(self) == *old(self),
            final(lock).wf(),
            final(lock).data() == old(lock).data(),
            guard is Some <==> old(lock).state().can_upgrade(),
            guard matches Some(w) ==> !w.replaces_reader(),
            final(lock).state() == if guard is Some {
                old(lock).state().with_writer(true)
            } else {
                old(lock).state()
            },
    {
        if lock.readers != 1 {
            return None;
        }
        lock.writer = true;
        Some(WriterGuard { reads: false, of: self.0.of })
    }

    /// Prepares to wait for the right to write.
    pub fn upgrade(&mut self) -> (wait: MayBreakUpgrade<'_>)
        ensures
            *wait.0 == *old(self),
            *final(self) == *final(wait.0),
    {
        MayBreakUpgrade(self)
    }

    /// Gives the upgradable reader back.
    pub fn into_guard(self) -> (guard: UpgradableReaderGuard)
        ensures
            guard == self.guard(),
    {
        self.0
    }

    /// Waits for the right to write, unless cancelled.
    ///
    /// The attempt comes first: cancellation is looked at only after it failed.
    pub fn upgrade_with_cancel<T>(
        &mut self,
        lock: &mut SpinningRwLock<T>,
        cancelled: bool,
    ) -> (guard: Option<WriterGuard>)
        requires
            old(self).of() == old(lock).id(),
            old(lock).wf(),
            old(lock).state().upgradable,
            !old(lock).state().writer,
            cancelled || old(lock).state().can_upgrade(),
        ensures
            final(lock).id() == old(lock).id(),
            guard matches Some(g) ==> g.of() == final(lock).id(),
            *final(self) == *old(self),
            final(lock).wf(),
            final(lock).data() == old(lock).data(),
            guard is Some <==> old(lock).state().can_upgrade(),
            guard matches Some(w) ==> !w.replaces_reader(),
            final(lock).state() == if guard is Some {
                old(lock).state().with_writer(true)
            } else {
                old(lock).state()
            },
    {
        let guard = self.try_upgrade(lock);
        match upgrade_next(guard.is_some(), cancelled) {
            UpgradeAction::Granted => guard,
            _ => None,
        }
    }
}

/// A wait for the right to write, by an upgradable reader, that the caller may break off.
pub struct MayBreakUpgrade<'u>(pub &'u mut Upgrade);

impl<'u> MayBreakUpgrade<'u> {
    /// The identity of the lock.
    pub open spec fn of(&self) -> int {
        self.0.of()
    }

    /// Waits for the right to write, unless cancelled.
    pub fn may_break_with<T>(self, lock: &mut SpinningRwLock<T>, cancelled: bool) -> (guard: Option<
        WriterGuard,
    >)
        requires
            self.of() == old(lock).id(),
            old(lock).wf(),
            old(lock).state().upgradable,
            !old(lock).state().writer,
            cancelled || old(lock).state().can_upgrade(),
        ensures
            final(lock).id() == old(lock).id(),
            guard matches Some(g) ==> g.of() == final(lock).id(),
            *final(self.0) == *old(self.0),
            final(lock).wf(),
            final(lock).data() == old(lock).data(),
            guard is Some <==> old(lock).state().can_upgrade(),
            guard matches Some(w) ==> !w.replaces_reader(),
            final(lock).state() == if guard is Some {
                old(lock).state().with_writer(true)
            } else {
                old(lock).state()
            },
    {
        self.0.upgrade_with_cancel(lock, cancelled)
    }

    /// Waits for the right to write.
    pub fn wait<T>(self, lock: &mut SpinningRwLock<T>) -> (guard: Option<WriterGuard>)
        requires
            self.of() == old(lock).id(),
            old(lock).wf(),
            old(lock).state().can_upgrade(),
        ensures
            final(lock).id() == old(lock).id(),
            guard matches Some(g) ==> g.of() == final(lock).id(),
            *final(self.0) == *old(self.0),
            final(lock).wf(),
            final(lock).data() == old(lock).data(),
            guard matches Some(w) && !w.replaces_reader(),
            final(lock).state() == old(lock).state().with_writer(true),
    {
        self.may_break_with(lock, false)
    }

    /// Waits for the right to write; `f` supplies a guard if there is none.
    pub fn wait_or<T, F: FnOnce() -> WriterGuard>(
        self,
        lock: &mut SpinningRwLock<T>,
        f: F,
    ) -> (guard: WriterGuard)
        requires
            self.of() == old(lock).id(),
            old(lock).wf(),
            old(lock).state().can_upgrade(),
            call_requires(f, ()),
        ensures
            final(lock).id() == old(lock).id(),
            guard.of() == final(lock).id(),
            *final(self.0) == *old(self.0),
            final(lock).wf(),
            final(lock).data() == old(lock).data(),
            !guard.replaces_reader(),
            final(lock).state() == old(lock).state().with_writer(true),
    {
        match self.wait(lock) {
            Some(guard) => guard,
            None => f(),
        }
    }
}

} // verus!
