//! The spinlock, the reader-writer lock and the queue of contenders.

use buffex::locks::acq_link::{
    guard_next, AcqLink, AcqLinkGuard, AcqLinks, GUARDED, NO_NODE,
};
use buffex::locks::mutex::{
    release_step, SpinAcquire, SpinAction, SpinningMutexEmbedded, SpinningMutexOwned,
};
use buffex::locks::rwlock::{upgrade_next, SpinningRwLock, UpgradeAction};
use buffex::locks::signal::{MsbAsMutexSignal, PtrAsMutexSignal, TrMutexSignal};

#[test]
fn msb_signal_boundaries() {
    type Sig = MsbAsMutexSignal<usize>;
    let msb = Sig::K_MSB_FLAG();

    // Released state is the default.
    assert!(!Sig::is_acquired(0));
    assert!(Sig::is_released(0));

    // Acquire sets the MSB; release clears it.
    assert_eq!(Sig::make_acquired(0), msb);
    assert!(Sig::is_acquired(msb));
    assert_eq!(Sig::make_released(msb), 0);

    // Data bits are preserved across acquire/release round-trips.
    let data = 0x0F0Fusize;
    assert_eq!(Sig::make_acquired(data) & !msb, data);
    assert_eq!(Sig::make_released(Sig::make_acquired(data)), data);

    // All data bits set (MSB clear) is still "released".
    let all_data = !msb;
    assert!(!Sig::is_acquired(all_data));

    // All bits set is "acquired" and releases back to all-data.
    assert!(Sig::is_acquired(usize::MAX));
    assert_eq!(Sig::make_released(usize::MAX), all_data);

    // Make-again on an already acquired value keeps it acquired.
    assert!(Sig::is_acquired(Sig::make_acquired(msb)));
}

#[test]
fn msb_signal_of_every_width() {
    assert_eq!(MsbAsMutexSignal::<u8>::K_MSB_FLAG(), 0x80);
    assert_eq!(MsbAsMutexSignal::<u16>::K_MSB_FLAG(), 0x8000);
    assert_eq!(MsbAsMutexSignal::<u32>::K_MSB_FLAG(), 0x8000_0000);
    assert_eq!(MsbAsMutexSignal::<u64>::K_MSB_FLAG(), 0x8000_0000_0000_0000);
    assert_eq!(MsbAsMutexSignal::<u128>::K_MSB_FLAG(), 1u128 << 127);
    assert_eq!(MsbAsMutexSignal::<usize>::K_MSB_FLAG(), 1usize << (usize::BITS - 1));

    for val in 0..=255u8 {
        type Sig = MsbAsMutexSignal<u8>;
        assert_eq!(Sig::is_acquired(val), val >= 0x80);
        assert_eq!(Sig::make_acquired(val), val | 0x80);
        assert_eq!(Sig::make_released(val), val & 0x7f);
    }
    assert_eq!(MsbAsMutexSignal::<u16>::make_acquired(0x0123), 0x8123);
    assert_eq!(MsbAsMutexSignal::<u32>::make_released(0x8000_0042), 0x42);
    assert!(MsbAsMutexSignal::<u64>::is_acquired(u64::MAX));
    assert!(MsbAsMutexSignal::<u64>::is_released(u64::MAX >> 1));
    assert!(MsbAsMutexSignal::<u128>::is_acquired(u128::MAX));
    assert_eq!(MsbAsMutexSignal::<u128>::make_acquired(5), (1u128 << 127) | 5);
    assert_eq!(MsbAsMutexSignal::<u128>::make_released(u128::MAX), u128::MAX >> 1);
}

#[test]
fn ptr_signal_boundaries() {
    type Sig = PtrAsMutexSignal<usize>;

    let null = 0usize;
    let even = 0x10usize;
    let odd = 0x11usize;

    // Null / even addresses are "released".
    assert!(Sig::is_released(null));
    assert!(Sig::is_released(even));

    // Acquire makes the address odd; release makes it even again.
    assert!(Sig::is_acquired(Sig::make_acquired(even)));
    assert_eq!(Sig::make_released(Sig::make_acquired(even)), even);
    assert_eq!(Sig::make_acquired(null), 1);

    // An odd address is taken for acquired, and releasing it gives another one.
    assert!(Sig::is_acquired(odd));
    assert_eq!(Sig::make_released(odd), 0x10);
}

#[test]
fn ptr_signal_odd_cell_breaks_mutex() {
    // `new` keeps the odd address in the cell: the lock looks acquired for ever.
    let mut data = 7usize;
    let mut cell = 0x3usize;
    let mut lock = SpinningMutexEmbedded::<&mut usize, usize, PtrAsMutexSignal<usize>>::new(
        &mut data, &mut cell,
    );

    assert!(lock.is_acquired());
    let mut acq = lock.acquire();
    assert!(acq.try_lock(&mut lock).is_none());
}

#[test]
fn try_lock_lifecycle() {
    let mut mutex: SpinningMutexOwned<usize> = SpinningMutexOwned::new_owned(42);
    assert!(!mutex.is_acquired());

    let mut acq1 = mutex.acquire();
    let g = acq1.try_lock(&mut mutex).expect("first try_lock should succeed");
    assert!(mutex.is_acquired());
    assert_eq!(*g.get(&mutex), 42);

    // The lock is held: a second try_lock must fail without blocking.
    let mut acq2 = mutex.acquire();
    assert!(acq2.try_lock(&mut mutex).is_none());

    assert!(g.unlock(&mut mutex));
    assert!(!mutex.is_acquired());
    let g = acq2.try_lock(&mut mutex).expect("try_lock after release");
    assert_eq!(*g.get(&mutex), 42);
}

#[test]
fn lock_wait_single_thread() {
    let mut mutex: SpinningMutexOwned<usize> = SpinningMutexOwned::new_owned(1);
    let mut acq = mutex.acquire();
    {
        let mut g = acq.lock().wait(&mut mutex).expect("lock().wait()");
        *g.get_mut(&mut mutex) += 1;
        assert_eq!(*g.get(&mutex), 2);
        assert!(g.unlock(&mut mutex));
    }
    {
        let g = acq.lock().wait(&mut mutex).expect("re-lock");
        assert_eq!(*g.get(&mutex), 2);
    }
}

#[test]
fn embedded_new_resets_cell_to_default() {
    let data = 9usize;
    let mut cell = usize::MAX; // dirty
    let mut lock: SpinningMutexEmbedded<usize> =
        SpinningMutexEmbedded::new_embedded(data, &mut cell);
    assert!(!lock.is_acquired());
    let mut acq = lock.acquire();
    let g = acq.try_lock(&mut lock).expect("try_lock after reset");
    assert_eq!(*g.get(&lock), 9);
}

#[test]
fn into_inner_roundtrip() {
    let mutex: SpinningMutexOwned<String> = SpinningMutexOwned::new_owned(String::from("hi"));
    assert_eq!(mutex.into_inner(), "hi");
}

#[test]
fn may_break_precancelled_token_never_acquires() {
    let mut mutex: SpinningMutexOwned<usize> = SpinningMutexOwned::new_owned(3);
    let mut acq = mutex.acquire();
    let g = acq.lock().may_break_with(&mut mutex, true);
    assert!(g.is_none(), "pre-cancelled token must not acquire");
    assert!(!mutex.is_acquired());
}

#[test]
fn may_break_with_cancelled_token_returns_none_while_held() {
    let mut mutex: SpinningMutexOwned<usize> = SpinningMutexOwned::new_owned(0);
    let mut holder = mutex.acquire();
    let g = holder.lock().wait(&mut mutex).unwrap();
    let mut acq = mutex.acquire();
    assert!(acq.lock().may_break_with(&mut mutex, true).is_none());
    assert!(g.unlock(&mut mutex));
}

#[test]
fn ptr_smoke_test() {
    const ANSWER: usize = 42;
    const PTR_SIZE: usize = std::mem::size_of::<&usize>();

    let mut cell = PTR_SIZE;
    let ptr = cell;
    let mut data = ANSWER;
    let mut lock = SpinningMutexEmbedded::<&mut usize, usize, PtrAsMutexSignal<usize>>::new(
        &mut data, &mut cell,
    );

    let mut acq = lock.acquire();
    let g = acq.lock().wait(&mut lock).unwrap();
    assert_eq!(**g.get(&lock), ANSWER);
    assert!(g.unlock(&mut lock));
    assert_eq!(ptr, cell);
}

#[test]
fn usize_smoke_test() {
    let mut mutex: SpinningMutexOwned<usize> = SpinningMutexOwned::new_owned(0);
    for i in 0..10usize {
        let mut acq = mutex.acquire();
        let mut g = acq.lock().wait(&mut mutex).unwrap();
        assert_eq!(*g.get(&mutex), i);
        *g.get_mut(&mut mutex) += 1;
        assert!(g.unlock(&mut mutex));
    }
    assert_eq!(mutex.into_inner(), 10);
}

#[test]
fn lock_wait_acquires_after_holder_releases() {
    // A contender on a shared word: it sees the lock held, reads again, and acquires
    // the lock once the holder has left.
    type Sig = MsbAsMutexSignal<usize>;
    let mut word = Sig::make_acquired(0);
    let mut spin = SpinAcquire::<usize, Sig>::new(word);
    for _ in 0..3 {
        assert_eq!(spin.next(false), SpinAction::Reload);
        spin.observe(word);
    }
    word = release_step::<usize, Sig>(word).expect("the lock is held");
    assert_eq!(word, 0);
    assert_eq!(spin.next(false), SpinAction::Reload);
    spin.observe(word);
    match spin.next(false) {
        SpinAction::Exchange { expected, desired } => {
            assert_eq!(expected, word);
            word = desired;
        }
        other => panic!("{other:?}"),
    }
    assert!(Sig::is_acquired(word));
}

#[test]
fn failed_exchange_is_tried_with_the_word_found() {
    type Sig = MsbAsMutexSignal<usize>;
    let mut spin = SpinAcquire::<usize, Sig>::new(1);
    assert!(matches!(spin.next(false), SpinAction::Exchange { expected: 1, .. }));
    spin.observe(2);
    assert!(matches!(spin.next(false), SpinAction::Exchange { expected: 2, .. }));
    assert_eq!(spin.next(true), SpinAction::GiveUp);
}

#[test]
fn nothing_to_release() {
    type Sig = MsbAsMutexSignal<usize>;
    assert_eq!(release_step::<usize, Sig>(5), None);
    assert_eq!(release_step::<usize, Sig>(Sig::make_acquired(5)), Some(5));
}

#[test]
fn contended_increment_3_to_8_threads() {
    // Contenders take turns on one shared word; only the holder touches the counter.
    type Sig = MsbAsMutexSignal<usize>;
    for contenders in 3..=8usize {
        let iters = 1000usize;
        let mut word = 0usize;
        let mut counter = 0usize;
        let mut holder: Option<usize> = None;
        let mut done = vec![0usize; contenders];
        let mut spins: Vec<SpinAcquire<usize, Sig>> =
            (0..contenders).map(|_| SpinAcquire::new(0)).collect();
        let mut turn = 0usize;
        while done.iter().any(|d| *d < iters) {
            turn = turn.wrapping_mul(6364136223846793005).wrapping_add(1442695040888963407);
            let me = (turn >> 33) % contenders;
            if holder == Some(me) {
                counter += 1;
                done[me] += 1;
                word = release_step::<usize, Sig>(word).expect("held");
                holder = None;
            } else if done[me] < iters {
                match spins[me].next(false) {
                    SpinAction::Reload => spins[me].observe(word),
                    SpinAction::Exchange { expected, desired } => {
                        if word == expected {
                            assert!(holder.is_none(), "two holders");
                            word = desired;
                            holder = Some(me);
                        } else {
                            spins[me].observe(word);
                        }
                    }
                    SpinAction::GiveUp => unreachable!(),
                }
            }
        }
        assert_eq!(counter, contenders * iters, "lost increments");
        assert_eq!(word, 0);
    }
}

#[test]
fn rwlock_default_test() {
    const ANSWER: usize = 42;
    let rwlock = SpinningRwLock::<usize>::new_owned(ANSWER);
    assert_eq!(rwlock.reader_count(), 0);
    assert_eq!(rwlock.into_inner(), ANSWER);
}

#[test]
fn acquire_reader_guard_should_block_acq_writer_guard() {
    const ANSWER: usize = 42;
    const MYSTERY: usize = ANSWER * ANSWER;

    let mut rwlock = SpinningRwLock::<usize>::new_owned(ANSWER);
    let mut acq_r0 = rwlock.acquire();
    let r0 = acq_r0.read().wait(&mut rwlock).unwrap();
    assert_eq!(*r0.get(&rwlock), ANSWER);
    assert_eq!(rwlock.reader_count(), 1);

    let mut acq_r1 = rwlock.acquire();
    let r1 = acq_r1.read().wait(&mut rwlock).unwrap();
    assert_eq!(*r1.get(&rwlock), *r0.get(&rwlock));
    assert_eq!(rwlock.reader_count(), 2);

    let mut acq_w = rwlock.acquire();
    let opt_w = acq_w.try_write(&mut rwlock);
    assert!(opt_w.is_none());

    r0.release(&mut rwlock);
    assert_eq!(rwlock.reader_count(), 1);

    let opt_w = acq_w.try_write(&mut rwlock);
    assert!(opt_w.is_none());

    r1.release(&mut rwlock);
    assert_eq!(rwlock.reader_count(), 0);

    let opt_w = acq_w.try_write(&mut rwlock);
    let mut w = opt_w.unwrap();
    assert_eq!(*w.get(&rwlock), ANSWER);
    *w.get_mut(&mut rwlock) = MYSTERY;

    w.release(&mut rwlock);
    assert_eq!(rwlock.into_inner(), MYSTERY);
}

#[test]
fn acquire_reader_guard_should_block_upgrade() {
    const ANSWER: usize = 42;
    const MYSTERY: usize = ANSWER * ANSWER;

    let mut rwlock = SpinningRwLock::<usize>::new_owned(ANSWER);
    let mut acq_r0 = rwlock.acquire();

    let r0 = acq_r0.read().wait(&mut rwlock).unwrap();
    assert_eq!(*r0.get(&rwlock), ANSWER);
    assert_eq!(rwlock.reader_count(), 1);

    let mut acq_r1 = rwlock.acquire();
    let r1 = acq_r1.upgradable_read().wait(&mut rwlock).unwrap();
    assert_eq!(*r1.get(&rwlock), *r0.get(&rwlock));
    assert_eq!(rwlock.reader_count(), 2);

    let mut upg = r1.upgrade();
    // creating `Upgrade` should not decrease reader count
    assert_eq!(rwlock.reader_count(), 2);
    let opt_u = upg.try_upgrade(&mut rwlock);
    assert!(opt_u.is_none());

    r0.release(&mut rwlock);
    assert_eq!(rwlock.reader_count(), 1);

    let mut w = upg.upgrade().wait(&mut rwlock).unwrap();
    // upgraded from an upgradable reader guard will not decrease reader count
    assert_eq!(rwlock.reader_count(), 1);
    assert_eq!(*w.get(&rwlock), ANSWER);
    *w.get_mut(&mut rwlock) = MYSTERY;

    w.release(&mut rwlock);
    upg.into_guard().release(&mut rwlock);
    assert_eq!(rwlock.reader_count(), 0);
    let x = rwlock.into_inner();
    assert_eq!(x, MYSTERY);
}

#[test]
fn upgradable_reader_is_alone_of_its_kind() {
    let mut rwlock = SpinningRwLock::<u8>::new_owned(1);
    let mut acq = rwlock.acquire();
    let up = acq.try_upgradable_read(&mut rwlock).unwrap();
    assert!(acq.try_upgradable_read(&mut rwlock).is_none());
    let r = acq.try_read(&mut rwlock).unwrap();
    assert_eq!(rwlock.reader_count(), 2);

    let plain = up.downgrade(&mut rwlock);
    assert_eq!(rwlock.reader_count(), 2);
    let up = acq.upgradable_read().wait_or(&mut rwlock, || unreachable!());
    assert_eq!(rwlock.reader_count(), 3);

    // with other readers about there is no upgrade
    let up = match up.try_upgrade(&mut rwlock) {
        Err(up) => up,
        Ok(_) => panic!("no upgrade beside other readers"),
    };
    plain.release(&mut rwlock);
    r.release(&mut rwlock);
    let w = match up.try_upgrade(&mut rwlock) {
        Ok(w) => w,
        Err(_) => panic!("the upgradable reader is alone"),
    };
    assert_eq!(rwlock.reader_count(), 1);
    assert!(acq.try_read(&mut rwlock).is_none());
    assert!(acq.try_write(&mut rwlock).is_none());
    w.release(&mut rwlock);
    assert_eq!(rwlock.reader_count(), 0);
    assert!(acq.write().may_break_with(&mut rwlock, true).is_none());
    assert!(acq.write().wait(&mut rwlock).is_some());
}

#[test]
fn cancelled_upgrade_is_attempted_first() {
    let mut rwlock = SpinningRwLock::<u8>::new_owned(1);
    let mut acq = rwlock.acquire();
    let mut upg = acq.try_upgradable_read(&mut rwlock).unwrap().upgrade();
    let r = acq.try_read(&mut rwlock).unwrap();
    assert!(upg.upgrade_with_cancel(&mut rwlock, true).is_none());
    r.release(&mut rwlock);
    let w = upg.upgrade().may_break_with(&mut rwlock, true).expect("granted at once");
    w.release(&mut rwlock);
    assert!(acq.read().may_break_with(&mut rwlock, true).is_none());
    assert!(acq.upgradable_read().may_break_with(&mut rwlock, true).is_none());
    assert_eq!(upgrade_next(true, true), UpgradeAction::Granted);
    assert_eq!(upgrade_next(false, true), UpgradeAction::GiveUp);
    assert_eq!(upgrade_next(false, false), UpgradeAction::Retry);
}

#[test]
fn queue_nodes_are_linked_once() {
    let mut links = AcqLinks::new();
    let a = links.insert(AcqLink::new_unlinked());
    let b = links.insert(AcqLink::new_unlinked());
    let c = links.insert(AcqLink::new_unlinked());
    assert_eq!((a, b, c), (1, 2, 3));

    assert_eq!(links.try_insert_next_(a, b, false), Ok(b));
    assert_eq!(links.get(a), AcqLink::new(NO_NODE, b));
    assert_eq!(links.get(b), AcqLink::new(a, NO_NODE));

    // a second successor is refused, and nothing changes
    assert_eq!(links.try_insert_next_(a, c, false), Err(Some(b)));
    assert_eq!(links.get(c), AcqLink::new_unlinked());
    assert_eq!(links.get(a), AcqLink::new(NO_NODE, b));

    // b has a predecessor, so guarding it is a wait that can be cancelled
    assert_eq!(links.try_insert_next_(b, c, true), Err(None));
    assert_eq!(links.get(c), AcqLink::new_unlinked());
    // no node becomes its own successor
    assert_eq!(links.try_insert_next_(a, a, true), Err(None));
    assert_eq!(links.get(a), AcqLink::new(NO_NODE, b));
    assert_eq!(links.try_insert_next_(b, c, false), Ok(c));
    assert_eq!(links.get(b), AcqLink::new(a, c));
    assert_eq!(links.get(c), AcqLink::new(b, NO_NODE));
}

#[test]
fn guarded_nodes_keep_their_predecessor() {
    assert_eq!(AcqLinkGuard::guarded(), usize::MAX);
    let mut links = AcqLinks::new();
    let a = links.insert(AcqLink::new_unlinked());
    let b = links.insert(AcqLink::new(a, NO_NODE));

    let guard = AcqLinkGuard::try_acquire(&mut links, b, false).unwrap();
    assert_eq!(links.get(b).prev, GUARDED);
    match AcqLinkGuard::try_acquire(&mut links, b, true) {
        Err(found) => assert_eq!(found, GUARDED),
        Ok(_) => panic!("guarded twice"),
    }
    guard.release(&mut links);
    assert_eq!(links.get(b).prev, a);

    let mut guard = AcqLinkGuard::try_acquire(&mut links, a, true).unwrap();
    guard.update_prev(b);
    guard.release(&mut links);
    assert_eq!(links.get(a).prev, b);

    assert_eq!(guard_next(0, 5, true), Err(5));
    assert_eq!(guard_next(0, 5, false), Ok(5));
    assert_eq!(guard_next(0, GUARDED, false), Ok(0));
}
