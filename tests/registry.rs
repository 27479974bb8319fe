use mid_util::borrow::{BorrowError, BorrowMutability, BorrowState};
use mid_util::cell::LRefCell;
use mid_util::lock::{LocalSession, Lock, LockDb, SessionGuard};

#[test]
fn identities_run_out_and_are_reused() {
    let mut db = LockDb::new();
    let mut locks = Vec::new();
    for n in 0..255 {
        let lock = Lock::try_new(&mut db, "lock").expect("an identity is free");
        assert_eq!(lock.index(), n + 1);
        locks.push(lock);
    }
    assert!(Lock::try_new(&mut db, "one too many").is_err());

    locks[41].unreserve(&mut db);
    let again = Lock::try_new(&mut db, "again").expect("the freed identity is free");
    assert_eq!(again.index(), 42);
    assert!(Lock::try_new(&mut db, "one too many").is_err());
}

#[test]
fn reacquiring_a_held_mode_changes_nothing() {
    let mut db = LockDb::new();
    let lock = Lock::new(&mut db, "l");
    let guard = SessionGuard::new_unique(&mut db);
    let s = guard.handle();

    s.acquire_locks(&mut db, vec![(lock, BorrowMutability::Immutable)]);
    assert_eq!(lock.global_borrow_state(&db), Some(BorrowState::new_immutable_known(1)));

    assert!(s
        .try_acquire_locks(&mut db, vec![(lock, BorrowMutability::Immutable)])
        .is_ok());
    assert_eq!(lock.global_borrow_state(&db), Some(BorrowState::new_immutable_known(1)));
    assert_eq!(s.local_lock_mode(&db, lock), Some(BorrowMutability::Immutable));

    guard.release(&mut db);
    assert_eq!(lock.global_borrow_state(&db), None);
}

#[test]
fn a_conflicting_batch_grants_nothing() {
    let mut db = LockDb::new();
    let free = Lock::new(&mut db, "free");
    let taken = Lock::new(&mut db, "taken");

    let owner = SessionGuard::new_unique(&mut db);
    owner
        .handle()
        .acquire_locks(&mut db, vec![(taken, BorrowMutability::Mutable)]);

    let other = SessionGuard::new_unique(&mut db);
    let s = other.handle();
    let err = s
        .try_acquire_locks(
            &mut db,
            vec![
                (free, BorrowMutability::Mutable),
                (taken, BorrowMutability::Immutable),
            ],
        )
        .unwrap_err();

    assert_eq!(err.violations.len(), 1);
    assert_eq!(err.violations[0].0, taken);
    assert_eq!(
        err.violations[0].1,
        BorrowError {
            offending: BorrowState::Mutable
        }
    );
    assert_eq!(free.global_borrow_state(&db), None);
    assert_eq!(taken.global_borrow_state(&db), Some(BorrowState::Mutable));
    assert_eq!(s.local_lock_mode(&db, free), None);
    assert_eq!(s.local_lock_mode(&db, taken), None);
}

#[test]
fn every_conflict_of_a_batch_is_reported() {
    let mut db = LockDb::new();
    let a = Lock::new(&mut db, "a");
    let b = Lock::new(&mut db, "b");

    let readers = SessionGuard::new_unique(&mut db);
    readers.handle().acquire_locks(
        &mut db,
        vec![
            (a, BorrowMutability::Immutable),
            (b, BorrowMutability::Immutable),
        ],
    );

    let writer = SessionGuard::new_unique(&mut db);
    let err = writer
        .handle()
        .try_acquire_locks(
            &mut db,
            vec![(a, BorrowMutability::Mutable), (b, BorrowMutability::Mutable)],
        )
        .unwrap_err();
    assert_eq!(err.violations.len(), 2);
    assert_eq!(err.violations[0].0, a);
    assert_eq!(err.violations[1].0, b);
    assert_eq!(
        err.violations[1].1.offending,
        BorrowState::new_immutable_known(1)
    );
}

#[test]
fn teardown_frees_an_exclusive_lock() {
    let mut db = LockDb::new();
    let lock = Lock::new(&mut db, "l");

    let first = SessionGuard::new_unique(&mut db);
    first
        .handle()
        .acquire_locks(&mut db, vec![(lock, BorrowMutability::Mutable)]);

    let second = SessionGuard::new_unique(&mut db);
    let s2 = second.handle();
    assert!(s2
        .try_acquire_locks(&mut db, vec![(lock, BorrowMutability::Mutable)])
        .is_err());

    first.release(&mut db);
    assert_eq!(lock.global_borrow_state(&db), None);
    assert!(s2
        .try_acquire_locks(&mut db, vec![(lock, BorrowMutability::Mutable)])
        .is_ok());
    assert_eq!(lock.global_borrow_state(&db), Some(BorrowState::Mutable));
}

#[test]
fn two_sessions_share_a_lock() {
    let mut db = LockDb::new();
    let lock = Lock::new(&mut db, "l");

    let a = SessionGuard::new_unique(&mut db);
    let b = SessionGuard::new_unique(&mut db);
    a.handle()
        .acquire_locks(&mut db, vec![(lock, BorrowMutability::Immutable)]);
    b.handle()
        .acquire_locks(&mut db, vec![(lock, BorrowMutability::Immutable)]);
    assert_eq!(lock.global_borrow_state(&db), Some(BorrowState::new_immutable_known(2)));

    a.release(&mut db);
    assert_eq!(lock.global_borrow_state(&db), Some(BorrowState::new_immutable_known(1)));
    b.release(&mut db);
    assert_eq!(lock.global_borrow_state(&db), None);
}

#[test]
fn thread_session_is_shared_until_its_last_guard_goes() {
    let mut db = LockDb::new();
    let mut local = LocalSession::new();
    let lock = Lock::new(&mut db, "l");

    let g1 = SessionGuard::new_tls(&mut db, &mut local);
    let g2 = SessionGuard::new_tls(&mut db, &mut local);
    assert_eq!(g1.handle(), g2.handle());

    g1.handle()
        .acquire_locks(&mut db, vec![(lock, BorrowMutability::Mutable)]);
    g1.release(&mut db);
    assert_eq!(lock.global_borrow_state(&db), Some(BorrowState::Mutable));
    g2.release(&mut db);
    assert_eq!(lock.global_borrow_state(&db), None);

    let g3 = SessionGuard::new_tls(&mut db, &mut local);
    assert!(!g3.handle().can_access_ref(&db, lock));
    g3.release(&mut db);
}

#[test]
fn session_labels() {
    let mut db = LockDb::new();
    let g = SessionGuard::new_unique(&mut db);
    let s = g.handle();
    assert_eq!(s.debug_label(&db), "");
    s.set_debug_label(&mut db, "worker");
    assert_eq!(s.debug_label(&db), "worker");
}

#[test]
fn nested_guards_restore_each_record() {
    let mut db = LockDb::new();
    let lock = Lock::new(&mut db, "shared");
    let g = SessionGuard::new_unique(&mut db);
    let s = g.handle();
    s.acquire_locks(&mut db, vec![(lock, BorrowMutability::Mutable)]);

    let mut a = LRefCell::new(lock, 1u32);
    let b = LRefCell::new(lock, 2u32);
    let mut c = LRefCell::new(lock, 3u32);

    let ga = a.borrow_mut(&db, s);
    let seen = b.use_ref(&db, s, |v| *v);
    let gc = c.borrow_mut(&db, s);
    c.release_mut(gc);
    a.release_mut(ga);

    assert_eq!(seen, 2);
    assert_eq!(a.replace(&db, s, 10), 1);
    assert_eq!(c.use_mut(&db, s, |v| {
        *v += 1;
        *v
    }), 4);
    assert_eq!(a.replace_with(&db, s, |v| *v + 5), 10);
    assert_eq!(a.into_inner(), 15);
    assert_eq!(c.into_inner(), 4);
}

#[test]
fn borrow_state_queries() {
    assert_eq!(BorrowMutability::Immutable.invert(), BorrowMutability::Mutable);
    assert_eq!(BorrowMutability::Mutable.invert(), BorrowMutability::Immutable);
    assert_eq!(BorrowMutability::Mutable.adjective(), "mutable");
    assert_eq!(BorrowMutability::Immutable.adverb(), "immutably");
    assert_eq!(
        BorrowState::from_mutability(BorrowMutability::Immutable),
        BorrowState::Immutable(None)
    );
    assert_eq!(BorrowState::Mutable.block_count(), Some(1));
    assert_eq!(BorrowState::new_immutable_known(3).block_count(), Some(3));
    assert_eq!(
        BorrowState::new_immutable_known(3).mutability(),
        BorrowMutability::Immutable
    );
}

#[test]
fn random_batches_keep_holders_exclusive() {
    let mut db = LockDb::new();
    let locks: Vec<Lock> = (0..4).map(|_| Lock::new(&mut db, "l")).collect();
    let mut guards: Vec<Option<SessionGuard>> = (0..5)
        .map(|_| Some(SessionGuard::new_unique(&mut db)))
        .collect();
    let mut seed: u64 = 0x2545_f491_4f6c_dd1d;
    let mut next = move |n: u64| {
        seed = seed.wrapping_mul(6364136223846793005).wrapping_add(1442695040888963407);
        (seed >> 33) % n
    };

    for _ in 0..400 {
        let who = next(5) as usize;
        match next(6) {
            0 => {
                if let Some(g) = guards[who].take() {
                    g.release(&mut db);
                }
                guards[who] = Some(SessionGuard::new_unique(&mut db));
            }
            _ => {
                if let Some(g) = &guards[who] {
                    let len = 1 + next(3);
                    let batch = (0..len)
                        .map(|_| {
                            let lock = locks[next(4) as usize];
                            let mode = if next(2) == 0 {
                                BorrowMutability::Immutable
                            } else {
                                BorrowMutability::Mutable
                            };
                            (lock, mode)
                        })
                        .collect();
                    let _ = g.handle().try_acquire_locks(&mut db, batch);
                }
            }
        }

        for &lock in &locks {
            let mut exclusive = 0;
            let mut shared = 0;
            for g in guards.iter().flatten() {
                match g.handle().local_lock_mode(&db, lock) {
                    Some(BorrowMutability::Mutable) => exclusive += 1,
                    Some(BorrowMutability::Immutable) => shared += 1,
                    None => {}
                }
            }
            assert!(exclusive <= 1);
            assert!(exclusive == 0 || shared == 0);
            let expected = if exclusive == 1 {
                Some(BorrowState::Mutable)
            } else if shared > 0 {
                Some(BorrowState::new_immutable_known(shared))
            } else {
                None
            };
            assert_eq!(lock.global_borrow_state(&db), expected);
        }
    }
}

#[test]
fn checked_cell_access_reports_the_mode() {
    let mut db = LockDb::new();
    let lock = Lock::new(&mut db, "l");
    let g = SessionGuard::new_unique(&mut db);
    let s = g.handle();
    let mut cell = LRefCell::new(lock, 7u32);

    let err = cell.try_use_ref(&db, s, |v| *v).unwrap_err();
    assert_eq!(err.lock as usize, lock.index());
    assert_eq!(err.mode, BorrowMutability::Immutable);
    let err = cell.try_borrow_mut(&db, s).unwrap_err();
    assert_eq!(err.mode, BorrowMutability::Mutable);

    s.acquire_locks(&mut db, vec![(lock, BorrowMutability::Immutable)]);
    assert_eq!(cell.try_use_ref(&db, s, |v| *v + 1).unwrap(), 8);
    assert!(cell.try_borrow_mut(&db, s).is_err());

    // The session's own shared hold blocks an exclusive one.
    assert!(s
        .try_acquire_locks(&mut db, vec![(lock, BorrowMutability::Mutable)])
        .is_err());
    g.release(&mut db);

    let g2 = SessionGuard::new_unique(&mut db);
    let s = g2.handle();
    s.acquire_locks(&mut db, vec![(lock, BorrowMutability::Mutable)]);
    assert_eq!(lock.global_borrow_state(&db), Some(BorrowState::Mutable));
    let guard = cell.try_borrow_mut(&db, s).unwrap();
    let again = cell.try_use_ref(&db, s, |v| *v).unwrap_err();
    assert_eq!(again.lock, 0);
    *cell.get_mut() = 9;
    cell.release_mut(guard);
    assert_eq!(cell.use_ref(&db, s, |v| *v), 9);
}

#[test]
fn borrow_error_messages() {
    assert_eq!(
        BorrowError {
            offending: BorrowState::Mutable
        }
        .message(),
        "failed to borrow immutably, blocked by 1 mutable acquisition"
    );
    assert_eq!(
        BorrowError {
            offending: BorrowState::new_immutable_known(12)
        }
        .message(),
        "failed to borrow mutably, blocked by 12 immutable acquisitions"
    );
    assert_eq!(
        BorrowError {
            offending: BorrowState::Immutable(None)
        }
        .message(),
        "failed to borrow mutably, blocked by an indeterminate number of immutable acquisitions"
    );
    assert_eq!(mid_util::borrow::decimal_string(1234567890), "1234567890");
    assert_eq!(mid_util::borrow::decimal_string(0), "0");
}

#[test]
fn lock_labels() {
    let mut db = LockDb::new();
    let lock = Lock::new(&mut db, "physics");
    assert_eq!(lock.label(&db), "physics");
    assert_eq!(db.session_count(), 0);
    let _g = SessionGuard::new_unique(&mut db);
    assert_eq!(db.session_count(), 1);
}

#[test]
fn nested_closures_leave_records_and_tables_unchanged() {
    let mut db = LockDb::new();
    let lock = Lock::new(&mut db, "shared");
    let g = SessionGuard::new_unique(&mut db);
    let s = g.handle();
    s.acquire_locks(&mut db, vec![(lock, BorrowMutability::Mutable)]);

    let c1 = LRefCell::new(lock, 1u32);
    let mut c2 = LRefCell::new(lock, 2u32);
    let c3 = LRefCell::new(lock, 3u32);
    let db = db;

    let total = c1.use_ref(&db, s, |a| {
        let inner = c2.use_mut(&db, s, |b| {
            *b += 10;
            let deepest = c3.use_ref(&db, s, |c| *a + *b + *c);
            assert_eq!(s.local_lock_mode(&db, lock), Some(BorrowMutability::Mutable));
            deepest
        });
        assert_eq!(s.local_lock_mode(&db, lock), Some(BorrowMutability::Mutable));
        inner
    });

    assert_eq!(total, 16);
    assert_eq!(s.local_lock_mode(&db, lock), Some(BorrowMutability::Mutable));
    assert_eq!(lock.global_borrow_state(&db), Some(BorrowState::Mutable));
    // Every cell still answers to the lock: its record was restored.
    assert_eq!(c1.try_get_ref(&db, s).copied(), Ok(1));
    assert_eq!(c2.try_get_ref(&db, s).copied(), Ok(12));
    assert_eq!(c3.try_get_ref(&db, s).copied(), Ok(3));
}
