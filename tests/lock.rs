use mid_util::borrow::{BorrowMutability, BorrowState};
use mid_util::lock::{LocalSession, Lock, LockDb, SessionGuard};

#[test]
fn lock_acquisition() {
    let mut db = LockDb::new();
    let mut local = LocalSession::new();

    let lock_1 = Lock::new(&mut db, "lock_1");
    let lock_2 = Lock::new(&mut db, "lock_2");

    let session = SessionGuard::new_tls(&mut db, &mut local);
    let s = session.handle();

    assert_eq!(lock_1.global_borrow_state(&db), None);
    assert_eq!(lock_2.global_borrow_state(&db), None);

    s.acquire_locks(&mut db, vec![(lock_1, BorrowMutability::Mutable)]);

    assert_eq!(lock_1.global_borrow_state(&db), Some(BorrowState::Mutable));
    assert_eq!(lock_2.global_borrow_state(&db), None);

    assert!(s
        .try_acquire_locks(
            &mut db,
            vec![
                (lock_1, BorrowMutability::Immutable),
                (lock_2, BorrowMutability::Immutable),
            ]
        )
        .is_err());

    assert_eq!(lock_1.global_borrow_state(&db), Some(BorrowState::Mutable));
    assert_eq!(lock_2.global_borrow_state(&db), None);

    s.acquire_locks(
        &mut db,
        vec![
            (lock_1, BorrowMutability::Mutable),
            (lock_2, BorrowMutability::Immutable),
        ],
    );

    assert_eq!(lock_1.global_borrow_state(&db), Some(BorrowState::Mutable));
    assert_eq!(
        lock_2.global_borrow_state(&db),
        Some(BorrowState::new_immutable_known(1))
    );

    s.acquire_locks(
        &mut db,
        vec![
            (lock_1, BorrowMutability::Mutable),
            (lock_2, BorrowMutability::Immutable),
        ],
    );

    assert_eq!(lock_1.global_borrow_state(&db), Some(BorrowState::Mutable));
    assert_eq!(
        lock_2.global_borrow_state(&db),
        Some(BorrowState::new_immutable_known(1))
    );

    let session_2 = SessionGuard::new_tls(&mut db, &mut local);
    let s2 = session_2.handle();

    assert!(s2.can_access_ref(&db, lock_1));
    assert!(s2.can_access_mut(&db, lock_1));

    assert!(s2.can_access_ref(&db, lock_2));
    assert!(!s2.can_access_mut(&db, lock_2));

    session.release(&mut db);

    assert_eq!(lock_1.global_borrow_state(&db), Some(BorrowState::Mutable));
    assert_eq!(
        lock_2.global_borrow_state(&db),
        Some(BorrowState::new_immutable_known(1))
    );

    let session_3 = SessionGuard::new_unique(&mut db);
    let s3 = session_3.handle();

    assert!(s3
        .try_acquire_locks(&mut db, vec![(lock_1, BorrowMutability::Mutable)])
        .is_err());

    assert!(s3
        .try_acquire_locks(&mut db, vec![(lock_1, BorrowMutability::Immutable)])
        .is_err());

    s3.acquire_locks(&mut db, vec![(lock_2, BorrowMutability::Immutable)]);

    assert_eq!(lock_1.global_borrow_state(&db), Some(BorrowState::Mutable));
    assert_eq!(
        lock_2.global_borrow_state(&db),
        Some(BorrowState::new_immutable_known(2))
    );

    session_2.release(&mut db);

    assert_eq!(lock_1.global_borrow_state(&db), None);
    assert_eq!(
        lock_2.global_borrow_state(&db),
        Some(BorrowState::new_immutable_known(1))
    );

    session_3.release(&mut db);

    assert_eq!(lock_1.global_borrow_state(&db), None);
    assert_eq!(lock_2.global_borrow_state(&db), None);
}
