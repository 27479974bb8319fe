//! Lock-governed cells: a value that a session may read while it holds the
//! governing lock, and write while it holds that lock exclusively.

use crate::borrow::BorrowMutability;
use crate::lock::{Lock, LockDb, Session};
use vstd::prelude::*;

verus! {

/// A value governed by a lock.
///
/// Reads go through a shared reference to the cell; writes need a unique one
/// (`&mut LRefCell`), so the borrow checker already rules out a write that
/// overlaps another access of the same cell, and a cell reached only through a
/// shared reference (such as an entity's component) can be read but not
/// written.
///
/// The cell records the governing lock identity; while a mutable guard taken
/// with [`LRefCell::borrow_mut`] is out, it records the sentinel `0` instead,
/// which no session holds, so no second access is granted until the guard is
/// handed back.
#[derive(Debug)]
pub struct LRefCell<T> {
    lock: u8,
    value: T,
}

/// A cell was accessed by a session that does not hold its governing lock in
/// the mode the access needs. `lock` is the identity the cell recorded (`0`
/// while it was mutably borrowed).
#[derive(Debug, Clone, Copy, PartialEq, Eq)]
pub struct InvalidCellAccess {
    pub lock: u8,
    pub mode: BorrowMutability,
}

/// The guard of a mutable borrow: it remembers the cell's record from before
/// the borrow, which [`LRefCell::release_mut`] puts back.
#[derive(Debug)]
pub struct LRefMut {
    old_state: u8,
}

impl LRefMut {
    pub closed spec fn saved(&self) -> nat {
        self.old_state as nat
    }
}

impl<T> LRefCell<T> {
    /// The lock identity the cell currently records (`0` while mutably borrowed).
    pub closed spec fn state(&self) -> nat {
        self.lock as nat
    }

    pub closed spec fn value(&self) -> T {
        self.value
    }

    /// `during` and `guard` are what a mutable borrow of `before` leaves.
    pub open spec fn borrowed_mut(before: Self, during: Self, guard: LRefMut) -> bool {
        &&& during.state() == 0
        &&& during.value() == before.value()
        &&& guard.saved() == before.state()
    }

    /// `after` is `during` with the record that `guard` saved put back.
    pub open spec fn restored(during: Self, guard: LRefMut, after: Self) -> bool {
        &&& after.state() == guard.saved()
        &&& after.value() == during.value()
    }

    pub fn new(lock: Lock, value: T) -> (r: LRefCell<T>)
        ensures
            r.state() == lock@,
            r.value() == value,
    {
        LRefCell { lock: lock.index() as u8, value }
    }

    /// Direct access: a unique reference to the cell needs no lock.
    pub fn get_mut(&mut self) -> (r: &mut T)
        ensures
            *r == old(self).value(),
            final(self).value() == *final(r),
            final(self).state() == old(self).state(),
    {
        &mut self.value
    }

    pub fn into_inner(self) -> (r: T)
        ensures
            r == self.value(),
    {
        self.value
    }

    /// Runs `f` on the value; the session must hold the governing lock.
    pub fn use_ref<F, R>(&self, db: &LockDb, s: Session, f: F) -> (r: R) where F: FnOnce(&T) -> R
        requires
            db.wf(),
            db@.has_session(s@),
            db@.can_read(s@, self.state() as int),
            f.requires((&self.value(),)),
        ensures
            f.ensures((&self.value(),), r),
    {
        f(&self.value)
    }

    /// Takes a mutable guard; the session must hold the governing lock
    /// exclusively. Until the guard is handed back the cell grants no access.
    pub fn borrow_mut(&mut self, db: &LockDb, s: Session) -> (g: LRefMut)
        requires
            db.wf(),
            db@.has_session(s@),
            db@.can_write(s@, old(self).state() as int),
        ensures
            Self::borrowed_mut(*old(self), *final(self), g),
    {
        let old_state = self.lock;
        self.lock = 0;
        LRefMut { old_state }
    }

    /// Like [`LRefCell::use_ref`], but an access the session may not make is
    /// reported instead of ruled out by the caller.
    pub fn try_use_ref<F, R>(&self, db: &LockDb, s: Session, f: F) -> (r: Result<R, InvalidCellAccess>) where
        F: FnOnce(&T) -> R,

        requires
            db.wf(),
            db@.has_session(s@),
            f.requires((&self.value(),)),
        ensures
            r is Ok <==> db@.can_read(s@, self.state() as int),
            r matches Ok(v) ==> f.ensures((&self.value(),), v),
            r matches Err(e) ==> e.lock == self.state() && e.mode == BorrowMutability::Immutable,
    {
        if db.mode_at(s, self.lock).is_some() {
            Ok(f(&self.value))
        } else {
            Err(InvalidCellAccess { lock: self.lock, mode: BorrowMutability::Immutable })
        }
    }

    /// A reference to the value, if the session holds the governing lock. The
    /// reference borrows the cell, so no write can happen while it lives.
    pub fn try_get_ref(&self, db: &LockDb, s: Session) -> (r: Result<&T, InvalidCellAccess>)
        requires
            db.wf(),
            db@.has_session(s@),
        ensures
            r is Ok <==> db@.can_read(s@, self.state() as int),
            r matches Ok(v) ==> *v == self.value(),
            r matches Err(e) ==> e.lock == self.state() && e.mode == BorrowMutability::Immutable,
    {
        if db.mode_at(s, self.lock).is_some() {
            Ok(&self.value)
        } else {
            Err(InvalidCellAccess { lock: self.lock, mode: BorrowMutability::Immutable })
        }
    }

    /// Like [`LRefCell::borrow_mut`], but an access the session may not make is
    /// reported, leaving the cell as it was.
    pub fn try_borrow_mut(&mut self, db: &LockDb, s: Session) -> (r: Result<LRefMut, InvalidCellAccess>)
        requires
            db.wf(),
            db@.has_session(s@),
        ensures
            r is Ok <==> db@.can_write(s@, old(self).state() as int),
            r matches Ok(g) ==> Self::borrowed_mut(*old(self), *final(self), g),
            r is Err ==> *final(self) == *old(self),
            r matches Err(e) ==> e.lock == old(self).state() && e.mode == BorrowMutability::Mutable,
    {
        if db.mode_at(s, self.lock) == Some(BorrowMutability::Mutable) {
            Ok(self.borrow_mut(db, s))
        } else {
            Err(InvalidCellAccess { lock: self.lock, mode: BorrowMutability::Mutable })
        }
    }

    /// Hands a mutable guard back, restoring the record it saved.
    pub fn release_mut(&mut self, guard: LRefMut)
        ensures
            Self::restored(*old(self), guard, *final(self)),
    {
        self.lock = guard.old_state;
    }

    /// Runs `f` on the value through a mutable guard; the session must hold the
    /// governing lock exclusively.
    pub fn use_mut<F, R>(&mut self, db: &LockDb, s: Session, f: F) -> (r: R) where
        F: FnOnce(&mut T) -> R,

        requires
            db.wf(),
            db@.has_session(s@),
            db@.can_write(s@, old(self).state() as int),
            forall|x: &mut T| #[trigger] f.requires((x,)),
        ensures
            final(self).state() == old(self).state(),
            exists|x: &mut T| *x == old(self).value() && *final(x) == final(self).value() && f.ensures((x,), r),
    {
        let guard = self.borrow_mut(db, s);
        let r = f(&mut self.value);
        self.release_mut(guard);
        r
    }

    /// Replaces the value by what `f` computes from it, returning the old value;
    /// the session must hold the governing lock exclusively.
    pub fn replace_with<F>(&mut self, db: &LockDb, s: Session, f: F) -> (r: T) where
        F: FnOnce(&mut T) -> T,

        requires
            db.wf(),
            db@.has_session(s@),
            db@.can_write(s@, old(self).state() as int),
            forall|x: &mut T| #[trigger] f.requires((x,)),
        ensures
            final(self).state() == old(self).state(),
            exists|x: &mut T|
                *x == old(self).value() && r == *final(x) && f.ensures((x,), final(self).value()),
    {
        let guard = self.borrow_mut(db, s);
        let mut value = f(&mut self.value);
        core::mem::swap(&mut self.value, &mut value);
        self.release_mut(guard);
        value
    }

    /// Replaces the value, returning the old one; the session must hold the
    /// governing lock exclusively.
    pub fn replace(&mut self, db: &LockDb, s: Session, mut value: T) -> (r: T)
        requires
            db.wf(),
            db@.has_session(s@),
            db@.can_write(s@, old(self).state() as int),
        ensures
            r == old(self).value(),
            final(self).value() == value,
            final(self).state() == old(self).state(),
    {
        let guard = self.borrow_mut(db, s);
        core::mem::swap(&mut self.value, &mut value);
        self.release_mut(guard);
        value
    }
}

} // verus!
