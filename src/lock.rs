//! Locks, the registry that tracks them, and the sessions that hold them.

use crate::borrow::{BorrowError, BorrowMutability, BorrowState, BorrowStateCell, LockCreationError};
use crate::model::{
    applied_modes, batch_violations, counter_admits, empty_modes, fresh_session, has_free,
    is_first_free, lemma_consistent_frame, lemma_consistent_same_tables, lemma_count_push,
    lemma_no_violation_each, lemma_request_compatible, lemma_set_mode_consistent,
    lemma_with_session_modes_same, lemma_with_session_modes_twice, lock_consistent, RegistryView,
    SessionView, LOCK_SLOTS,
};
use crate::reserve::{cleared_bits, first_cleared, reserved_bits, set_bit, ReservedBits};
use vstd::prelude::*;

verus! {

// === Lock === //

/// A lock identity in `1..=255`, allocated from a [`LockDb`].
#[derive(Debug, Clone, Copy, PartialEq, Eq, Structural)]
pub struct Lock {
    id: u8,
}

impl Lock {
    #[verifier::type_invariant]
    spec fn id_is_usable(self) -> bool {
        self.id != 0
    }
}

impl View for Lock {
    type V = nat;

    closed spec fn view(&self) -> nat {
        self.id as nat
    }
}

// === Registry === //

/// The local table of one session.
struct SessionGuardState {
    label: String,
    refs: usize,
    lock_states: Vec<Option<BorrowMutability>>,
}

impl View for SessionGuardState {
    type V = SessionView;

    closed spec fn view(&self) -> SessionView {
        SessionView { label: self.label@, refs: self.refs as nat, modes: self.lock_states@ }
    }
}

/// The registry: which lock identities are reserved, how each lock is borrowed,
/// and the table of every session.
pub struct LockDb {
    labels: Vec<String>,
    reserved: ReservedBits,
    borrows: Vec<BorrowStateCell>,
    sessions: Vec<SessionGuardState>,
}

impl View for LockDb {
    type V = RegistryView;

    closed spec fn view(&self) -> RegistryView {
        RegistryView {
            reserved: reserved_bits(self.reserved),
            labels: self.labels@.map_values(|l: String| l@),
            borrows: self.borrows@.map_values(|c: BorrowStateCell| c.0 as int),
            sessions: self.sessions@.map_values(|s: SessionGuardState| s@),
        }
    }
}

impl LockDb {
    pub open spec fn wf(&self) -> bool {
        self@.consistent()
    }

    /// A registry with no lock reserved but the sentinel, and no session.
    pub fn new() -> (r: LockDb)
        ensures
            r.wf(),
            r@.reserved == Seq::new(LOCK_SLOTS as nat, |i: int| i == 0),
            r@.labels == Seq::new(LOCK_SLOTS as nat, |i: int| Seq::<char>::empty()),
            r@.sessions.len() == 0,
    {
        let mut labels: Vec<String> = Vec::new();
        let mut borrows: Vec<BorrowStateCell> = Vec::new();
        let mut n: usize = 0;
        while n < LOCK_SLOTS
            invariant
                n <= LOCK_SLOTS,
                labels@.len() == n,
                borrows@.len() == n,
                forall|i: int| 0 <= i < n ==> (#[trigger] labels@[i])@ == Seq::<char>::empty(),
                forall|i: int| 0 <= i < n ==> (#[trigger] borrows@[i]).0 == 0,
            decreases LOCK_SLOTS - n,
        {
            labels.push(String::new());
            borrows.push(BorrowStateCell::new());
            n = n + 1;
        }
        let mut reserved = cleared_bits();
        set_bit(&mut reserved, 0, true);
        let r = LockDb { labels, reserved, borrows, sessions: Vec::new() };
        proof {
            let v = r@;
            assert(v.reserved =~= Seq::new(LOCK_SLOTS as nat, |i: int| i == 0));
            assert(v.labels =~= Seq::new(LOCK_SLOTS as nat, |i: int| Seq::<char>::empty()));
            assert forall|i: int| 0 <= i < LOCK_SLOTS implies #[trigger] lock_consistent(
                v.sessions,
                v.borrows,
                i,
            ) by {
                assert(v.sessions.len() == 0);
            }
        }
        r
    }
}

impl LockDb {
    /// Sets the mode in which session `sid` holds lock `i`, moving the lock's
    /// global counter along.
    fn set_local_mode(&mut self, sid: usize, i: usize, m: Option<BorrowMutability>)
        requires
            old(self).wf(),
            old(self)@.has_session(sid as int),
            1 <= i < LOCK_SLOTS,
            old(self)@.sessions[sid as int].refs > 0 || m is None,
            m == Some(BorrowMutability::Mutable) ==> forall|k: int|
                0 <= k < old(self)@.sessions.len() && k != sid ==> (#[trigger] old(
                    self,
                )@.sessions[k]).modes[i as int] is None,
            m == Some(BorrowMutability::Immutable) ==> forall|k: int|
                0 <= k < old(self)@.sessions.len() && k != sid ==> (#[trigger] old(
                    self,
                )@.sessions[k]).modes[i as int] != Some(BorrowMutability::Mutable),
        ensures
            final(self).wf(),
            final(self)@ == old(self)@.with_session_modes(
                sid as int,
                old(self)@.sessions[sid as int].modes.update(i as int, m),
            ),
    {
        let ghost v = self@;
        proof {
            lemma_set_mode_consistent(v, sid as int, i as int, m);
            assert(self.borrows@[i as int].0 == v.borrows[i as int]);
            assert(self.sessions@[sid as int]@ == v.sessions[sid as int]);
        }
        if let Some(held) = self.sessions[sid].lock_states[i] {
            self.borrows[i].release_as(held);
        }
        if let Some(wanted) = m {
            self.borrows[i].borrow_as(wanted);
        }
        self.sessions[sid].lock_states.set(i, m);
        proof {
            let w = v.with_session_modes(sid as int, v.sessions[sid as int].modes.update(i as int, m));
            let after = self@;
            assert(after.sessions =~= w.sessions);
            assert forall|j: int| 0 <= j < LOCK_SLOTS implies after.borrows[j] == w.borrows[j] by {
                if j != i {
                    assert(w.borrows[j] == v.borrows[j]);
                }
            }
            assert(after.borrows =~= w.borrows);
        }
    }
}

impl Lock {
    pub fn index(self) -> (r: usize)
        ensures
            r == self@,
            1 <= r < LOCK_SLOTS,
    {
        proof {
            use_type_invariant(&self);
        }
        self.id as usize
    }

    /// Reserves the first free lock identity, labelled `label`; fails once all
    /// usable identities are reserved.
    pub fn try_new(db: &mut LockDb, label: &str) -> (r: Result<Lock, LockCreationError>)
        requires
            old(db).wf(),
        ensures
            final(db).wf(),
            r is Ok <==> has_free(old(db)@.reserved),
            r matches Ok(l) ==> is_first_free(old(db)@.reserved, l@ as int),
            r matches Ok(l) ==> final(db)@ == old(db)@.allocated(l@ as int, label@),
            r is Err ==> final(db)@ == old(db)@,
    {
        let first = first_cleared(&db.reserved);
        match first {
            None => {
                assert(!has_free(db@.reserved));
                Err(LockCreationError)
            },
            Some(id) => {
                let ghost before = db@;
                set_bit(&mut db.reserved, id, true);
                db.labels.set(id, label.to_owned());
                proof {
                    let after = db@;
                    assert(after.labels =~= before.labels.update(id as int, label@));
                    assert(after.borrows =~= before.borrows);
                    assert(after.sessions =~= before.sessions);
                    lemma_consistent_frame(before, after);
                }
                Ok(Lock { id: id as u8 })
            },
        }
    }

    /// Like [`Lock::try_new`], for callers that know an identity is free.
    pub fn new(db: &mut LockDb, label: &str) -> (r: Lock)
        requires
            old(db).wf(),
            has_free(old(db)@.reserved),
        ensures
            final(db).wf(),
            is_first_free(old(db)@.reserved, r@ as int),
            final(db)@ == old(db)@.allocated(r@ as int, label@),
    {
        match Lock::try_new(db, label) {
            Ok(l) => l,
            Err(_) => unreached(),
        }
    }

    /// The label the lock was reserved under.
    pub fn label(self, db: &LockDb) -> (r: String)
        requires
            db.wf(),
        ensures
            r@ == db@.labels[self@ as int],
    {
        let i = self.index();
        db.labels[i].clone()
    }

    /// How the lock is currently borrowed across all sessions.
    pub fn global_borrow_state(self, db: &LockDb) -> (r: Option<BorrowState>)
        requires
            db.wf(),
        ensures
            r == db@.global_state(self@ as int),
    {
        let i = self.index();
        proof {
            assert(lock_consistent(db@.sessions, db@.borrows, i as int));
            assert(db@.borrows[i as int] == db.borrows@[i as int].0);
        }
        db.borrows[i].state()
    }

    /// Frees the identity for reuse; the lock must have no outstanding borrow.
    pub fn unreserve(self, db: &mut LockDb)
        requires
            old(db).wf(),
            old(db)@.borrows[self@ as int] == 0,
        ensures
            final(db).wf(),
            final(db)@ == old(db)@.unreserved(self@ as int),
    {
        let i = self.index();
        let ghost before = db@;
        set_bit(&mut db.reserved, i, false);
        proof {
            let after = db@;
            assert(after.labels =~= before.labels);
            assert(after.borrows =~= before.borrows);
            assert(after.sessions =~= before.sessions);
            lemma_consistent_frame(before, after);
        }
    }
}

// === Sessions === //

/// A batched acquisition was refused: every request that conflicts, in request
/// order, with the state that blocks it.
#[derive(Debug, Clone)]
pub struct LockAcquireError {
    pub violations: Vec<(Lock, BorrowError)>,
}

/// A counted reference to a session; the session ends, releasing every lock it
/// holds, when its last guard is released with [`SessionGuard::release`].
#[derive(Debug)]
pub struct SessionGuard {
    id: usize,
}

/// A handle through which a session acquires locks and accesses cells.
#[derive(Debug, Clone, Copy, PartialEq, Eq)]
pub struct Session {
    id: usize,
}

/// Where a thread keeps its default session, so that it can be shared while
/// some guard of it is alive.
#[derive(Debug, Clone, Copy, PartialEq, Eq)]
pub struct LocalSession {
    current: Option<usize>,
}

impl View for SessionGuard {
    type V = int;

    closed spec fn view(&self) -> int {
        self.id as int
    }
}

impl View for Session {
    type V = int;

    closed spec fn view(&self) -> int {
        self.id as int
    }
}

impl View for LocalSession {
    type V = Option<int>;

    closed spec fn view(&self) -> Option<int> {
        match self.current {
            Some(id) => Some(id as int),
            None => None,
        }
    }
}

impl LocalSession {
    /// A thread that has no default session yet.
    pub fn new() -> (r: LocalSession)
        ensures
            r@ is None,
    {
        LocalSession { current: None }
    }
}

impl LockDb {
    /// Whether another session can be added without the counters overflowing.
    pub open spec fn has_room(&self) -> bool {
        self@.sessions.len() + 1 < isize::MAX
    }

    /// The mode in which session `s` holds lock identity `i`, for any identity,
    /// the sentinel included.
    pub(crate) fn mode_at(&self, s: Session, i: u8) -> (r: Option<BorrowMutability>)
        requires
            self.wf(),
            self@.has_session(s@),
        ensures
            r == self@.mode_of(s@, i as int),
    {
        proof {
            assert(self.sessions@[s@]@ == self@.sessions[s@]);
            assert(self@.sessions[s@].wf());
        }
        self.sessions[s.id].lock_states[i as usize]
    }

    /// How many sessions the registry has created.
    pub fn session_count(&self) -> (r: usize)
        ensures
            r == self@.sessions.len(),
    {
        self.sessions.len()
    }

    fn add_session(&mut self) -> (id: usize)
        requires
            old(self).wf(),
            old(self).has_room(),
        ensures
            final(self).wf(),
            final(self)@ == old(self)@.with_new_session(),
            id == old(self)@.sessions.len(),
    {
        let mut lock_states: Vec<Option<BorrowMutability>> = Vec::new();
        let mut n: usize = 0;
        while n < LOCK_SLOTS
            invariant
                n <= LOCK_SLOTS,
                lock_states@ == Seq::new(n as nat, |i: int| None::<BorrowMutability>),
            decreases LOCK_SLOTS - n,
        {
            lock_states.push(None);
            n = n + 1;
            assert(lock_states@ =~= Seq::new(n as nat, |i: int| None::<BorrowMutability>));
        }
        let ghost v = self@;
        let id = self.sessions.len();
        self.sessions.push(SessionGuardState { label: String::new(), refs: 1, lock_states });
        proof {
            let after = self@;
            assert(after.sessions =~= v.sessions.push(fresh_session()));
            assert(after.borrows =~= v.borrows);
            assert(after.labels =~= v.labels);
            assert forall|i: int| 0 <= i < LOCK_SLOTS implies #[trigger] lock_consistent(
                after.sessions,
                after.borrows,
                i,
            ) by {
                assert(lock_consistent(v.sessions, v.borrows, i));
                lemma_count_push(v.sessions, fresh_session(), i, BorrowMutability::Mutable);
                lemma_count_push(v.sessions, fresh_session(), i, BorrowMutability::Immutable);
            }
            assert forall|k: int| 0 <= k < after.sessions.len() implies (
            #[trigger] after.sessions[k]).wf() by {
                if k < v.sessions.len() {
                    assert(v.sessions[k].wf());
                }
            }
        }
        id
    }
}

impl SessionGuard {
    /// The default session of the calling thread: the one `local` names while a
    /// guard of it is alive, otherwise a new one, which `local` then names.
    pub fn new_tls(db: &mut LockDb, local: &mut LocalSession) -> (r: SessionGuard)
        requires
            old(db).wf(),
            old(db).has_room(),
        ensures
            final(db).wf(),
            final(db)@.is_live(r@),
            final(local)@ == Some(r@),
            ({
                let v = old(db)@;
                if v.reusable(old(local)@) {
                    let id = old(local)@->0;
                    r@ == id && final(db)@ == v.with_session_refs(id, v.sessions[id].refs + 1)
                } else {
                    r@ == v.sessions.len() && final(db)@ == v.with_new_session()
                }
            }),
    {
        if let Some(id) = local.current {
            if id < db.sessions.len() && db.sessions[id].refs > 0 && db.sessions[id].refs
                < usize::MAX {
                let ghost v = db@;
                db.sessions[id].refs = db.sessions[id].refs + 1;
                proof {
                    let after = db@;
                    let w = v.with_session_refs(id as int, v.sessions[id as int].refs + 1);
                    assert(after.sessions =~= w.sessions);
                    assert(after.borrows =~= v.borrows);
                    assert(after.labels =~= v.labels);
                    lemma_consistent_same_tables(v, after, id as int);
                }
                return SessionGuard { id };
            }
        }
        let id = db.add_session();
        local.current = Some(id);
        SessionGuard { id }
    }

    /// A new session of its own, shared with no thread.
    pub fn new_unique(db: &mut LockDb) -> (r: SessionGuard)
        requires
            old(db).wf(),
            old(db).has_room(),
        ensures
            final(db).wf(),
            r@ == old(db)@.sessions.len(),
            final(db)@ == old(db)@.with_new_session(),
    {
        let id = db.add_session();
        SessionGuard { id }
    }

    pub fn handle(&self) -> (r: Session)
        ensures
            r@ == self@,
    {
        Session { id: self.id }
    }

    /// Gives the guard up. When it was the session's last guard, every lock the
    /// session holds is released and its table left empty.
    pub fn release(self, db: &mut LockDb)
        requires
            old(db).wf(),
            old(db)@.is_live(self@),
        ensures
            final(db).wf(),
            ({
                let v = old(db)@;
                let refs = v.sessions[self@].refs;
                if refs > 1 {
                    final(db)@ == v.with_session_refs(self@, (refs - 1) as nat)
                } else {
                    final(db)@ == v.with_session_modes(self@, empty_modes()).with_session_refs(
                        self@,
                        0,
                    )
                }
            }),
    {
        let id = self.id;
        let ghost v = db@;
        if db.sessions[id].refs > 1 {
            db.sessions[id].refs = db.sessions[id].refs - 1;
            proof {
                let after = db@;
                let w = v.with_session_refs(id as int, (v.sessions[id as int].refs - 1) as nat);
                assert(after.sessions =~= w.sessions);
                assert(after.borrows =~= v.borrows);
                assert(after.labels =~= v.labels);
                lemma_consistent_same_tables(v, after, id as int);
            }
        } else {
            let mut i: usize = 1;
            proof {
                lemma_with_session_modes_same(v, id as int);
                assert(v.sessions[id as int].wf());
                assert(Seq::new(
                    LOCK_SLOTS as nat,
                    |j: int|
                        if 1 <= j < 1 {
                            None
                        } else {
                            v.sessions[id as int].modes[j]
                        },
                ) =~= v.sessions[id as int].modes);
            }
            while i < LOCK_SLOTS
                invariant
                    1 <= i <= LOCK_SLOTS,
                    id < v.sessions.len(),
                    v.consistent(),
                    v.sessions[id as int].refs == 1,
                    db.wf(),
                    db@ == v.with_session_modes(
                        id as int,
                        Seq::new(
                            LOCK_SLOTS as nat,
                            |j: int|
                                if 1 <= j < i {
                                    None
                                } else {
                                    v.sessions[id as int].modes[j]
                                },
                        ),
                    ),
                decreases LOCK_SLOTS - i,
            {
                let ghost before = db@;
                let ghost cur = Seq::new(
                    LOCK_SLOTS as nat,
                    |j: int|
                        if 1 <= j < i {
                            None
                        } else {
                            v.sessions[id as int].modes[j]
                        },
                );
                let ghost next = Seq::new(
                    LOCK_SLOTS as nat,
                    |j: int|
                        if 1 <= j < i + 1 {
                            None
                        } else {
                            v.sessions[id as int].modes[j]
                        },
                );
                db.set_local_mode(id, i, None);
                proof {
                    assert(before.sessions[id as int].modes == cur);
                    assert(cur.update(i as int, None) =~= next);
                    lemma_with_session_modes_twice(v, id as int, cur, next);
                }
                i = i + 1;
            }
            proof {
                let full = Seq::new(
                    LOCK_SLOTS as nat,
                    |j: int|
                        if 1 <= j < LOCK_SLOTS {
                            None
                        } else {
                            v.sessions[id as int].modes[j]
                        },
                );
                assert(v.sessions[id as int].wf());
                assert(full =~= empty_modes());
            }
            let ghost cleared = db@;
            db.sessions[id].refs = 0;
            proof {
                let after = db@;
                let w = cleared.with_session_refs(id as int, 0);
                assert(after.sessions =~= w.sessions);
                assert(after.borrows =~= cleared.borrows);
                assert(after.labels =~= cleared.labels);
                lemma_consistent_same_tables(cleared, after, id as int);
            }
        }
    }
}

impl Session {
    pub fn debug_label(self, db: &LockDb) -> (r: String)
        requires
            db.wf(),
            db@.has_session(self@),
        ensures
            r@ == db@.sessions[self@].label,
    {
        db.sessions[self.id].label.clone()
    }

    pub fn set_debug_label(self, db: &mut LockDb, label: &str)
        requires
            old(db).wf(),
            old(db)@.has_session(self@),
        ensures
            final(db).wf(),
            final(db)@ == old(db)@.with_session_label(self@, label@),
    {
        let ghost v = db@;
        db.sessions[self.id].label = label.to_owned();
        proof {
            let after = db@;
            assert(after.sessions =~= v.with_session_label(self@, label@).sessions);
            assert(after.borrows =~= v.borrows);
            assert(after.labels =~= v.labels);
            assert(v.sessions[self@].wf());
            lemma_consistent_same_tables(v, after, self@);
        }
    }

    /// Acquires a batch of locks at once, or none of them.
    ///
    /// A request for a lock that the session already holds in the requested mode
    /// is granted as it stands. Every other request is checked against the
    /// lock's global state: a shared request conflicts with an exclusive holder,
    /// an exclusive request with any holder. If any request conflicts, nothing
    /// changes and the error lists every conflicting request; otherwise every
    /// request is granted in order.
    pub fn try_acquire_locks(self, db: &mut LockDb, locks: Vec<(Lock, BorrowMutability)>) -> (r:
        Result<(), LockAcquireError>)
        requires
            old(db).wf(),
            old(db)@.is_live(self@),
        ensures
            final(db).wf(),
            r is Ok <==> batch_violations(old(db)@, self@, locks@).len() == 0,
            r matches Err(e) ==> e.violations@ == batch_violations(old(db)@, self@, locks@),
            r is Err ==> final(db)@ == old(db)@,
            r is Ok ==> final(db)@ == old(db)@.with_session_modes(
                self@,
                applied_modes(old(db)@.sessions[self@].modes, locks@),
            ),
    {
        let sid = self.id;
        let ghost v = db@;
        let mut violations: Vec<(Lock, BorrowError)> = Vec::new();
        let mut k: usize = 0;
        while k < locks.len()
            invariant
                db@ == v,
                db.wf(),
                v.is_live(sid as int),
                sid == self@,
                k <= locks@.len(),
                violations@ == batch_violations(v, sid as int, locks@.take(k as int)),
            decreases locks@.len() - k,
        {
            let (lock, mode) = locks[k];
            let i = lock.index();
            proof {
                assert(locks@.take(k as int + 1).drop_last() =~= locks@.take(k as int));
                assert(lock_consistent(v.sessions, v.borrows, i as int));
                assert(db.borrows@[i as int].0 == v.borrows[i as int]);
                assert(db.sessions@[sid as int]@ == v.sessions[sid as int]);
            }
            if db.sessions[sid].lock_states[i] != Some(mode) {
                match db.borrows[i].can_borrow_as(mode) {
                    Ok(()) => {},
                    Err(e) => {
                        violations.push((lock, e));
                    },
                }
            }
            k = k + 1;
        }
        proof {
            assert(locks@.take(locks@.len() as int) =~= locks@);
        }
        if violations.len() > 0 {
            return Err(LockAcquireError { violations });
        }
        proof {
            lemma_no_violation_each(v, sid as int, locks@);
            lemma_with_session_modes_same(v, sid as int);
        }
        let mut k: usize = 0;
        while k < locks.len()
            invariant
                v.consistent(),
                v.is_live(sid as int),
                sid == self@,
                k <= locks@.len(),
                db.wf(),
                db@ == v.with_session_modes(
                    sid as int,
                    applied_modes(v.sessions[sid as int].modes, locks@.take(k as int)),
                ),
                forall|j: int|
                    0 <= j < locks@.len() ==> v.mode_of(sid as int, (#[trigger] locks@[j]).0@ as int)
                        == Some(locks@[j].1) || counter_admits(
                        v.borrows[locks@[j].0@ as int],
                        locks@[j].1,
                    ),
            decreases locks@.len() - k,
        {
            let (lock, mode) = locks[k];
            let i = lock.index();
            let ghost before = db@;
            let ghost cur = applied_modes(v.sessions[sid as int].modes, locks@.take(k as int));
            proof {
                assert(locks@.take(k as int + 1).drop_last() =~= locks@.take(k as int));
                assert(locks@.take(k as int + 1).last() == locks@[k as int]);
                assert(v.mode_of(sid as int, locks@[k as int].0@ as int) == Some(locks@[k as int].1)
                    || counter_admits(v.borrows[locks@[k as int].0@ as int], locks@[k as int].1));
                lemma_request_compatible(v, sid as int, i as int, mode);
                assert forall|j: int| 0 <= j < before.sessions.len() && j != sid implies #[trigger] before.sessions[j]
                    == v.sessions[j] by {}
                assert(db.sessions@[sid as int]@ == before.sessions[sid as int]);
            }
            if db.sessions[sid].lock_states[i] != Some(mode) {
                db.set_local_mode(sid, i, Some(mode));
                proof {
                    lemma_with_session_modes_twice(v, sid as int, cur, cur.update(i as int, Some(mode)));
                }
            } else {
                proof {
                    assert(cur.update(i as int, Some(mode)) =~= cur);
                }
            }
            k = k + 1;
        }
        proof {
            assert(locks@.take(locks@.len() as int) =~= locks@);
        }
        Ok(())
    }

    /// Like [`Session::try_acquire_locks`], for a batch known to be free of
    /// conflicts.
    pub fn acquire_locks(self, db: &mut LockDb, locks: Vec<(Lock, BorrowMutability)>)
        requires
            old(db).wf(),
            old(db)@.is_live(self@),
            batch_violations(old(db)@, self@, locks@).len() == 0,
        ensures
            final(db).wf(),
            final(db)@ == old(db)@.with_session_modes(
                self@,
                applied_modes(old(db)@.sessions[self@].modes, locks@),
            ),
    {
        let r = self.try_acquire_locks(db, locks);
        assert(r is Ok);
    }

    /// Whether the session holds `lock` at all, so may read what it governs.
    pub fn can_access_ref(self, db: &LockDb, lock: Lock) -> (r: bool)
        requires
            db.wf(),
            db@.has_session(self@),
        ensures
            r == db@.can_read(self@, lock@ as int),
    {
        let i = lock.index();
        proof {
            assert(db.sessions@[self@]@ == db@.sessions[self@]);
        }
        db.sessions[self.id].lock_states[i].is_some()
    }

    /// Whether the session holds `lock` exclusively, so may write what it governs.
    pub fn can_access_mut(self, db: &LockDb, lock: Lock) -> (r: bool)
        requires
            db.wf(),
            db@.has_session(self@),
        ensures
            r == db@.can_write(self@, lock@ as int),
    {
        let i = lock.index();
        proof {
            assert(db.sessions@[self@]@ == db@.sessions[self@]);
        }
        db.sessions[self.id].lock_states[i] == Some(BorrowMutability::Mutable)
    }

    /// The mode in which the session holds `lock`, if it does.
    pub fn local_lock_mode(self, db: &LockDb, lock: Lock) -> (r: Option<BorrowMutability>)
        requires
            db.wf(),
            db@.has_session(self@),
        ensures
            r == db@.mode_of(self@, lock@ as int),
    {
        let i = lock.index();
        proof {
            assert(db.sessions@[self@]@ == db@.sessions[self@]);
        }
        db.sessions[self.id].lock_states[i]
    }
}

} // verus!
