//! Properties of the registry that hold across operations, proved over the
//! model that the operations' contracts are stated in.

use crate::borrow::{BorrowError, BorrowMutability};
use crate::cell::{LRefCell, LRefMut};
use crate::lock::Lock;
use crate::model::{
    applied_modes, batch_violations, blocking_state, counter_admits, empty_modes, has_free,
    holder_count, holds, is_first_free, lemma_count_update, lemma_count_zero,
    lemma_request_compatible, lock_consistent, RegistryView, LOCK_SLOTS,
};
use vstd::prelude::*;

verus! {

/// In a consistent registry, a session that holds lock `i` exclusively is its
/// only holder: no other session holds it, exclusively or shared.
pub proof fn lemma_exclusive_holder_is_alone(v: RegistryView, i: int)
    requires
        v.consistent(),
        0 <= i < LOCK_SLOTS,
    ensures
        forall|a: int, b: int|
            v.has_session(a) && v.has_session(b) && #[trigger] v.mode_of(a, i) == Some(
                BorrowMutability::Mutable,
            ) && (#[trigger] v.mode_of(b, i)) is Some ==> a == b,
{
    assert forall|a: int, b: int|
        v.has_session(a) && v.has_session(b) && #[trigger] v.mode_of(a, i) == Some(
            BorrowMutability::Mutable,
        ) && (#[trigger] v.mode_of(b, i)) is Some implies a == b by {
        lemma_request_compatible(v, a, i, BorrowMutability::Mutable);
        if a != b {
            assert(v.sessions[b].modes[i] is None);
        }
    }
}

/// Allocation from a fresh registry hands out the identities in increasing
/// order: after `k` allocations identities `1..=k` are reserved and the next one
/// is `k + 1`, up to the last usable identity, after which none is free.
pub proof fn lemma_fresh_allocation_order(k: int)
    requires
        0 <= k < LOCK_SLOTS,
    ensures
        k + 1 < LOCK_SLOTS ==> is_first_free(Seq::new(LOCK_SLOTS as nat, |j: int| j <= k), k + 1),
        k + 1 < LOCK_SLOTS ==> Seq::new(LOCK_SLOTS as nat, |j: int| j <= k).update(k + 1, true)
            == Seq::new(LOCK_SLOTS as nat, |j: int| j <= k + 1),
        k + 1 == LOCK_SLOTS ==> !has_free(Seq::new(LOCK_SLOTS as nat, |j: int| j <= k)),
{
    let bits = Seq::new(LOCK_SLOTS as nat, |j: int| j <= k);
    if k + 1 < LOCK_SLOTS {
        assert(bits.update(k + 1, true) =~= Seq::new(LOCK_SLOTS as nat, |j: int| j <= k + 1));
    }
}

/// When every identity is reserved, none is free; freeing identity `i` makes it
/// the one that the next allocation takes.
pub proof fn lemma_freed_identity_is_reused(bits: Seq<bool>, i: int)
    requires
        bits.len() == LOCK_SLOTS,
        forall|j: int| 0 <= j < LOCK_SLOTS ==> bits[j],
        1 <= i < LOCK_SLOTS,
    ensures
        !has_free(bits),
        is_first_free(bits.update(i, false), i),
{
}

/// Requesting a lock in the mode the session already holds it in meets no
/// conflict and changes nothing.
pub proof fn lemma_reacquire_changes_nothing(v: RegistryView, sid: int, lock: Lock, m: BorrowMutability)
    requires
        v.consistent(),
        v.has_session(sid),
        1 <= lock@ < LOCK_SLOTS,
        v.mode_of(sid, lock@ as int) == Some(m),
    ensures
        batch_violations(v, sid, seq![(lock, m)]).len() == 0,
        v.with_session_modes(sid, applied_modes(v.sessions[sid].modes, seq![(lock, m)])) == v,
{
    let batch = seq![(lock, m)];
    reveal_with_fuel(batch_violations, 2);
    reveal_with_fuel(applied_modes, 2);
    assert(batch.drop_last() =~= Seq::<(Lock, BorrowMutability)>::empty());
    assert(batch.last() == (lock, m));
    let modes = v.sessions[sid].modes;
    assert(v.sessions[sid].wf());
    assert(applied_modes(modes, batch) =~= modes);
    let w = v.with_session_modes(sid, modes);
    assert(w.sessions =~= v.sessions);
    assert forall|j: int| 0 <= j < LOCK_SLOTS implies w.borrows[j] == v.borrows[j] by {
        assert(lock_consistent(v.sessions, v.borrows, j));
    }
    assert(w.borrows =~= v.borrows);
}

/// A batch of one grantable request and one conflicting request reports exactly
/// the conflicting one, so the whole batch is refused and nothing changes.
pub proof fn lemma_batch_refused_whole(
    v: RegistryView,
    sid: int,
    ok: (Lock, BorrowMutability),
    bad: (Lock, BorrowMutability),
)
    requires
        v.mode_of(sid, ok.0@ as int) == Some(ok.1) || counter_admits(v.borrows[ok.0@ as int], ok.1),
        v.mode_of(sid, bad.0@ as int) != Some(bad.1),
        !counter_admits(v.borrows[bad.0@ as int], bad.1),
    ensures
        batch_violations(v, sid, seq![ok, bad]) == seq![
            (bad.0, BorrowError { offending: blocking_state(v.borrows[bad.0@ as int]) }),
        ],
        batch_violations(v, sid, seq![bad, ok]) == seq![
            (bad.0, BorrowError { offending: blocking_state(v.borrows[bad.0@ as int]) }),
        ],
{
    let e = (bad.0, BorrowError { offending: blocking_state(v.borrows[bad.0@ as int]) });
    reveal_with_fuel(batch_violations, 3);
    assert(seq![ok, bad].last() == bad);
    assert(seq![bad, ok].last() == ok);
    assert(seq![ok].last() == ok);
    assert(seq![bad].last() == bad);
    assert(seq![ok, bad].drop_last() =~= seq![ok]);
    assert(seq![ok].drop_last() =~= Seq::<(Lock, BorrowMutability)>::empty());
    assert(seq![bad, ok].drop_last() =~= seq![bad]);
    assert(seq![bad].drop_last() =~= Seq::<(Lock, BorrowMutability)>::empty());
    assert(Seq::<(Lock, BorrowError)>::empty().push(e) =~= seq![e]);
}

/// Once the last guard of a session that held lock `i` exclusively is released,
/// any other session can take the lock exclusively.
pub proof fn lemma_teardown_frees_exclusive(v: RegistryView, sid: int, other: int, lock: Lock)
    requires
        v.consistent(),
        v.has_session(sid),
        v.has_session(other),
        other != sid,
        1 <= lock@ < LOCK_SLOTS,
        v.mode_of(sid, lock@ as int) == Some(BorrowMutability::Mutable),
    ensures
        ({
            let w = v.with_session_modes(sid, empty_modes()).with_session_refs(sid, 0);
            &&& w.borrows[lock@ as int] == 0
            &&& batch_violations(w, other, seq![(lock, BorrowMutability::Mutable)]).len() == 0
        }),
{
    let i = lock@ as int;
    lemma_request_compatible(v, sid, i, BorrowMutability::Mutable);
    let u = v.with_session_modes(sid, empty_modes());
    let s = v.sessions;
    let x = s[sid].with_modes(empty_modes());
    assert(u.sessions == s.update(sid, x));
    lemma_count_zero(u.sessions, i, BorrowMutability::Mutable);
    lemma_count_zero(u.sessions, i, BorrowMutability::Immutable);
    assert forall|k: int| 0 <= k < u.sessions.len() implies !holds(
        #[trigger] u.sessions[k],
        i,
        BorrowMutability::Mutable,
    ) && !holds(u.sessions[k], i, BorrowMutability::Immutable) by {
        if k != sid {
            assert(u.sessions[k] == s[k]);
        }
    }
    assert(u.borrows[i] == 0);
    let w = u.with_session_refs(sid, 0);
    reveal_with_fuel(batch_violations, 2);
    assert(seq![(lock, BorrowMutability::Mutable)].last() == (lock, BorrowMutability::Mutable));
    assert(w.borrows[i] == 0);
    assert(seq![(lock, BorrowMutability::Mutable)].drop_last() =~= Seq::<
        (Lock, BorrowMutability),
    >::empty());
}

/// Two sessions can share a lock; its global counter is the number of sharing
/// sessions, and ending one of them lowers it by exactly one.
pub proof fn lemma_shared_count_drops_by_one(v: RegistryView, a: int, b: int, i: int)
    requires
        v.consistent(),
        v.has_session(a),
        v.has_session(b),
        a != b,
        1 <= i < LOCK_SLOTS,
        v.mode_of(a, i) == Some(BorrowMutability::Immutable),
        v.mode_of(b, i) == Some(BorrowMutability::Immutable),
    ensures
        v.borrows[i] == holder_count(v.sessions, i, BorrowMutability::Immutable),
        v.borrows[i] >= 2,
        v.with_session_modes(a, empty_modes()).borrows[i] == v.borrows[i] - 1,
{
    let s = v.sessions;
    assert(lock_consistent(s, v.borrows, i));
    lemma_count_zero(s, i, BorrowMutability::Immutable);
    lemma_request_compatible(v, a, i, BorrowMutability::Immutable);
    let x = s[a].with_modes(empty_modes());
    let t = s.update(a, x);
    lemma_count_update(s, a, x, i, BorrowMutability::Immutable);
    lemma_count_update(s, a, x, i, BorrowMutability::Mutable);
    assert(t[b] == s[b]);
    lemma_count_zero(t, i, BorrowMutability::Immutable);
    lemma_count_zero(s, i, BorrowMutability::Mutable);
    lemma_count_zero(t, i, BorrowMutability::Mutable);
    assert forall|k: int| 0 <= k < t.len() implies !holds(#[trigger] t[k], i, BorrowMutability::Mutable) by {
        if k != a {
            assert(t[k] == s[k]);
        }
    }
}

/// A mutable guard taken on a cell and handed back leaves the cell's record of
/// its governing lock exactly as it was, and its value as the guard left it.
pub proof fn lemma_guard_restores_record<T>(
    before: LRefCell<T>,
    during: LRefCell<T>,
    guard: LRefMut,
    after: LRefCell<T>,
)
    requires
        LRefCell::borrowed_mut(before, during, guard),
        LRefCell::restored(during, guard, after),
    ensures
        after.state() == before.state(),
        after.value() == before.value(),
{
}

/// While a mutable guard of a cell is out, no session may read or write it.
pub proof fn lemma_borrowed_cell_refuses_access<T>(
    v: RegistryView,
    sid: int,
    before: LRefCell<T>,
    during: LRefCell<T>,
    guard: LRefMut,
)
    requires
        v.consistent(),
        v.has_session(sid),
        LRefCell::borrowed_mut(before, during, guard),
    ensures
        !v.can_read(sid, during.state() as int),
        !v.can_write(sid, during.state() as int),
{
    assert(v.sessions[sid].wf());
}

} // verus!
