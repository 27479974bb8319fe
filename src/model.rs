//! The mathematical model of the lock registry and its sessions.
//!
//! A registry is viewed as the reservation bits, the lock labels, the global
//! borrow counter of every lock, and the table of every session. Its central
//! invariant, [`RegistryView::consistent`], says that each global counter is
//! exactly what the session tables imply: `-1` when one session holds the lock
//! exclusively, otherwise the number of sessions sharing it.

use crate::borrow::{BorrowError, BorrowMutability, BorrowState};
use crate::lock::Lock;
use vstd::prelude::*;

verus! {

/// The number of lock identities, the sentinel identity `0` included.
pub const LOCK_SLOTS: usize = 256;

/// The model of one session: its label, how many guards share it, and the mode
/// in which it holds each lock identity.
pub struct SessionView {
    pub label: Seq<char>,
    pub refs: nat,
    pub modes: Seq<Option<BorrowMutability>>,
}

/// The model of the whole registry.
pub struct RegistryView {
    pub reserved: Seq<bool>,
    pub labels: Seq<Seq<char>>,
    pub borrows: Seq<int>,
    pub sessions: Seq<SessionView>,
}

pub open spec fn holds(s: SessionView, i: int, m: BorrowMutability) -> bool {
    s.modes[i] == Some(m)
}

/// How many of `sessions` hold lock `i` in mode `m`.
pub open spec fn holder_count(sessions: Seq<SessionView>, i: int, m: BorrowMutability) -> nat
    decreases sessions.len(),
{
    if sessions.len() == 0 {
        0
    } else {
        holder_count(sessions.drop_last(), i, m) + if holds(sessions.last(), i, m) {
            1nat
        } else {
            0nat
        }
    }
}

/// The global counter that the session tables imply for lock `i`.
pub open spec fn implied_counter(sessions: Seq<SessionView>, i: int) -> int {
    if holder_count(sessions, i, BorrowMutability::Mutable) > 0 {
        -1
    } else {
        holder_count(sessions, i, BorrowMutability::Immutable) as int
    }
}

/// Lock `i` is held exclusively by at most one session, never exclusively and
/// shared at once, and its global counter is the one the tables imply.
pub open spec fn lock_consistent(sessions: Seq<SessionView>, borrows: Seq<int>, i: int) -> bool {
    &&& holder_count(sessions, i, BorrowMutability::Mutable) <= 1
    &&& holder_count(sessions, i, BorrowMutability::Mutable) == 1 ==> holder_count(
        sessions,
        i,
        BorrowMutability::Immutable,
    ) == 0
    &&& borrows[i] == implied_counter(sessions, i)
}

/// The global counter of a lock after one session's mode for it changes from
/// `from` to `to`.
pub open spec fn counter_after(c: int, from: Option<BorrowMutability>, to: Option<BorrowMutability>) -> int {
    let released = match from {
        Some(BorrowMutability::Immutable) => c - 1,
        Some(BorrowMutability::Mutable) => 0,
        None => c,
    };
    match to {
        Some(BorrowMutability::Immutable) => released + 1,
        Some(BorrowMutability::Mutable) => -1,
        None => released,
    }
}

/// The state that a global counter stands for, `None` when unborrowed.
pub open spec fn counter_state(c: int) -> Option<BorrowState> {
    if c == -1 {
        Some(BorrowState::Mutable)
    } else if c == 0 {
        None
    } else {
        Some(BorrowState::Immutable(Some(c as usize)))
    }
}

/// The state that blocks a conflicting borrow of a lock with counter `c`.
pub open spec fn blocking_state(c: int) -> BorrowState {
    if c == -1 {
        BorrowState::Mutable
    } else {
        BorrowState::Immutable(Some(c as usize))
    }
}

/// Whether a lock whose counter is `c` can be newly borrowed in mode `m`.
pub open spec fn counter_admits(c: int, m: BorrowMutability) -> bool {
    match m {
        BorrowMutability::Immutable => c != -1,
        BorrowMutability::Mutable => c == 0,
    }
}

/// Whether `i` is the first identity left unreserved in `bits`.
pub open spec fn is_first_free(bits: Seq<bool>, i: int) -> bool {
    0 <= i < bits.len() && !bits[i] && forall|j: int| 0 <= j < i ==> bits[j]
}

pub open spec fn has_free(bits: Seq<bool>) -> bool {
    exists|j: int| 0 <= j < bits.len() && !bits[j]
}

/// The table of a session that holds nothing.
pub open spec fn empty_modes() -> Seq<Option<BorrowMutability>> {
    Seq::new(LOCK_SLOTS as nat, |i: int| None)
}

/// A session that was just created: no label, one guard, nothing held.
pub open spec fn fresh_session() -> SessionView {
    SessionView { label: Seq::empty(), refs: 1, modes: empty_modes() }
}

impl SessionView {
    pub open spec fn wf(self) -> bool {
        &&& self.modes.len() == LOCK_SLOTS
        &&& self.modes[0] is None
        &&& self.refs == 0 ==> self.modes == empty_modes()
    }

    pub open spec fn with_modes(self, modes: Seq<Option<BorrowMutability>>) -> SessionView {
        SessionView { modes, ..self }
    }
}

impl RegistryView {
    /// The registry invariant.
    pub open spec fn consistent(self) -> bool {
        &&& self.reserved.len() == LOCK_SLOTS
        &&& self.reserved[0]
        &&& self.labels.len() == LOCK_SLOTS
        &&& self.borrows.len() == LOCK_SLOTS
        &&& self.sessions.len() < isize::MAX
        &&& forall|k: int| 0 <= k < self.sessions.len() ==> (#[trigger] self.sessions[k]).wf()
        &&& forall|i: int| 0 <= i < LOCK_SLOTS ==> #[trigger] lock_consistent(self.sessions, self.borrows, i)
    }

    pub open spec fn has_session(self, sid: int) -> bool {
        0 <= sid < self.sessions.len()
    }

    pub open spec fn is_live(self, sid: int) -> bool {
        self.has_session(sid) && self.sessions[sid].refs > 0
    }

    pub open spec fn mode_of(self, sid: int, i: int) -> Option<BorrowMutability> {
        self.sessions[sid].modes[i]
    }

    pub open spec fn global_state(self, i: int) -> Option<BorrowState> {
        counter_state(self.borrows[i])
    }

    /// Whether session `sid` may read data governed by lock `i`.
    pub open spec fn can_read(self, sid: int, i: int) -> bool {
        self.mode_of(sid, i) is Some
    }

    /// Whether session `sid` may write data governed by lock `i`.
    pub open spec fn can_write(self, sid: int, i: int) -> bool {
        self.mode_of(sid, i) == Some(BorrowMutability::Mutable)
    }

    /// The registry after identity `i` is reserved under `label`.
    pub open spec fn allocated(self, i: int, label: Seq<char>) -> RegistryView {
        RegistryView {
            reserved: self.reserved.update(i, true),
            labels: self.labels.update(i, label),
            ..self
        }
    }

    /// The registry after identity `i` is freed.
    pub open spec fn unreserved(self, i: int) -> RegistryView {
        RegistryView { reserved: self.reserved.update(i, false), ..self }
    }

    /// Whether the session that a thread's slot names can take one more guard.
    pub open spec fn reusable(self, local: Option<int>) -> bool {
        &&& local is Some
        &&& self.is_live(local->0)
        &&& self.sessions[local->0].refs < usize::MAX
    }

    /// The registry after a new session with an empty table and one guard joins.
    pub open spec fn with_new_session(self) -> RegistryView {
        RegistryView { sessions: self.sessions.push(fresh_session()), ..self }
    }

    /// The registry with the guard count of session `sid` set to `refs`.
    pub open spec fn with_session_refs(self, sid: int, refs: nat) -> RegistryView {
        RegistryView {
            sessions: self.sessions.update(sid, SessionView { refs, ..self.sessions[sid] }),
            ..self
        }
    }

    /// The registry with the label of session `sid` replaced.
    pub open spec fn with_session_label(self, sid: int, label: Seq<char>) -> RegistryView {
        RegistryView {
            sessions: self.sessions.update(sid, SessionView { label, ..self.sessions[sid] }),
            ..self
        }
    }

    /// The registry with the table of session `sid` replaced.
    pub open spec fn with_session_modes(
        self,
        sid: int,
        modes: Seq<Option<BorrowMutability>>,
    ) -> RegistryView {
        let sessions = self.sessions.update(sid, self.sessions[sid].with_modes(modes));
        RegistryView {
            sessions,
            borrows: Seq::new(LOCK_SLOTS as nat, |i: int| implied_counter(sessions, i)),
            ..self
        }
    }
}

/// The violations that a batch of requests meets in registry `v` for session
/// `sid`, in request order: every request that the session does not already hold
/// in that mode and that the lock's global state does not admit.
pub open spec fn batch_violations(
    v: RegistryView,
    sid: int,
    batch: Seq<(Lock, BorrowMutability)>,
) -> Seq<(Lock, BorrowError)>
    decreases batch.len(),
{
    if batch.len() == 0 {
        Seq::empty()
    } else {
        let prev = batch_violations(v, sid, batch.drop_last());
        let lock = batch.last().0;
        let m = batch.last().1;
        let i = lock@ as int;
        if v.mode_of(sid, i) == Some(m) || counter_admits(v.borrows[i], m) {
            prev
        } else {
            prev.push((lock, BorrowError { offending: blocking_state(v.borrows[i]) }))
        }
    }
}

/// A session table after every request of a batch is granted, in order.
pub open spec fn applied_modes(
    modes: Seq<Option<BorrowMutability>>,
    batch: Seq<(Lock, BorrowMutability)>,
) -> Seq<Option<BorrowMutability>>
    decreases batch.len(),
{
    if batch.len() == 0 {
        modes
    } else {
        applied_modes(modes, batch.drop_last()).update(batch.last().0@ as int, Some(batch.last().1))
    }
}

/// Changing only the reservation bits and the labels keeps a registry consistent.
pub proof fn lemma_consistent_frame(before: RegistryView, after: RegistryView)
    requires
        before.consistent(),
        after.sessions == before.sessions,
        after.borrows == before.borrows,
        after.reserved.len() == LOCK_SLOTS,
        after.reserved[0],
        after.labels.len() == LOCK_SLOTS,
    ensures
        after.consistent(),
{
    assert forall|i: int| 0 <= i < LOCK_SLOTS implies #[trigger] lock_consistent(
        after.sessions,
        after.borrows,
        i,
    ) by {
        assert(lock_consistent(before.sessions, before.borrows, i));
    }
}

/// Changing anything of one session but its table keeps a registry consistent.
pub proof fn lemma_consistent_same_tables(before: RegistryView, after: RegistryView, sid: int)
    requires
        before.consistent(),
        0 <= sid < before.sessions.len(),
        after.sessions.len() == before.sessions.len(),
        forall|k: int| 0 <= k < before.sessions.len() && k != sid ==> after.sessions[k] == before.sessions[k],
        after.sessions[sid].modes == before.sessions[sid].modes,
        after.sessions[sid].refs == 0 ==> after.sessions[sid].modes == empty_modes(),
        after.borrows == before.borrows,
        after.reserved == before.reserved,
        after.labels.len() == LOCK_SLOTS,
    ensures
        after.consistent(),
{
    assert(after.sessions =~= before.sessions.update(sid, after.sessions[sid]));
    assert forall|i: int| 0 <= i < LOCK_SLOTS implies #[trigger] lock_consistent(
        after.sessions,
        after.borrows,
        i,
    ) by {
        assert(lock_consistent(before.sessions, before.borrows, i));
        lemma_count_update(before.sessions, sid, after.sessions[sid], i, BorrowMutability::Mutable);
        lemma_count_update(before.sessions, sid, after.sessions[sid], i, BorrowMutability::Immutable);
    }
    assert forall|k: int| 0 <= k < after.sessions.len() implies (#[trigger] after.sessions[k]).wf() by {
        if k != sid {
            assert(before.sessions[k].wf());
        } else {
            assert(before.sessions[sid].wf());
        }
    }
}

/// In a consistent registry, a request that the session already holds or that
/// the global counter admits conflicts with no other session.
pub proof fn lemma_request_compatible(v: RegistryView, sid: int, i: int, m: BorrowMutability)
    requires
        v.consistent(),
        v.has_session(sid),
        0 <= i < LOCK_SLOTS,
        v.mode_of(sid, i) == Some(m) || counter_admits(v.borrows[i], m),
    ensures
        m == BorrowMutability::Mutable ==> forall|k: int|
            0 <= k < v.sessions.len() && k != sid ==> (#[trigger] v.sessions[k]).modes[i] is None,
        m == BorrowMutability::Immutable ==> forall|k: int|
            0 <= k < v.sessions.len() && k != sid ==> (#[trigger] v.sessions[k]).modes[i]
                != Some(BorrowMutability::Mutable),
{
    let s = v.sessions;
    assert(lock_consistent(s, v.borrows, i));
    let cleared = s[sid].with_modes(s[sid].modes.update(i, None));
    let t = s.update(sid, cleared);
    lemma_count_update(s, sid, cleared, i, BorrowMutability::Mutable);
    lemma_count_update(s, sid, cleared, i, BorrowMutability::Immutable);
    lemma_count_zero(t, i, BorrowMutability::Mutable);
    lemma_count_zero(t, i, BorrowMutability::Immutable);
    lemma_count_zero(s, i, BorrowMutability::Mutable);
    lemma_count_zero(s, i, BorrowMutability::Immutable);
    assert forall|k: int| 0 <= k < s.len() && k != sid implies #[trigger] t[k] == s[k] by {}
    if m == BorrowMutability::Mutable {
        assert(holder_count(s, i, BorrowMutability::Immutable) == 0);
        assert forall|k: int| 0 <= k < s.len() && k != sid implies (#[trigger] s[k]).modes[i] is None by {
            assert(t[k] == s[k]);
            assert(!holds(t[k], i, BorrowMutability::Mutable));
            assert(!holds(s[k], i, BorrowMutability::Immutable));
            if let Some(b) = s[k].modes[i] {
                assert(b == BorrowMutability::Mutable || b == BorrowMutability::Immutable);
            }
        }
    }
}

/// If no violation is found, every request of the batch passes its check.
pub proof fn lemma_no_violation_each(v: RegistryView, sid: int, batch: Seq<(Lock, BorrowMutability)>)
    requires
        batch_violations(v, sid, batch).len() == 0,
    ensures
        forall|k: int|
            0 <= k < batch.len() ==> v.mode_of(sid, (#[trigger] batch[k]).0@ as int) == Some(batch[k].1)
                || counter_admits(v.borrows[batch[k].0@ as int], batch[k].1),
    decreases batch.len(),
{
    if batch.len() > 0 {
        let prev = batch_violations(v, sid, batch.drop_last());
        let lock = batch.last().0;
        let m = batch.last().1;
        if !(v.mode_of(sid, lock@ as int) == Some(m) || counter_admits(v.borrows[lock@ as int], m)) {
            assert(batch_violations(v, sid, batch).len() == prev.len() + 1);
        }
        lemma_no_violation_each(v, sid, batch.drop_last());
        assert forall|k: int| 0 <= k < batch.len() implies v.mode_of(
            sid,
            (#[trigger] batch[k]).0@ as int,
        ) == Some(batch[k].1) || counter_admits(v.borrows[batch[k].0@ as int], batch[k].1) by {
            if k < batch.len() - 1 {
                assert(batch[k] == batch.drop_last()[k]);
            }
        }
    }
}

/// Replacing a session's table keeps the registry consistent when the new mode
/// of the one changed lock conflicts with no other session.
pub proof fn lemma_set_mode_consistent(v: RegistryView, sid: int, i: int, m: Option<BorrowMutability>)
    requires
        v.consistent(),
        v.has_session(sid),
        1 <= i < LOCK_SLOTS,
        v.sessions[sid].refs > 0 || m is None,
        m == Some(BorrowMutability::Mutable) ==> forall|k: int|
            0 <= k < v.sessions.len() && k != sid ==> (#[trigger] v.sessions[k]).modes[i] is None,
        m == Some(BorrowMutability::Immutable) ==> forall|k: int|
            0 <= k < v.sessions.len() && k != sid ==> (#[trigger] v.sessions[k]).modes[i]
                != Some(BorrowMutability::Mutable),
    ensures
        v.with_session_modes(sid, v.sessions[sid].modes.update(i, m)).consistent(),
        v.with_session_modes(sid, v.sessions[sid].modes.update(i, m)).borrows[i] == counter_after(
            v.borrows[i],
            v.sessions[sid].modes[i],
            m,
        ),
        v.sessions[sid].modes[i] == Some(BorrowMutability::Immutable) ==> v.borrows[i] > 0,
        v.sessions[sid].modes[i] == Some(BorrowMutability::Mutable) ==> v.borrows[i] == -1,
        m == Some(BorrowMutability::Immutable) ==> 0 <= counter_after(
            v.borrows[i],
            v.sessions[sid].modes[i],
            None,
        ) < isize::MAX,
        m == Some(BorrowMutability::Mutable) ==> counter_after(
            v.borrows[i],
            v.sessions[sid].modes[i],
            None,
        ) == 0,
        forall|j: int|
            0 <= j < LOCK_SLOTS && j != i ==> #[trigger] v.with_session_modes(
                sid,
                v.sessions[sid].modes.update(i, m),
            ).borrows[j] == v.borrows[j],
{
    let s = v.sessions;
    let x = s[sid].with_modes(s[sid].modes.update(i, m));
    let t = s.update(sid, x);
    let w = v.with_session_modes(sid, s[sid].modes.update(i, m));
    assert(w.sessions == t);
    assert(s[sid].wf());
    assert(lock_consistent(s, v.borrows, i));
    let cleared = s[sid].with_modes(s[sid].modes.update(i, None));
    let u = s.update(sid, cleared);
    lemma_count_update(s, sid, cleared, i, BorrowMutability::Mutable);
    lemma_count_update(s, sid, cleared, i, BorrowMutability::Immutable);
    lemma_count_update(u, sid, x, i, BorrowMutability::Mutable);
    lemma_count_update(u, sid, x, i, BorrowMutability::Immutable);
    assert(u.update(sid, x) =~= t);
    lemma_count_zero(u, i, BorrowMutability::Mutable);
    lemma_count_zero(u, i, BorrowMutability::Immutable);
    lemma_count_bound(u, i, BorrowMutability::Immutable);
    if m == Some(BorrowMutability::Mutable) {
        assert forall|k: int| 0 <= k < u.len() implies !holds(
            #[trigger] u[k],
            i,
            BorrowMutability::Immutable,
        ) by {}
        assert forall|k: int| 0 <= k < u.len() implies !holds(
            #[trigger] u[k],
            i,
            BorrowMutability::Mutable,
        ) by {}
    }
    if m == Some(BorrowMutability::Immutable) {
        assert forall|k: int| 0 <= k < u.len() implies !holds(
            #[trigger] u[k],
            i,
            BorrowMutability::Mutable,
        ) by {}
    }
    assert(lock_consistent(t, w.borrows, i));
    assert forall|j: int| 0 <= j < LOCK_SLOTS implies #[trigger] lock_consistent(t, w.borrows, j)
        && (j != i ==> w.borrows[j] == v.borrows[j]) by {
        if j != i {
            assert(lock_consistent(s, v.borrows, j));
            lemma_count_update(s, sid, x, j, BorrowMutability::Mutable);
            lemma_count_update(s, sid, x, j, BorrowMutability::Immutable);
        }
    }
    assert forall|j: int| 0 <= j < LOCK_SLOTS && j != i implies #[trigger] w.borrows[j]
        == v.borrows[j] by {
        assert(lock_consistent(t, w.borrows, j));
    }
    assert forall|k: int| 0 <= k < t.len() implies (#[trigger] t[k]).wf() by {
        assert(s[k].wf());
        if k == sid {
            if s[sid].refs == 0 {
                assert(x.modes =~= empty_modes());
            }
        }
    }
}

/// Replacing a table twice is replacing it with the last one.
pub proof fn lemma_with_session_modes_twice(
    v: RegistryView,
    sid: int,
    a: Seq<Option<BorrowMutability>>,
    b: Seq<Option<BorrowMutability>>,
)
    requires
        v.has_session(sid),
    ensures
        v.with_session_modes(sid, a).with_session_modes(sid, b) == v.with_session_modes(sid, b),
{
    let x = v.with_session_modes(sid, a).with_session_modes(sid, b);
    let y = v.with_session_modes(sid, b);
    assert(x.sessions =~= y.sessions);
    assert(x.borrows =~= y.borrows);
}

/// In a consistent registry, replacing a table with itself changes nothing.
pub proof fn lemma_with_session_modes_same(v: RegistryView, sid: int)
    requires
        v.consistent(),
        v.has_session(sid),
    ensures
        v.with_session_modes(sid, v.sessions[sid].modes) == v,
{
    let x = v.with_session_modes(sid, v.sessions[sid].modes);
    assert(x.sessions =~= v.sessions);
    assert forall|j: int| 0 <= j < LOCK_SLOTS implies x.borrows[j] == v.borrows[j] by {
        assert(lock_consistent(v.sessions, v.borrows, j));
    }
    assert(x.borrows =~= v.borrows);
}

pub proof fn lemma_count_push(sessions: Seq<SessionView>, x: SessionView, i: int, m: BorrowMutability)
    ensures
        holder_count(sessions.push(x), i, m) == holder_count(sessions, i, m) + if holds(x, i, m) {
            1nat
        } else {
            0nat
        },
{
    assert(sessions.push(x).drop_last() =~= sessions);
}

pub proof fn lemma_count_update(
    sessions: Seq<SessionView>,
    k: int,
    x: SessionView,
    i: int,
    m: BorrowMutability,
)
    requires
        0 <= k < sessions.len(),
    ensures
        holder_count(sessions.update(k, x), i, m) + (if holds(sessions[k], i, m) {
            1nat
        } else {
            0nat
        }) == holder_count(sessions, i, m) + (if holds(x, i, m) {
            1nat
        } else {
            0nat
        }),
    decreases sessions.len(),
{
    let u = sessions.update(k, x);
    if k == sessions.len() - 1 {
        assert(u.drop_last() =~= sessions.drop_last());
    } else {
        lemma_count_update(sessions.drop_last(), k, x, i, m);
        assert(u.drop_last() =~= sessions.drop_last().update(k, x));
    }
}

pub proof fn lemma_count_zero(sessions: Seq<SessionView>, i: int, m: BorrowMutability)
    ensures
        holder_count(sessions, i, m) == 0 <==> forall|k: int|
            0 <= k < sessions.len() ==> !holds(#[trigger] sessions[k], i, m),
    decreases sessions.len(),
{
    if sessions.len() > 0 {
        lemma_count_zero(sessions.drop_last(), i, m);
        if holder_count(sessions, i, m) == 0 {
            assert forall|k: int| 0 <= k < sessions.len() implies !holds(
                #[trigger] sessions[k],
                i,
                m,
            ) by {
                if k < sessions.len() - 1 {
                    assert(sessions[k] == sessions.drop_last()[k]);
                }
            }
        } else {
            if forall|k: int| 0 <= k < sessions.len() ==> !holds(#[trigger] sessions[k], i, m) {
                assert forall|k: int| 0 <= k < sessions.drop_last().len() implies !holds(
                    #[trigger] sessions.drop_last()[k],
                    i,
                    m,
                ) by {
                    assert(sessions.drop_last()[k] == sessions[k]);
                }
                assert(!holds(sessions[sessions.len() - 1], i, m));
            }
        }
    }
}

pub proof fn lemma_count_bound(sessions: Seq<SessionView>, i: int, m: BorrowMutability)
    ensures
        holder_count(sessions, i, m) <= sessions.len(),
    decreases sessions.len(),
{
    if sessions.len() > 0 {
        lemma_count_bound(sessions.drop_last(), i, m);
    }
}

} // verus!
