//! Dirty-notification queues: a node is queued at most once per generation,
//! and clearing the queue starts the next generation.

use crate::cell::LRefCell;
use crate::entity::TypedKey;
use crate::lock::{Lock, LockDb, Session};
use vstd::prelude::*;

verus! {

/// The per-node record of the last generation in which the node was queued;
/// a fresh flag reads `0`.
#[derive(Debug)]
pub struct DirtyFlag {
    gen: LRefCell<u64>,
}

impl DirtyFlag {
    pub closed spec fn last_marked(&self) -> u64 {
        self.gen.value()
    }

    /// The lock identity governing the flag (`0` while mutably borrowed).
    pub closed spec fn lock_state(&self) -> nat {
        self.gen.state()
    }

    pub fn new(lock: Lock) -> (r: DirtyFlag)
        ensures
            r.last_marked() == 0,
            r.lock_state() == lock@,
    {
        DirtyFlag { gen: LRefCell::new(lock, 0) }
    }
}

/// The nodes marked dirty in the current generation, each once.
pub struct DirtyQueue {
    key: TypedKey<DirtyFlag>,
    gen: u64,
    targets: Vec<usize>,
}

impl DirtyQueue {
    pub closed spec fn generation(&self) -> u64 {
        self.gen
    }

    pub closed spec fn queued(&self) -> Seq<usize> {
        self.targets@
    }

    pub closed spec fn flag_key(&self) -> TypedKey<DirtyFlag> {
        self.key
    }

    /// An empty queue in generation `0`; `key` names the flag component of the
    /// nodes it tracks. A fresh flag also reads `0`, so nothing is queued
    /// before the first [`DirtyQueue::clear_targets`].
    pub fn new(key: TypedKey<DirtyFlag>) -> (r: DirtyQueue)
        ensures
            r.generation() == 0,
            r.queued().len() == 0,
            r.flag_key() == key,
    {
        DirtyQueue { key, gen: 0, targets: Vec::new() }
    }

    pub fn key(&self) -> (r: TypedKey<DirtyFlag>)
        ensures
            r == self.flag_key(),
    {
        self.key
    }

    /// `after` and `flag_after` are what marking `target`, whose flag is
    /// `flag_before`, leaves of queue `before`: the target is queued and its flag
    /// set to the generation unless the flag shows it was queued in this
    /// generation already.
    pub open spec fn marked(
        before: DirtyQueue,
        after: DirtyQueue,
        flag_before: DirtyFlag,
        flag_after: DirtyFlag,
        target: usize,
    ) -> bool {
        &&& after.generation() == before.generation()
        &&& after.flag_key() == before.flag_key()
        &&& flag_after.lock_state() == flag_before.lock_state()
        &&& if flag_before.last_marked() < before.generation() {
            &&& after.queued() == before.queued().push(target)
            &&& flag_after.last_marked() == before.generation()
        } else {
            &&& after.queued() == before.queued()
            &&& flag_after.last_marked() == flag_before.last_marked()
        }
    }

    /// Queues `target`, whose flag is `flag`, unless it was already queued in
    /// this generation; the session must hold the flag's lock exclusively.
    pub fn mark(&mut self, db: &LockDb, s: Session, flag: &mut DirtyFlag, target: usize)
        requires
            db.wf(),
            db@.has_session(s@),
            db@.can_write(s@, old(flag).lock_state() as int),
        ensures
            Self::marked(*old(self), *final(self), *old(flag), *final(flag), target),
    {
        let guard = flag.gen.borrow_mut(db, s);
        let gen = flag.gen.get_mut();
        if *gen < self.gen {
            *gen = self.gen;
            self.targets.push(target);
        }
        flag.gen.release_mut(guard);
    }

    /// The nodes queued in this generation, in marking order.
    pub fn target(&self) -> (r: &[usize])
        ensures
            r@ == self.queued(),
    {
        self.targets.as_slice()
    }

    /// Empties the queue and starts the next generation.
    pub fn clear_targets(&mut self)
        requires
            old(self).generation() < u64::MAX,
        ensures
            final(self).queued().len() == 0,
            final(self).generation() == old(self).generation() + 1,
            final(self).flag_key() == old(self).flag_key(),
    {
        self.targets.clear();
        self.gen = self.gen + 1;
    }
}

} // verus!
