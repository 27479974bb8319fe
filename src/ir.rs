//! The document model's items: to-do lists whose changes notify the document's
//! dirty queues.

use crate::lock::{LockDb, Session};
use crate::signal::{DirtyFlag, DirtyQueue};
use vstd::prelude::*;

verus! {

/// The start of a thread in the document.
#[derive(Debug, Clone)]
pub struct ThreadStartNode {
    pub color: String,
    pub icon: &'static str,
}

/// Which of the document's queues a change goes to.
#[derive(Debug, Clone, Copy, Hash, PartialEq, Eq, Structural)]
pub enum IrNotifyCategory {
    UpdateItem,
    UpdateDocument,
}

/// The document's two dirty queues: changed items, and other changes.
pub struct IrNotifier {
    pub items: DirtyQueue,
    pub misc: DirtyQueue,
}

impl IrNotifier {
    pub fn new(items: DirtyQueue, misc: DirtyQueue) -> (r: IrNotifier)
        ensures
            r.items == items,
            r.misc == misc,
    {
        IrNotifier { items, misc }
    }

    /// Marks `element`, whose flag is `flag`, in the queue of `category`.
    pub fn notify(
        &mut self,
        db: &LockDb,
        s: Session,
        category: IrNotifyCategory,
        flag: &mut DirtyFlag,
        element: usize,
    )
        requires
            db.wf(),
            db@.has_session(s@),
            db@.can_write(s@, old(flag).lock_state() as int),
        ensures
            category == IrNotifyCategory::UpdateItem ==> DirtyQueue::marked(
                old(self).items,
                final(self).items,
                *old(flag),
                *final(flag),
                element,
            ) && final(self).misc == old(self).misc,
            category == IrNotifyCategory::UpdateDocument ==> DirtyQueue::marked(
                old(self).misc,
                final(self).misc,
                *old(flag),
                *final(flag),
                element,
            ) && final(self).items == old(self).items,
    {
        match category {
            IrNotifyCategory::UpdateItem => self.items.mark(db, s, flag, element),
            IrNotifyCategory::UpdateDocument => self.misc.mark(db, s, flag, element),
        }
    }
}

/// A to-do list: its items are nodes of the document.
pub struct IrTodoList {
    items: Vec<usize>,
}

impl IrTodoList {
    pub closed spec fn entries(&self) -> Seq<usize> {
        self.items@
    }

    pub fn new() -> (r: IrTodoList)
        ensures
            r.entries().len() == 0,
    {
        IrTodoList { items: Vec::new() }
    }

    pub fn items(&self) -> (r: &[usize])
        ensures
            r@ == self.entries(),
    {
        self.items.as_slice()
    }

    /// Appends `item` and notifies the document that the list `me`, whose flag
    /// is `me_flag`, changed.
    pub fn push_item(
        &mut self,
        db: &LockDb,
        s: Session,
        me: usize,
        me_flag: &mut DirtyFlag,
        notifier: &mut IrNotifier,
        item: usize,
    )
        requires
            db.wf(),
            db@.has_session(s@),
            db@.can_write(s@, old(me_flag).lock_state() as int),
        ensures
            final(self).entries() == old(self).entries().push(item),
            DirtyQueue::marked(old(notifier).misc, final(notifier).misc, *old(me_flag), *final(me_flag), me),
            final(notifier).items == old(notifier).items,
    {
        self.items.push(item);
        notifier.notify(db, s, IrNotifyCategory::UpdateDocument, me_flag, me);
    }

    /// Removes the item at `index` and notifies the document that the list
    /// `me`, whose flag is `me_flag`, changed.
    pub fn remove_item(
        &mut self,
        db: &LockDb,
        s: Session,
        me: usize,
        me_flag: &mut DirtyFlag,
        notifier: &mut IrNotifier,
        index: usize,
    )
        requires
            db.wf(),
            db@.has_session(s@),
            db@.can_write(s@, old(me_flag).lock_state() as int),
            index < old(self).entries().len(),
        ensures
            final(self).entries() == old(self).entries().remove(index as int),
            DirtyQueue::marked(old(notifier).misc, final(notifier).misc, *old(me_flag), *final(me_flag), me),
            final(notifier).items == old(notifier).items,
    {
        self.items.remove(index);
        notifier.notify(db, s, IrNotifyCategory::UpdateDocument, me_flag, me);
    }
}

/// A to-do item.
pub struct IrBaseTodoItem {
    is_checked: bool,
}

impl IrBaseTodoItem {
    pub closed spec fn checked(&self) -> bool {
        self.is_checked
    }

    pub fn new() -> (r: IrBaseTodoItem)
        ensures
            !r.checked(),
    {
        IrBaseTodoItem { is_checked: false }
    }

    pub fn is_checked(&self) -> (r: bool)
        ensures
            r == self.checked(),
    {
        self.is_checked
    }

    /// Checks or unchecks the item `me`, whose flag is `me_flag`, and notifies
    /// the document that it changed.
    pub fn set_checked(
        &mut self,
        db: &LockDb,
        s: Session,
        me: usize,
        me_flag: &mut DirtyFlag,
        notifier: &mut IrNotifier,
        checked: bool,
    )
        requires
            db.wf(),
            db@.has_session(s@),
            db@.can_write(s@, old(me_flag).lock_state() as int),
        ensures
            final(self).checked() == checked,
            DirtyQueue::marked(old(notifier).items, final(notifier).items, *old(me_flag), *final(me_flag), me),
            final(notifier).misc == old(notifier).misc,
    {
        self.is_checked = checked;
        notifier.notify(db, s, IrNotifyCategory::UpdateItem, me_flag, me);
    }
}

} // verus!
