use mid_util::borrow::BorrowMutability;
use mid_util::entity::TypedKey;
use mid_util::ir::{IrBaseTodoItem, IrNotifier, IrNotifyCategory, IrTodoList, ThreadStartNode};
use mid_util::lock::{Lock, LockDb, SessionGuard};
use mid_util::signal::{DirtyFlag, DirtyQueue};
use mid_util::tree::NodeTree;

#[test]
fn reparenting_swap_removes_and_reindexes() {
    let mut tree = NodeTree::new();
    let root = tree.add_node();
    let a = tree.add_node();
    let b = tree.add_node();
    let c = tree.add_node();
    let other = tree.add_node();

    tree.set_parent(a, Some(root));
    tree.set_parent(b, Some(root));
    tree.set_parent(c, Some(root));
    assert_eq!(tree.node(root).children(), &[a, b, c]);
    assert_eq!(tree.node(b).parent(), Some(root));

    tree.set_parent(a, Some(other));
    assert_eq!(tree.node(root).children(), &[c, b]);
    assert_eq!(tree.node(other).children(), &[a]);
    assert_eq!(tree.node(a).parent(), Some(other));

    tree.set_parent(b, None);
    assert_eq!(tree.node(root).children(), &[c]);
    assert_eq!(tree.node(b).parent(), None);

    tree.set_parent(c, Some(root));
    assert_eq!(tree.node(root).children(), &[c]);
}

#[test]
fn marks_once_per_generation() {
    let mut db = LockDb::new();
    let lock = Lock::new(&mut db, "flags");
    let g = SessionGuard::new_unique(&mut db);
    let s = g.handle();
    s.acquire_locks(&mut db, vec![(lock, BorrowMutability::Mutable)]);

    let mut queue = DirtyQueue::new(TypedKey::<DirtyFlag>::instance());
    assert_eq!(queue.key().raw(), TypedKey::<DirtyFlag>::instance().raw());
    let mut f1 = DirtyFlag::new(lock);
    let mut f2 = DirtyFlag::new(lock);

    // Fresh flags and a fresh queue share generation 0: nothing is queued yet.
    queue.mark(&db, s, &mut f1, 1);
    assert!(queue.target().is_empty());

    queue.clear_targets();
    queue.mark(&db, s, &mut f1, 1);
    queue.mark(&db, s, &mut f1, 1);
    queue.mark(&db, s, &mut f2, 2);
    assert_eq!(queue.target(), &[1, 2]);

    queue.clear_targets();
    assert!(queue.target().is_empty());
    queue.mark(&db, s, &mut f2, 2);
    queue.mark(&db, s, &mut f2, 2);
    assert_eq!(queue.target(), &[2]);
}

#[test]
fn todo_changes_notify_their_queue() {
    let mut db = LockDb::new();
    let lock = Lock::new(&mut db, "doc");
    let g = SessionGuard::new_unique(&mut db);
    let s = g.handle();
    s.acquire_locks(&mut db, vec![(lock, BorrowMutability::Mutable)]);

    let mut notifier = IrNotifier::new(
        DirtyQueue::new(TypedKey::<DirtyFlag>::instance()),
        DirtyQueue::new(TypedKey::<DirtyFlag>::instance()),
    );
    notifier.items.clear_targets();
    notifier.misc.clear_targets();
    let mut list = IrTodoList::new();
    let mut list_flag = DirtyFlag::new(lock);
    list.push_item(&db, s, 7, &mut list_flag, &mut notifier, 10);
    list.push_item(&db, s, 7, &mut list_flag, &mut notifier, 11);
    list.remove_item(&db, s, 7, &mut list_flag, &mut notifier, 0);
    assert_eq!(list.items(), &[11]);
    assert_eq!(notifier.misc.target(), &[7]);
    assert!(notifier.items.target().is_empty());

    let mut item = IrBaseTodoItem::new();
    let mut item_flag = DirtyFlag::new(lock);
    item.set_checked(&db, s, 11, &mut item_flag, &mut notifier, true);
    assert!(item.is_checked());
    assert_eq!(notifier.items.target(), &[11]);

    notifier.notify(&db, s, IrNotifyCategory::UpdateItem, &mut item_flag, 11);
    assert_eq!(notifier.items.target(), &[11]);

    let start = ThreadStartNode {
        color: "red".to_string(),
        icon: "flag",
    };
    assert_eq!(start.color, "red");
}
