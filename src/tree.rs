//! A document tree kept as an arena: each node knows its parent by index and
//! its own position in the parent's child list, so detaching is a swap-remove
//! followed by one re-index.

use vstd::prelude::*;

verus! {

/// The tree links of one node.
#[derive(Debug, Clone)]
pub struct BaseNode {
    parent: Option<usize>,
    children: Vec<usize>,
    index_in_parent: usize,
}

impl BaseNode {
    pub closed spec fn parent_of(&self) -> Option<int> {
        match self.parent {
            Some(p) => Some(p as int),
            None => None,
        }
    }

    pub closed spec fn children_of(&self) -> Seq<int> {
        self.children@.map_values(|c: usize| c as int)
    }

    pub closed spec fn position(&self) -> int {
        self.index_in_parent as int
    }

    pub fn parent(&self) -> (r: Option<usize>)
        ensures
            r matches Some(p) ==> self.parent_of() == Some(p as int),
            r is None ==> self.parent_of() is None,
    {
        self.parent
    }

    pub fn children(&self) -> (r: &[usize])
        ensures
            r@.map_values(|c: usize| c as int) == self.children_of(),
    {
        self.children.as_slice()
    }
}

/// The nodes of one document, addressed by index.
#[derive(Debug)]
pub struct NodeTree {
    nodes: Vec<BaseNode>,
}

/// The child list of a parent after the child at `idx` is swap-removed.
pub open spec fn swap_removed(c: Seq<int>, idx: int) -> Seq<int> {
    c.update(idx, c.last()).drop_last()
}

impl NodeTree {
    pub closed spec fn len(&self) -> nat {
        self.nodes@.len()
    }

    pub closed spec fn parent_at(&self, n: int) -> Option<int> {
        self.nodes@[n].parent_of()
    }

    pub closed spec fn children_at(&self, n: int) -> Seq<int> {
        self.nodes@[n].children_of()
    }

    pub closed spec fn position_at(&self, n: int) -> int {
        self.nodes@[n].position()
    }

    /// Parent and child links agree: a node with a parent sits in the parent's
    /// child list at its recorded position, and every listed child names that
    /// parent and that position.
    pub open spec fn wf(&self) -> bool {
        &&& forall|n: int|
            0 <= n < self.len() && #[trigger] self.parent_at(n) is Some ==> {
                let p = self.parent_at(n)->0;
                &&& 0 <= p < self.len()
                &&& 0 <= self.position_at(n) < self.children_at(p).len()
                &&& self.children_at(p)[self.position_at(n)] == n
            }
        &&& forall|p: int, i: int|
            0 <= p < self.len() && 0 <= i < self.children_at(p).len() ==> {
                let c = #[trigger] self.children_at(p)[i];
                &&& 0 <= c < self.len()
                &&& self.parent_at(c) == Some(p)
                &&& self.position_at(c) == i
            }
    }

    pub fn new() -> (r: NodeTree)
        ensures
            r.wf(),
            r.len() == 0,
    {
        NodeTree { nodes: Vec::new() }
    }

    /// Adds a node with no parent and no child; its index is returned.
    pub fn add_node(&mut self) -> (r: usize)
        requires
            old(self).wf(),
        ensures
            final(self).wf(),
            r == old(self).len(),
            final(self).len() == old(self).len() + 1,
            final(self).parent_at(r as int) is None,
            final(self).children_at(r as int).len() == 0,
            forall|n: int|
                0 <= n < old(self).len() ==> final(self).parent_at(n) == old(self).parent_at(n)
                    && final(self).children_at(n) == old(self).children_at(n)
                    && final(self).position_at(n) == old(self).position_at(n),
    {
        let r = self.nodes.len();
        self.nodes.push(BaseNode { parent: None, children: Vec::new(), index_in_parent: 0 });
        proof {
            assert(self.children_at(r as int) =~= Seq::<int>::empty());
            assert forall|n: int| 0 <= n < old(self).len() implies self.nodes@[n] == old(self).nodes@[n] by {}
            assert forall|n: int|
                0 <= n < self.len() && #[trigger] self.parent_at(n) is Some implies {
                    let p = self.parent_at(n)->0;
                    &&& 0 <= p < self.len()
                    &&& 0 <= self.position_at(n) < self.children_at(p).len()
                    &&& self.children_at(p)[self.position_at(n)] == n
                } by {
                assert(old(self).parent_at(n) is Some);
            }
            assert forall|p: int, i: int|
                0 <= p < self.len() && 0 <= i < self.children_at(p).len() implies {
                    let c = #[trigger] self.children_at(p)[i];
                    &&& 0 <= c < self.len()
                    &&& self.parent_at(c) == Some(p)
                    &&& self.position_at(c) == i
                } by {
                assert(p < old(self).len());
                let c = old(self).children_at(p)[i];
                assert(0 <= c < old(self).len());
            }
        }
        r
    }

    /// Takes `me` out of its parent's child list; the node that was last in that
    /// list takes its place.
    fn detach(&mut self, me: usize)
        requires
            old(self).wf(),
            me < old(self).len(),
            old(self).parent_at(me as int) is Some,
        ensures
            final(self).wf(),
            final(self).len() == old(self).len(),
            final(self).parent_at(me as int) is None,
            final(self).children_at(old(self).parent_at(me as int)->0) == swap_removed(
                old(self).children_at(old(self).parent_at(me as int)->0),
                old(self).position_at(me as int),
            ),
            forall|n: int|
                0 <= n < old(self).len() && n != old(self).parent_at(me as int)->0
                    ==> #[trigger] final(self).children_at(n) == old(self).children_at(n),
            forall|n: int|
                0 <= n < old(self).len() && n != me
                    ==> #[trigger] final(self).parent_at(n) == old(self).parent_at(n),
    {
        let ghost old_tree = *self;
        let p = match self.nodes[me].parent {
            Some(p) => p,
            None => {
                return;
            },
        };
        let idx = self.nodes[me].index_in_parent;
        let ghost l = self.children_at(p as int);
        proof {
            assert(0 <= idx < l.len());
            assert(l[idx as int] == me);
        }
        self.nodes[p].children.swap_remove(idx);
        let ghost after_remove = *self;
        proof {
            assert(self.children_at(p as int) =~= swap_removed(l, idx as int));
            assert forall|n: int| 0 <= n < self.len() && n != p implies self.nodes@[n] == old_tree.nodes@[n] by {}
        }
        let len = self.nodes[p].children.len();
        if idx < len {
            let moved = self.nodes[p].children[idx];
            proof {
                let last = l.last();
                assert(moved == last);
                assert(old_tree.position_at(last) == l.len() - 1);
                assert(moved != me);
                assert(moved < self.len());
            }
            self.nodes[moved].index_in_parent = idx;
        }
        self.nodes[me].parent = None;
        proof {
            let last_at = l.len() - 1;
            let moved_node = l[last_at];
            assert forall|n: int| 0 <= n < self.len() && n != p implies #[trigger] self.children_at(n)
                == old_tree.children_at(n) by {
                assert(self.nodes@[n].children == old_tree.nodes@[n].children);
            }
            assert(self.children_at(p as int) == swap_removed(l, idx as int)) by {
                assert(self.nodes@[p as int].children == after_remove.nodes@[p as int].children);
            }
            assert forall|n: int| 0 <= n < self.len() && n != me implies #[trigger] self.parent_at(n)
                == old_tree.parent_at(n) by {
                assert(self.nodes@[n].parent == old_tree.nodes@[n].parent);
            }
            assert forall|n: int|
                0 <= n < self.len() && n != me && (idx >= len || n != moved_node) implies #[trigger] self.position_at(
                    n,
                ) == old_tree.position_at(n) by {
                assert(self.nodes@[n].index_in_parent == old_tree.nodes@[n].index_in_parent);
            }
            if idx < len {
                assert(self.position_at(moved_node) == idx);
            }
            assert forall|n: int|
                0 <= n < self.len() && #[trigger] self.parent_at(n) is Some implies {
                    let q = self.parent_at(n)->0;
                    &&& 0 <= q < self.len()
                    &&& 0 <= self.position_at(n) < self.children_at(q).len()
                    &&& self.children_at(q)[self.position_at(n)] == n
                } by {
                assert(n != me);
                assert(old_tree.parent_at(n) is Some);
                let q = old_tree.parent_at(n)->0;
                if q == p {
                    let j = old_tree.position_at(n);
                    assert(l[j] == n);
                    if j == idx {
                        assert(false);
                    }
                }
            }
            assert forall|q: int, i: int|
                0 <= q < self.len() && 0 <= i < self.children_at(q).len() implies {
                    let c = #[trigger] self.children_at(q)[i];
                    &&& 0 <= c < self.len()
                    &&& self.parent_at(c) == Some(q)
                    &&& self.position_at(c) == i
                } by {
                if q != p {
                    let c = old_tree.children_at(q)[i];
                    assert(old_tree.parent_at(c) == Some(q));
                    assert(c != me);
                    if idx < len && c == moved_node {
                        assert(old_tree.parent_at(moved_node) == Some(p as int));
                    }
                } else {
                    if i == idx {
                        assert(self.children_at(q)[i] == moved_node);
                        assert(old_tree.parent_at(moved_node) == Some(p as int));
                        assert(old_tree.position_at(moved_node) == last_at);
                    } else {
                        let c = l[i];
                        assert(self.children_at(q)[i] == c);
                        assert(old_tree.position_at(c) == i);
                        assert(c != me);
                        assert(c != moved_node);
                    }
                }
            }
        }
    }

    /// Appends `me`, which has no parent, to the child list of `np`.
    fn attach(&mut self, me: usize, np: usize)
        requires
            old(self).wf(),
            me < old(self).len(),
            np < old(self).len(),
            old(self).parent_at(me as int) is None,
        ensures
            final(self).wf(),
            final(self).len() == old(self).len(),
            final(self).parent_at(me as int) == Some(np as int),
            final(self).children_at(np as int) == old(self).children_at(np as int).push(me as int),
            forall|n: int|
                0 <= n < old(self).len() && n != np
                    ==> #[trigger] final(self).children_at(n) == old(self).children_at(n),
            forall|n: int|
                0 <= n < old(self).len() && n != me
                    ==> #[trigger] final(self).parent_at(n) == old(self).parent_at(n),
    {
        let ghost old_tree = *self;
        let k = self.nodes[np].children.len();
        self.nodes[me].index_in_parent = k;
        self.nodes[me].parent = Some(np);
        self.nodes[np].children.push(me);
        proof {
            let l = old_tree.children_at(np as int);
            assert(self.children_at(np as int) =~= l.push(me as int));
            assert forall|n: int| 0 <= n < self.len() && n != np implies #[trigger] self.children_at(n)
                == old_tree.children_at(n) by {
                assert(self.nodes@[n].children == old_tree.nodes@[n].children);
            }
            assert forall|n: int| 0 <= n < self.len() && n != me implies #[trigger] self.parent_at(n)
                == old_tree.parent_at(n) && self.position_at(n) == old_tree.position_at(n) by {
                assert(self.nodes@[n].parent == old_tree.nodes@[n].parent);
                assert(self.nodes@[n].index_in_parent == old_tree.nodes@[n].index_in_parent);
            }
            assert(self.position_at(me as int) == k);
            assert forall|n: int|
                0 <= n < self.len() && #[trigger] self.parent_at(n) is Some implies {
                    let q = self.parent_at(n)->0;
                    &&& 0 <= q < self.len()
                    &&& 0 <= self.position_at(n) < self.children_at(q).len()
                    &&& self.children_at(q)[self.position_at(n)] == n
                } by {
                if n != me {
                    assert(old_tree.parent_at(n) is Some);
                }
            }
            assert forall|q: int, i: int|
                0 <= q < self.len() && 0 <= i < self.children_at(q).len() implies {
                    let c = #[trigger] self.children_at(q)[i];
                    &&& 0 <= c < self.len()
                    &&& self.parent_at(c) == Some(q)
                    &&& self.position_at(c) == i
                } by {
                if q == np && i == k {
                    assert(self.children_at(q)[i] == me);
                } else {
                    let c = old_tree.children_at(q)[i];
                    assert(self.children_at(q)[i] == c);
                    assert(old_tree.parent_at(c) == Some(q));
                    assert(c != me);
                }
            }
        }
    }

    /// The child list of node `n` after [`NodeTree::set_parent`] moves `me`
    /// under `new_parent`.
    pub open spec fn relinked_children(&self, me: int, new_parent: Option<int>, n: int) -> Seq<int> {
        let kept = if self.parent_at(me) == Some(n) {
            swap_removed(self.children_at(n), self.position_at(me))
        } else {
            self.children_at(n)
        };
        if new_parent == Some(n) {
            kept.push(me)
        } else {
            kept
        }
    }

    /// Moves node `me` under `new_parent`, or makes it a root: it leaves its old
    /// parent's child list, where the last child takes its place, and is
    /// appended to the new parent's.
    pub fn set_parent(&mut self, me: usize, new_parent: Option<usize>)
        requires
            old(self).wf(),
            me < old(self).len(),
            new_parent matches Some(np) ==> np < old(self).len(),
        ensures
            final(self).wf(),
            final(self).len() == old(self).len(),
            new_parent matches Some(np) ==> final(self).parent_at(me as int) == Some(np as int),
            new_parent is None ==> final(self).parent_at(me as int) is None,
            forall|n: int|
                0 <= n < old(self).len() && n != me
                    ==> #[trigger] final(self).parent_at(n) == old(self).parent_at(n),
            forall|n: int|
                0 <= n < old(self).len() ==> #[trigger] final(self).children_at(n)
                    == old(self).relinked_children(
                    me as int,
                    match new_parent {
                        Some(np) => Some(np as int),
                        None => None,
                    },
                    n,
                ),
    {
        let ghost old_tree = *self;
        if self.nodes[me].parent.is_some() {
            self.detach(me);
        }
        let ghost mid = *self;
        if let Some(np) = new_parent {
            self.attach(me, np);
        }
        proof {
            let np_int: Option<int> = match new_parent {
                Some(np) => Some(np as int),
                None => None,
            };
            assert forall|n: int| 0 <= n < old_tree.len() implies #[trigger] self.children_at(n)
                == old_tree.relinked_children(me as int, np_int, n) by {
                if old_tree.parent_at(me as int) is Some {
                    let p = old_tree.parent_at(me as int)->0;
                    if n != p {
                        assert(mid.children_at(n) == old_tree.children_at(n));
                    }
                }
            }
        }
    }

    pub fn node(&self, n: usize) -> (r: &BaseNode)
        requires
            n < self.len(),
        ensures
            r.parent_of() == self.parent_at(n as int),
            r.children_of() == self.children_at(n as int),
            r.position() == self.position_at(n as int),
    {
        &self.nodes[n]
    }
}

} // verus!
