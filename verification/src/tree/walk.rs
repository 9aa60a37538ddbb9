//! A walk over the nodes of a tree.

use vstd::prelude::*;
use crate::tree::{forest_size, lemma_forest_size_add, Tree};

verus! {

/// The nodes that a walk visits when `stack` holds what is waiting, in the order of the
/// visits: the top of the stack comes first, and its children take its place, the last
/// child on top.
pub open spec fn visits<T: Clone>(stack: Seq<Tree<T>>) -> Seq<Tree<T>>
    decreases forest_size(stack),
    via visits_decreases::<T>
{
    if stack.len() == 0 {
        Seq::empty()
    } else {
        seq![stack.last()] + visits(stack.drop_last() + stack.last().children())
    }
}

#[via_fn]
proof fn visits_decreases<T: Clone>(stack: Seq<Tree<T>>) {
    if stack.len() > 0 {
        let top = stack.last();
        lemma_forest_size_add(stack.drop_last(), top.children());
        assert(top.size() == 1 + forest_size(top.children())) by {
            match top {
                Tree::Leaf(_) => {
                    assert(forest_size(top.children()) == 0);
                },
                Tree::Branch(_, _) => {},
            }
        }
        assert(forest_size(stack) == top.size() + forest_size(stack.drop_last()));
    }
}

/// A walk over the nodes of a tree, parents before children.
#[derive(Debug, Clone)]
pub struct TreeWalk<'tree, T> where T: 'tree + Clone {
    pub(crate) stack: Vec<&'tree Tree<T>>,
    pub(crate) current: &'tree Tree<T>,
}

impl<'tree, T: Clone> TreeWalk<'tree, T> {
    /// The nodes that are waiting, the next one to visit last.
    pub closed spec fn stack(&self) -> Seq<Tree<T>> {
        self.stack@.map_values(|node: &'tree Tree<T>| *node)
    }

    /// The node that was visited last; before the first visit, the root.
    pub closed spec fn current(&self) -> Tree<T> {
        *self.current
    }

    /// The nodes still to visit, in the order of the visits.
    pub open spec fn remaining(&self) -> Seq<Tree<T>> {
        visits(self.stack())
    }

    /// A walk that is about to visit `tree`.
    pub fn new(tree: &'tree Tree<T>) -> (walk: Self)
        ensures
            walk.stack() == seq![*tree],
            walk.current() == *tree,
    {
        let mut stack: Vec<&'tree Tree<T>> = Vec::new();
        stack.push(tree);
        let walk = Self { stack, current: tree };
        assert(walk.stack() =~= seq![*tree]);
        walk
    }

    /// Visits the next node and returns it; `None`, and nothing changed, where no node is
    /// left. The children of the visited node are the next to visit, the last child first.
    pub fn next(&mut self) -> (node: Option<&'tree Tree<T>>)
        ensures
            old(self).stack().len() == 0 ==> {
                &&& node is None
                &&& final(self).stack() == old(self).stack()
                &&& final(self).current() == old(self).current()
            },
            old(self).stack().len() > 0 ==> {
                &&& node == Some(&old(self).stack().last())
                &&& final(self).current() == old(self).stack().last()
                &&& final(self).stack() == old(self).stack().drop_last() + old(
                    self,
                ).stack().last().children()
                &&& final(self).remaining() == old(self).remaining().drop_first()
                &&& old(self).remaining()[0] == old(self).stack().last()
            },
    {
        match self.stack.pop() {
            None => None,
            Some(node) => {
                self.current = node;
                let ghost below = self.stack();
                assert(below =~= old(self).stack().drop_last());
                if let Tree::Branch(_, children) = node {
                    let mut i: usize = 0;
                    assert(self.stack() =~= below + children@.take(0));
                    while i < children.len()
                        invariant
                            i <= children.len(),
                            self.current == node,
                            self.stack() == below + children@.take(i as int),
                        decreases children.len() - i,
                    {
                        let ghost before = self.stack();
                        self.stack.push(&children[i]);
                        assert(self.stack() =~= before.push(children@[i as int]));
                        i += 1;
                        assert(self.stack() =~= below + children@.take(i as int));
                    }
                    assert(children@.take(i as int) =~= children@);
                } else {
                    assert(self.stack() =~= below + node.children());
                }
                assert(visits(self.stack()) =~= visits(old(self).stack()).drop_first());
                Some(node)
            },
        }
    }

    /// The children of the current node that are leaves, in order.
    pub fn leaves(self) -> (leaves: Vec<&'tree Tree<T>>)
        ensures
            leaves@.map_values(|node: &'tree Tree<T>| *node) == self.current().children().filter(
                |node: Tree<T>| node is Leaf,
            ),
    {
        let mut leaves: Vec<&'tree Tree<T>> = Vec::new();
        let ghost is_leaf = |node: Tree<T>| node is Leaf;
        if let Tree::Branch(_, children) = self.current {
            let mut i: usize = 0;
            assert(children@.take(0) =~= Seq::empty());
            assert(leaves@.map_values(|node: &'tree Tree<T>| *node) =~= Seq::empty());
            proof {
                reveal(Seq::filter);
            }
            while i < children.len()
                invariant
                    i <= children.len(),
                    is_leaf == |node: Tree<T>| node is Leaf,
                    leaves@.map_values(|node: &'tree Tree<T>| *node) == children@.take(
                        i as int,
                    ).filter(is_leaf),
                decreases children.len() - i,
            {
                let ghost before = leaves@.map_values(|node: &'tree Tree<T>| *node);
                if let Tree::Leaf(_) = &children[i] {
                    leaves.push(&children[i]);
                    assert(leaves@.map_values(|node: &'tree Tree<T>| *node) =~= before.push(
                        children@[i as int],
                    ));
                }
                i += 1;
                proof {
                    reveal(Seq::filter);
                    assert(children@.take(i as int).drop_last() =~= children@.take(i - 1));
                }
            }
            assert(children@.take(i as int) =~= children@);
        } else {
            proof {
                reveal(Seq::filter);
            }
            assert(leaves@.map_values(|node: &'tree Tree<T>| *node) =~= Seq::empty());
        }
        leaves
    }

    /// A walk that is about to visit the first branch, among the nodes still to visit,
    /// whose value `f` accepts. Leaves are passed over without asking `f`.
    pub fn branch<F: Fn(&T) -> bool>(self, f: F) -> (walk: Self)
        requires
            forall|i: int|
                0 <= i < self.remaining().len() && (#[trigger] self.remaining()[i]) is Branch
                    ==> f.requires((&self.remaining()[i].value(),)),
            exists|i: int|
                0 <= i < self.remaining().len() && always_accepts(f, #[trigger] self.remaining()[i]),
        ensures
            exists|i: int|
                {
                    &&& 0 <= i < self.remaining().len()
                    &&& accepts(f, #[trigger] self.remaining()[i])
                    &&& forall|j: int| 0 <= j < i ==> rejects(f, #[trigger] self.remaining()[j])
                    &&& walk.current() == self.remaining()[i]
                    &&& walk.stack() == seq![self.remaining()[i]]
                },
    {
        let mut walk = self;
        let ghost all = self.remaining();
        let ghost mut seen: int = 0;
        assert(all.skip(0) =~= all);
        loop
            invariant
                0 <= seen <= all.len(),
                all == self.remaining(),
                walk.remaining() == all.skip(seen),
                forall|j: int| 0 <= j < seen ==> rejects(f, #[trigger] all[j]),
                forall|i: int|
                    0 <= i < all.len() && (#[trigger] all[i]) is Branch ==> f.requires(
                        (&all[i].value(),),
                    ),
                exists|i: int| seen <= i < all.len() && always_accepts(f, #[trigger] all[i]),
            decreases all.len() - seen,
        {
            let ghost here = all[seen];
            assert(walk.remaining().len() > 0);
            assert(walk.stack().len() > 0) by {
                if walk.stack().len() == 0 {
                    assert(visits(walk.stack()).len() == 0);
                }
            }
            assert(walk.remaining()[0] == here);
            let node = walk.next();
            assert(walk.remaining() =~= all.skip(seen + 1));
            match node {
                Some(node) => {
                    assert(*node == here);
                    if let Tree::Branch(value, _) = node {
                        if f(value) {
                            return TreeWalk::new(node);
                        }
                    }
                    proof {
                        seen = seen + 1;
                    }
                },
                None => {
                    return walk;
                },
            }
        }
    }
}

/// Whether `f` can accept `node`: it is a branch, and `f` can answer `true` on its value.
pub open spec fn accepts<T: Clone, F: Fn(&T) -> bool>(f: F, node: Tree<T>) -> bool {
    node is Branch && f.ensures((&node.value(),), true)
}

/// Whether `f` can only accept `node`: it is a branch, and `f` never answers `false` on
/// its value.
pub open spec fn always_accepts<T: Clone, F: Fn(&T) -> bool>(f: F, node: Tree<T>) -> bool {
    node is Branch && !f.ensures((&node.value(),), false)
}

/// Whether `f` can pass over `node`: it is a leaf, or `f` can answer `false` on its value.
pub open spec fn rejects<T: Clone, F: Fn(&T) -> bool>(f: F, node: Tree<T>) -> bool {
    node is Leaf || f.ensures((&node.value(),), false)
}

} // verus!
