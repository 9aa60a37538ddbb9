//! A tree of labelled nodes, a walk over it, and its picture as text.

pub mod display;
pub mod walk;

use vstd::prelude::*;

pub use display::Label;
pub use walk::TreeWalk;

verus! {

/// A node that carries a value: a leaf, or a branch with its children in order.
#[derive(Debug)]
pub enum Tree<T> where T: Clone {
    Leaf(T),
    Branch(T, Vec<Tree<T>>),
}

impl<T: Clone> Tree<T> {
    /// The value that the node carries.
    pub open spec fn value(self) -> T {
        match self {
            Tree::Leaf(value) => value,
            Tree::Branch(value, _) => value,
        }
    }

    /// The children of the node, in order. A leaf has none.
    pub open spec fn children(self) -> Seq<Tree<T>> {
        match self {
            Tree::Leaf(_) => Seq::empty(),
            Tree::Branch(_, children) => children@,
        }
    }

    /// The number of nodes of the tree.
    pub open spec fn size(self) -> nat
        decreases self,
    {
        match self {
            Tree::Leaf(_) => 1,
            Tree::Branch(_, children) => 1 + forest_size(children@),
        }
    }
}

/// The number of nodes of all of `trees`.
pub open spec fn forest_size<T: Clone>(trees: Seq<Tree<T>>) -> nat
    decreases trees,
{
    if trees.len() == 0 {
        0
    } else {
        trees.last().size() + forest_size(trees.drop_last())
    }
}

/// The nodes of two forests add up.
pub proof fn lemma_forest_size_add<T: Clone>(left: Seq<Tree<T>>, right: Seq<Tree<T>>)
    ensures
        forest_size(left + right) == forest_size(left) + forest_size(right),
    decreases right.len(),
{
    if right.len() == 0 {
        assert(left + right =~= left);
    } else {
        lemma_forest_size_add(left, right.drop_last());
        assert((left + right).drop_last() =~= left + right.drop_last());
    }
}

/// Whether `copy` is what cloning `tree` can give: the same shape, each value a clone of
/// the value in its place.
pub open spec fn is_copy<T: Clone>(tree: Tree<T>, copy: Tree<T>) -> bool
    decreases tree,
{
    match tree {
        Tree::Leaf(value) => copy is Leaf && cloned(value, copy.value()),
        Tree::Branch(value, children) => {
            &&& copy is Branch
            &&& cloned(value, copy.value())
            &&& copy.children().len() == children@.len()
            &&& forall|i: int|
                0 <= i < children@.len() ==> is_copy(
                    #[trigger] children@[i],
                    copy.children()[i],
                )
        },
    }
}

impl<T: Clone> Tree<T> {
    /// A copy of the tree: the same shape, each value cloned.
    pub fn duplicate(&self) -> (copy: Self)
        ensures
            is_copy(*self, copy),
        decreases self,
    {
        match self {
            Tree::Leaf(value) => Tree::Leaf(value.clone()),
            Tree::Branch(value, children) => {
                let mut copies: Vec<Tree<T>> = Vec::new();
                let mut i: usize = 0;
                while i < children.len()
                    invariant
                        i <= children.len(),
                        *self == Tree::Branch(*value, *children),
                        copies@.len() == i,
                        forall|j: int| 0 <= j < i ==> is_copy(#[trigger] children@[j], copies@[j]),
                    decreases children.len() - i,
                {
                    let child = &children[i];
                    assert(decreases_to!(*self => self->Branch_1));
                    assert(decreases_to!(*children => children[i as int]));
                    copies.push(child.duplicate());
                    i += 1;
                }
                Tree::Branch(value.clone(), copies)
            },
        }
    }
}

impl<T: Clone> Clone for Tree<T> {
    fn clone(&self) -> (copy: Self)
        ensures
            is_copy(*self, copy),
    {
        self.duplicate()
    }
}

} // verus!
