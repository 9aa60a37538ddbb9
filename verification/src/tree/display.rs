//! The picture of a tree as text: one line for each node, children below their parent and
//! one step further in.

use vstd::prelude::*;
use crate::tree::Tree;

verus! {

/// A value that has a label to stand for it in a picture.
pub trait Label {
    /// The label.
    spec fn label_text(&self) -> Seq<char>;

    /// Writes the label out.
    fn label(&self) -> (text: String)
        ensures
            text@ == self.label_text(),
    ;
}

/// The blanks in front of a line that is `level` steps in: four for each step.
pub open spec fn margin(level: nat) -> Seq<char>
    decreases level,
{
    if level == 0 {
        Seq::empty()
    } else {
        margin((level - 1) as nat) + "    "@
    }
}

/// The line of one node: the margin, `|-`, the label, and a line end.
pub open spec fn line<T: Clone + Label>(node: Tree<T>, level: nat) -> Seq<char> {
    margin(level) + "|-"@ + node.value().label_text() + "\n"@
}

/// The picture of `tree`, its root `level` steps in: the line of the root, then the
/// pictures of its children in order, each one step further in.
pub open spec fn picture<T: Clone + Label>(tree: Tree<T>, level: nat) -> Seq<char>
    decreases tree,
{
    match tree {
        Tree::Leaf(_) => line(tree, level),
        Tree::Branch(_, children) => line(tree, level) + pictures(children@, level + 1),
    }
}

/// The pictures of `trees` one after the other, each root `level` steps in.
pub open spec fn pictures<T: Clone + Label>(trees: Seq<Tree<T>>, level: nat) -> Seq<char>
    decreases trees,
{
    if trees.len() == 0 {
        Seq::empty()
    } else {
        pictures(trees.drop_last(), level) + picture(trees.last(), level)
    }
}

/// How many steps the picture of `tree` goes in behind its root: none for a leaf, and for a
/// branch one more than for any of its children.
pub open spec fn depth<T: Clone>(tree: Tree<T>) -> nat
    decreases tree,
{
    match tree {
        Tree::Leaf(_) => 0,
        Tree::Branch(_, children) => 1 + depths(children@),
    }
}

/// The largest depth among `trees`; `0` where there is none.
pub open spec fn depths<T: Clone>(trees: Seq<Tree<T>>) -> nat
    decreases trees,
{
    if trees.len() == 0 {
        0
    } else {
        let before = depths(trees.drop_last());
        let last = depth(trees.last());
        if last > before {
            last
        } else {
            before
        }
    }
}

/// No tree among `trees` is deeper than the deepest.
pub proof fn lemma_depths_bound<T: Clone>(trees: Seq<Tree<T>>, i: int)
    requires
        0 <= i < trees.len(),
    ensures
        depth(trees[i]) <= depths(trees),
    decreases trees.len(),
{
    if i < trees.len() - 1 {
        lemma_depths_bound(trees.drop_last(), i);
    }
}

/// Draws pictures of trees, and keeps count of how many steps in it is.
pub struct TreeDisplay {
    pub level: u8,
}

impl TreeDisplay {
    /// Appends the picture of `tree` to `out`, the root as many steps in as the count
    /// says. The count is afterwards what it was.
    pub fn display<T: Clone + Label>(&mut self, tree: &Tree<T>, out: &mut String)
        requires
            old(self).level + depth(*tree) <= u8::MAX,
        ensures
            final(self).level == old(self).level,
            final(out)@ == old(out)@ + picture(*tree, old(self).level as nat),
        decreases tree,
    {
        let ghost level = self.level as nat;
        let mut i: u8 = 0;
        while i < self.level
            invariant
                i <= self.level,
                self.level == level,
                out@ == old(out)@ + margin(i as nat),
            decreases self.level - i,
        {
            out.append("    ");
            i += 1;
            assert(out@ =~= old(out)@ + margin(i as nat));
        }
        out.append("|-");
        match tree {
            Tree::Leaf(data) => {
                let text = data.label();
                out.append(text.as_str());
                out.append("\n");
                assert(out@ =~= old(out)@ + picture(*tree, level));
            },
            Tree::Branch(data, children) => {
                let text = data.label();
                out.append(text.as_str());
                out.append("\n");
                let ghost start = out@;
                assert(start =~= old(out)@ + line(*tree, level));
                self.level += 1;
                let mut k: usize = 0;
                assert(children@.take(0) =~= Seq::empty());
                while k < children.len()
                    invariant
                        k <= children.len(),
                        self.level == level + 1,
                        depth(*tree) == 1 + depths(children@),
                        level + depth(*tree) <= u8::MAX,
                        *tree == Tree::Branch(*data, *children),
                        out@ == start + pictures(children@.take(k as int), level + 1),
                    decreases children.len() - k,
                {
                    proof {
                        lemma_depths_bound(children@, k as int);
                    }
                    let ghost before = out@;
                    self.display(&children[k], out);
                    k += 1;
                    proof {
                        assert(children@.take(k as int).drop_last() =~= children@.take(k - 1));
                        assert(children@.take(k as int).last() == children@[k - 1]);
                        assert(out@ =~= start + pictures(children@.take(k as int), level + 1));
                    }
                }
                assert(children@.take(k as int) =~= children@);
                self.level -= 1;
                assert(out@ =~= old(out)@ + picture(*tree, level));
            },
        }
    }
}

impl<T: Clone + Label> Tree<T> {
    /// The picture of the tree.
    pub fn to_string(&self) -> (text: String)
        requires
            depth(*self) <= u8::MAX,
        ensures
            text@ == picture(*self, 0),
    {
        let mut text = String::new();
        let mut display = TreeDisplay { level: 0 };
        display.display(self, &mut text);
        assert(text@ =~= picture(*self, 0));
        text
    }
}

} // verus!
