//! Paths: finding a node, and its parent, from the root.
//!
//! A path is the list of child indices that leads from a root down to a
//! node; the empty path is the root itself. Since a node is owned by exactly
//! one list of children, its path names it, and its parent is the node one
//! step up the path. Both are borrowed from the root and own nothing.
use vstd::prelude::*;
use crate::node::{ASTNode, Tree, views};

verus! {

/// The tree reached from `tree` by `path`, if the path stays inside it.
pub open spec fn node_at<T>(tree: Tree<T>, path: Seq<int>) -> Option<Tree<T>>
    decreases path.len(),
{
    if path.len() == 0 {
        Some(tree)
    } else if 0 <= path[0] < tree.children.len() {
        node_at(tree.children[path[0]], path.drop_first())
    } else {
        None
    }
}

/// The parent of the tree reached by `path`: the tree one step up. The root
/// has none, and neither has a path that leaves the tree.
pub open spec fn parent_at<T>(tree: Tree<T>, path: Seq<int>) -> Option<Tree<T>> {
    if path.len() == 0 || node_at(tree, path) is None {
        None
    } else {
        node_at(tree, path.drop_last())
    }
}

/// A list of indices as mathematical integers.
pub open spec fn indices(path: Seq<usize>) -> Seq<int> {
    Seq::new(path.len(), |k: int| path[k] as int)
}

/// One step more: the path `path` and then `index` leads to child `index` of
/// the node that `path` leads to, where there is such a child.
pub proof fn lemma_node_at_push<T>(tree: Tree<T>, path: Seq<int>, index: int)
    ensures
        node_at(tree, path.push(index)) == match node_at(tree, path) {
            Some(found) => if 0 <= index < found.children.len() {
                Some(found.children[index])
            } else {
                None
            },
            None => None,
        },
    decreases path.len(),
{
    let longer = path.push(index);
    if path.len() == 0 {
        assert(longer.drop_first() =~= Seq::<int>::empty());
        assert(longer[0] == index);
        if 0 <= index < tree.children.len() {
            assert(node_at(tree.children[index], longer.drop_first()) == Some(
                tree.children[index],
            ));
        }
    } else {
        assert(longer[0] == path[0]);
        assert(longer.drop_first() =~= path.drop_first().push(index));
        if 0 <= path[0] < tree.children.len() {
            lemma_node_at_push(tree.children[path[0]], path.drop_first(), index);
        }
    }
}

/// A node's parent owns it: where a non-empty path leads to a node, the path
/// without its last step leads to the parent, and the node is the parent's
/// child at that last step.
pub proof fn lemma_parent_owns_child<T>(tree: Tree<T>, path: Seq<int>)
    requires
        path.len() > 0,
        node_at(tree, path) is Some,
    ensures
        parent_at(tree, path) is Some,
        0 <= path.last() < parent_at(tree, path).unwrap().children.len(),
        parent_at(tree, path).unwrap().children[path.last()] == node_at(tree, path).unwrap(),
{
    assert(path.drop_last().push(path.last()) =~= path);
    lemma_node_at_push(tree, path.drop_last(), path.last());
}

/// No child has two owners: two places in the lists of children of a tree,
/// each given by the path to a parent and an index among its children, that
/// differ in the parent or in the index hold nodes at different paths.
pub proof fn lemma_single_owner<T>(
    tree: Tree<T>,
    parent: Seq<int>,
    index: int,
    other_parent: Seq<int>,
    other_index: int,
)
    requires
        node_at(tree, parent.push(index)) is Some,
        node_at(tree, other_parent.push(other_index)) is Some,
        parent != other_parent || index != other_index,
    ensures
        parent.push(index) != other_parent.push(other_index),
{
    if parent.push(index) == other_parent.push(other_index) {
        assert(parent.push(index).drop_last() =~= parent);
        assert(other_parent.push(other_index).drop_last() =~= other_parent);
        assert(parent.push(index).last() == index);
        assert(other_parent.push(other_index).last() == other_index);
    }
}

impl<T> ASTNode<T> {
    /// Follows the first `steps` indices of `path` down from this node.
    fn descend<'a>(&'a self, path: &[usize], steps: usize) -> (found: Option<&'a ASTNode<T>>)
        requires
            steps <= path@.len(),
        ensures
            match found {
                Some(node) => node_at(self@, indices(path@).take(steps as int)) == Some(node@),
                None => node_at(self@, indices(path@).take(steps as int)) is None,
            },
    {
        let ghost whole = indices(path@).take(steps as int);
        let mut current: &'a ASTNode<T> = self;
        let mut k: usize = 0;
        assert(whole.skip(0) =~= whole);
        while k < steps
            invariant
                k <= steps <= path@.len(),
                whole == indices(path@).take(steps as int),
                node_at(self@, whole) == node_at(current@, whole.skip(k as int)),
            decreases steps - k,
        {
            let children = current.get_children();
            let index: usize = path[k];
            proof {
                let rest = whole.skip(k as int);
                assert(rest.len() > 0);
                assert(rest[0] == index as int);
                assert(rest.drop_first() =~= whole.skip(k + 1));
            }
            if index >= children.len() {
                return None;
            }
            assert(children[index as int]@ == current@.children[index as int]);
            current = &children[index];
            k += 1;
        }
        assert(whole.skip(k as int).len() == 0);
        Some(current)
    }

    /// The node that `path` leads to from this one; none if the path leaves
    /// the tree.
    pub fn get_descendant<'a>(&'a self, path: &[usize]) -> (found: Option<&'a ASTNode<T>>)
        ensures
            match found {
                Some(node) => node_at(self@, indices(path@)) == Some(node@),
                None => node_at(self@, indices(path@)) is None,
            },
    {
        assert(indices(path@).take(path@.len() as int) =~= indices(path@));
        self.descend(path, path.len())
    }

    /// The parent of the node that `path` leads to from this one, which is
    /// the root. None for the root itself, and for a path that leaves the
    /// tree.
    pub fn get_parent<'a>(&'a self, path: &[usize]) -> (parent: Option<&'a ASTNode<T>>)
        ensures
            match parent {
                Some(node) => parent_at(self@, indices(path@)) == Some(node@),
                None => parent_at(self@, indices(path@)) is None,
            },
    {
        let len: usize = path.len();
        if len == 0 {
            return None;
        }
        let ghost whole = indices(path@);
        proof {
            assert(whole.take(len - 1) =~= whole.drop_last());
            assert(whole.drop_last().push(whole.last()) =~= whole);
            lemma_node_at_push(self@, whole.drop_last(), whole.last());
        }
        match self.descend(path, len - 1) {
            Some(node) => {
                let children = node.get_children();
                if path[len - 1] < children.len() {
                    Some(node)
                } else {
                    None
                }
            },
            None => None,
        }
    }
}

} // verus!
