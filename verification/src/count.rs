//! The counting visitor: how many dispatch steps a walk makes.
use vstd::prelude::*;
use crate::node::{ASTNode, NodeType, Tree, views};
use crate::traversal::{
    lemma_steps_all_take, lemma_steps_is_size, literals_are_leaves, size, steps, steps_all,
};
use crate::visitor::ASTVisitor;

verus! {

/// The number of dispatch steps of a walk, where a `usize` can hold it.
pub open spec fn counted<T>(tree: Tree<T>) -> Option<usize> {
    if steps(tree) <= usize::MAX {
        Some(steps(tree) as usize)
    } else {
        None
    }
}

/// The visitor that counts its own dispatch steps.
pub struct ASTCountVisitor;

impl ASTCountVisitor {
    /// Walks the tree below `node` and counts one for each node it
    /// dispatches on; none if the count does not fit a `usize`. Where every
    /// literal is a leaf, the count is the number of nodes of the tree.
    pub fn count_steps<T>(&self, node: &ASTNode<T>) -> (count: Option<usize>)
        ensures
            count == counted(node@),
            literals_are_leaves(node@) ==> count == if size(node@) <= usize::MAX {
                Some(size(node@) as usize)
            } else {
                None
            },
        decreases node@,
    {
        proof {
            if literals_are_leaves(node@) {
                lemma_steps_is_size(node@);
            }
        }
        match node.get_type() {
            NodeType::LITERAL => Some(1),
            _ => {
                let children = node.get_children();
                let mut total: usize = 0;
                let mut i: usize = 0;
                while i < children.len()
                    invariant
                        i <= children.len(),
                        views(children@) == node@.children,
                        node@.kind != NodeType::LITERAL,
                        literals_are_leaves(node@) ==> steps(node@) == size(node@),
                        total == steps_all(node@.children.take(i as int)),
                    decreases children.len() - i,
                {
                    assert(children[i as int]@ == node@.children[i as int]);
                    proof {
                        let next = node@.children.take(i + 1);
                        assert(next.drop_last() =~= node@.children.take(i as int));
                        assert(next.last() == node@.children[i as int]);
                        lemma_steps_all_take(node@.children, i + 1);
                        assert(steps_all(next) == total + steps(node@.children[i as int]));
                        assert(steps(node@) == 1 + steps_all(node@.children));
                    }
                    let below: usize = match self.count_steps(&children[i]) {
                        Some(n) => n,
                        None => {
                            return None;
                        },
                    };
                    total = match total.checked_add(below) {
                        Some(n) => n,
                        None => {
                            return None;
                        },
                    };
                    i += 1;
                }
                assert(node@.children.take(i as int) =~= node@.children);
                total.checked_add(1)
            },
        }
    }
}

impl<T> ASTVisitor<T> for ASTCountVisitor {
    type Output = Option<usize>;

    open spec fn outcome(&self, tree: Tree<T>) -> Option<usize> {
        counted(tree)
    }

    /// Counts the dispatch steps of one walk over the tree below `node`.
    fn visit(&self, node: &ASTNode<T>) -> (out: Option<usize>) {
        self.count_steps(node)
    }
}

} // verus!
