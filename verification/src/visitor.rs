//! Visitors: one depth-first, left-to-right walk over a tree, dispatching on
//! the kind of each node.
//!
//! A visitor keeps no state between walks: what a walk yields is a function
//! of the visitor and the tree alone, so any number of visitors may walk one
//! tree. New passes are new visitors; the node model stays as it is.
use vstd::prelude::*;
use crate::node::{ASTNode, Tree};

verus! {

/// A pass over a tree that yields one value.
pub trait ASTVisitor<T> {
    /// What a walk yields.
    type Output: View;

    /// What a walk over `tree` yields, as a mathematical value.
    spec fn outcome(&self, tree: Tree<T>) -> <Self::Output as View>::V;

    /// Walks the tree below `node` once.
    fn visit(&self, node: &ASTNode<T>) -> (out: Self::Output)
        ensures
            out@ == self.outcome(node@),
    ;
}

/// Visiting is deterministic: two walks of one visitor over trees that are
/// equal yield equal values.
pub proof fn lemma_visit_deterministic<T, V: ASTVisitor<T>>(
    visitor: V,
    first_node: ASTNode<T>,
    first: V::Output,
    second_node: ASTNode<T>,
    second: V::Output,
)
    requires
        first_node@ == second_node@,
        first@ == visitor.outcome(first_node@),
        second@ == visitor.outcome(second_node@),
    ensures
        first@ == second@,
{
}

} // verus!
