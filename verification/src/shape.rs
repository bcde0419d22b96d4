//! The shape of a tree: a literal has no children, an operator has at least
//! one. The plain constructors accept any shape; here are the constructors
//! that refuse a wrong one, and the check of a whole tree.
//!
//! How many children an operator has beyond the first is not a matter of
//! shape: an operator with three children is well formed.
use vstd::prelude::*;
use crate::node::{
    ASTNode, ASTNodeDiv, ASTNodeLiteral, ASTNodeMinus, ASTNodeMul, ASTNodePlus, NodeType, Tree,
    views,
};
use crate::traversal::literals_are_leaves;

verus! {

/// What is wrong with the shape of a node.
#[derive(Clone, Copy, Debug, PartialEq, Eq, Structural)]
pub enum NodeError {
    /// An operator without children.
    ArityError,
    /// A literal with children.
    ShapeError,
}

/// What is wrong with the root of a tree, its children left aside.
pub open spec fn node_fault<T>(tree: Tree<T>) -> Option<NodeError> {
    if tree.kind == NodeType::LITERAL {
        if tree.children.len() == 0 {
            None
        } else {
            Some(NodeError::ShapeError)
        }
    } else {
        if tree.children.len() == 0 {
            Some(NodeError::ArityError)
        } else {
            None
        }
    }
}

/// Every node of the tree has the right shape.
pub open spec fn well_formed<T>(tree: Tree<T>) -> bool
    decreases tree,
{
    &&& node_fault(tree) is None
    &&& forall|i: int| 0 <= i < tree.children.len() ==> well_formed(#[trigger] tree.children[i])
}

/// The fault of the first node with a wrong shape, in the order of a
/// depth-first, left-to-right walk; none in a well-formed tree.
pub open spec fn first_fault<T>(tree: Tree<T>) -> Option<NodeError>
    decreases tree,
{
    if node_fault(tree) is Some {
        node_fault(tree)
    } else {
        first_fault_all(tree.children)
    }
}

/// The first fault in a list of trees, from left to right.
pub open spec fn first_fault_all<T>(trees: Seq<Tree<T>>) -> Option<NodeError>
    decreases trees,
{
    if trees.len() == 0 {
        None
    } else if first_fault_all(trees.drop_last()) is Some {
        first_fault_all(trees.drop_last())
    } else {
        first_fault(trees.last())
    }
}

/// A fault among the first `n` trees of a list is the first fault of the
/// list.
proof fn lemma_first_fault_all_take<T>(trees: Seq<Tree<T>>, n: int)
    requires
        0 <= n <= trees.len(),
        first_fault_all(trees.take(n)) is Some,
    ensures
        first_fault_all(trees) == first_fault_all(trees.take(n)),
    decreases trees.len(),
{
    if n == trees.len() {
        assert(trees.take(n) =~= trees);
    } else {
        assert(trees.drop_last().take(n) =~= trees.take(n));
        lemma_first_fault_all_take(trees.drop_last(), n);
    }
}

/// A tree is well formed exactly if it has no first fault.
pub proof fn lemma_well_formed_iff_no_fault<T>(tree: Tree<T>)
    ensures
        well_formed(tree) <==> first_fault(tree) is None,
    decreases tree, 1int,
{
    lemma_all_well_formed_iff_no_fault(tree.children);
}

/// The same for a list of trees.
pub proof fn lemma_all_well_formed_iff_no_fault<T>(trees: Seq<Tree<T>>)
    ensures
        (forall|i: int| 0 <= i < trees.len() ==> well_formed(#[trigger] trees[i]))
            <==> first_fault_all(trees) is None,
    decreases trees, 0int,
{
    if trees.len() > 0 {
        let init = trees.drop_last();
        lemma_all_well_formed_iff_no_fault(init);
        lemma_well_formed_iff_no_fault(trees.last());
        if forall|i: int| 0 <= i < trees.len() ==> well_formed(#[trigger] trees[i]) {
            assert forall|i: int| 0 <= i < init.len() implies well_formed(#[trigger] init[i]) by {
                assert(init[i] == trees[i]);
            }
            assert(well_formed(trees[trees.len() - 1]));
        }
        if first_fault_all(trees) is None {
            assert forall|i: int| 0 <= i < trees.len() implies well_formed(
                #[trigger] trees[i],
            ) by {
                if i < init.len() {
                    assert(init[i] == trees[i]);
                }
            }
        }
    }
}

/// In a well-formed tree every literal is a leaf.
pub proof fn lemma_well_formed_literals_are_leaves<T>(tree: Tree<T>)
    requires
        well_formed(tree),
    ensures
        literals_are_leaves(tree),
    decreases tree,
{
    assert forall|i: int| 0 <= i < tree.children.len() implies literals_are_leaves(
        #[trigger] tree.children[i],
    ) by {
        lemma_well_formed_literals_are_leaves(tree.children[i]);
    }
}

impl<T> ASTNodeLiteral<T> {
    /// Builds a literal, which must have no children: with children it is
    /// refused with `ShapeError`.
    pub fn try_new(value: T, children: Vec<ASTNode<T>>) -> (built: Result<Self, NodeError>)
        ensures
            match built {
                Ok(node) => children@.len() == 0 && node@ == (Tree {
                    kind: NodeType::LITERAL,
                    value: value,
                    children: views(children@),
                }),
                Err(e) => children@.len() > 0 && e == NodeError::ShapeError,
            },
    {
        if children.len() == 0 {
            Ok(ASTNodeLiteral::new(value, children))
        } else {
            Err(NodeError::ShapeError)
        }
    }
}

impl<T> ASTNodePlus<T> {
    /// Builds an addition, which must have a child: without one it is
    /// refused with `ArityError`.
    pub fn try_new(value: T, children: Vec<ASTNode<T>>) -> (built: Result<Self, NodeError>)
        ensures
            match built {
                Ok(node) => children@.len() > 0 && node@ == (Tree {
                    kind: NodeType::PLUS,
                    value: value,
                    children: views(children@),
                }),
                Err(e) => children@.len() == 0 && e == NodeError::ArityError,
            },
    {
        if children.len() > 0 {
            Ok(ASTNodePlus::new(value, children))
        } else {
            Err(NodeError::ArityError)
        }
    }
}

impl<T> ASTNodeMinus<T> {
    /// Builds a subtraction, which must have a child: without one it is
    /// refused with `ArityError`.
    pub fn try_new(value: T, children: Vec<ASTNode<T>>) -> (built: Result<Self, NodeError>)
        ensures
            match built {
                Ok(node) => children@.len() > 0 && node@ == (Tree {
                    kind: NodeType::MINUS,
                    value: value,
                    children: views(children@),
                }),
                Err(e) => children@.len() == 0 && e == NodeError::ArityError,
            },
    {
        if children.len() > 0 {
            Ok(ASTNodeMinus::new(value, children))
        } else {
            Err(NodeError::ArityError)
        }
    }
}

impl<T> ASTNodeMul<T> {
    /// Builds a multiplication, which must have a child: without one it is
    /// refused with `ArityError`.
    pub fn try_new(value: T, children: Vec<ASTNode<T>>) -> (built: Result<Self, NodeError>)
        ensures
            match built {
                Ok(node) => children@.len() > 0 && node@ == (Tree {
                    kind: NodeType::MUL,
                    value: value,
                    children: views(children@),
                }),
                Err(e) => children@.len() == 0 && e == NodeError::ArityError,
            },
    {
        if children.len() > 0 {
            Ok(ASTNodeMul::new(value, children))
        } else {
            Err(NodeError::ArityError)
        }
    }
}

impl<T> ASTNodeDiv<T> {
    /// Builds a division, which must have a child: without one it is
    /// refused with `ArityError`.
    pub fn try_new(value: T, children: Vec<ASTNode<T>>) -> (built: Result<Self, NodeError>)
        ensures
            match built {
                Ok(node) => children@.len() > 0 && node@ == (Tree {
                    kind: NodeType::DIV,
                    value: value,
                    children: views(children@),
                }),
                Err(e) => children@.len() == 0 && e == NodeError::ArityError,
            },
    {
        if children.len() > 0 {
            Ok(ASTNodeDiv::new(value, children))
        } else {
            Err(NodeError::ArityError)
        }
    }
}

impl<T> ASTNode<T> {
    /// Checks the shape of every node below this one, in the order of a
    /// depth-first, left-to-right walk, and reports the first fault.
    pub fn validate(&self) -> (checked: Result<(), NodeError>)
        ensures
            checked is Ok <==> well_formed(self@),
            checked == match first_fault(self@) {
                Some(e) => Err::<(), NodeError>(e),
                None => Ok::<(), NodeError>(()),
            },
        decreases self@,
    {
        proof {
            lemma_well_formed_iff_no_fault(self@);
        }
        let children = self.get_children();
        match self.get_type() {
            NodeType::LITERAL => {
                if children.len() > 0 {
                    return Err(NodeError::ShapeError);
                }
            },
            _ => {
                if children.len() == 0 {
                    return Err(NodeError::ArityError);
                }
            },
        }
        let mut i: usize = 0;
        while i < children.len()
            invariant
                i <= children.len(),
                views(children@) == self@.children,
                node_fault(self@) is None,
                first_fault_all(self@.children.take(i as int)) is None,
            decreases children.len() - i,
        {
            assert(children[i as int]@ == self@.children[i as int]);
            proof {
                let next = self@.children.take(i + 1);
                assert(next.drop_last() =~= self@.children.take(i as int));
                assert(next.last() == self@.children[i as int]);
                assert(first_fault_all(next) == first_fault(self@.children[i as int]));
                if first_fault_all(next) is Some {
                    lemma_first_fault_all_take(self@.children, i + 1);
                }
            }
            match children[i].validate() {
                Ok(()) => {},
                Err(e) => {
                    return Err(e);
                },
            }
            i += 1;
        }
        assert(self@.children.take(i as int) =~= self@.children);
        Ok(())
    }
}

} // verus!
