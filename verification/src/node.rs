//! The node model: a closed set of five node kinds, each node owning an
//! ordered list of children.
//!
//! A node owns its children and nothing else refers to them, so a value of
//! [`ASTNode`] is a tree: no node has two owners and there is no cycle. Nodes
//! are built bottom-up and never change afterwards. No back-reference to the
//! parent is stored; the parent of a node is found from the root, by the
//! node's path (see the `path` module), so it can never disagree with the
//! ownership edges.
//!
//! Construction does not validate: a literal may be given children and an
//! operator may be given any number of them, zero included. The `shape`
//! module offers the validation.
use vstd::prelude::*;

verus! {

/// The kind of a node: an integer literal or one of the four operators.
#[allow(non_camel_case_types)]
#[derive(Clone, Copy, Debug, PartialEq, Eq, Structural)]
pub enum NodeType {
    LITERAL,
    PLUS,
    MINUS,
    MUL,
    DIV,
}

/// The mathematical tree that a node stands for: its kind, its payload and
/// the trees of its children, from left to right.
pub struct Tree<T> {
    pub kind: NodeType,
    pub value: T,
    pub children: Seq<Tree<T>>,
}

/// The trees of a list of nodes, in the same order.
pub open spec fn views<T>(nodes: Seq<ASTNode<T>>) -> Seq<Tree<T>> {
    Seq::new(nodes.len(), |i: int| nodes[i]@)
}

/// A node of any kind.
pub enum ASTNode<T> {
    Literal(ASTNodeLiteral<T>),
    Plus(ASTNodePlus<T>),
    Minus(ASTNodeMinus<T>),
    Mul(ASTNodeMul<T>),
    Div(ASTNodeDiv<T>),
}

impl<T> View for ASTNode<T> {
    type V = Tree<T>;

    open spec fn view(&self) -> Tree<T> {
        self.tree()
    }
}

impl<T> ASTNode<T> {
    /// The tree of this node: that of the variant it holds.
    pub open spec fn tree(&self) -> Tree<T>
        decreases self,
    {
        match self {
            ASTNode::Literal(n) => n.tree(),
            ASTNode::Plus(n) => n.tree(),
            ASTNode::Minus(n) => n.tree(),
            ASTNode::Mul(n) => n.tree(),
            ASTNode::Div(n) => n.tree(),
        }
    }

    /// The kind of this node.
    pub fn get_type(&self) -> (kind: NodeType)
        ensures
            kind == self@.kind,
    {
        match self {
            ASTNode::Literal(n) => n.get_type(),
            ASTNode::Plus(n) => n.get_type(),
            ASTNode::Minus(n) => n.get_type(),
            ASTNode::Mul(n) => n.get_type(),
            ASTNode::Div(n) => n.get_type(),
        }
    }

    /// The payload of this node. On an operator it is a placeholder.
    pub fn get_value(&self) -> (value: &T)
        ensures
            *value == self@.value,
    {
        match self {
            ASTNode::Literal(n) => n.get_value(),
            ASTNode::Plus(n) => n.get_value(),
            ASTNode::Minus(n) => n.get_value(),
            ASTNode::Mul(n) => n.get_value(),
            ASTNode::Div(n) => n.get_value(),
        }
    }

    /// The children of this node, in the order in which they were given.
    pub fn get_children(&self) -> (children: &Vec<ASTNode<T>>)
        ensures
            views(children@) == self@.children,
    {
        match self {
            ASTNode::Literal(n) => n.get_children(),
            ASTNode::Plus(n) => n.get_children(),
            ASTNode::Minus(n) => n.get_children(),
            ASTNode::Mul(n) => n.get_children(),
            ASTNode::Div(n) => n.get_children(),
        }
    }
}

/// A literal: its payload is the number it stands for.
pub struct ASTNodeLiteral<T> {
    value: T,
    children: Vec<ASTNode<T>>,
}

impl<T> View for ASTNodeLiteral<T> {
    type V = Tree<T>;

    open spec fn view(&self) -> Tree<T> {
        self.tree()
    }
}

impl<T> ASTNodeLiteral<T> {
    /// The tree of this node: kind `LITERAL`, the payload, and the trees of
    /// the children.
    pub closed spec fn tree(&self) -> Tree<T>
        decreases self,
    {
        Tree {
            kind: NodeType::LITERAL,
            value: self.value,
            children: Seq::new(
                self.children@.len(),
                |i: int|
                    if 0 <= i < self.children@.len() {
                        self.children@[i].tree()
                    } else {
                        arbitrary()
                    },
            ),
        }
    }

    /// Builds a literal node from its payload and its children, which it takes
    /// over as they are.
    pub fn new(value: T, children: Vec<ASTNode<T>>) -> (node: Self)
        ensures
            node@ == (Tree { kind: NodeType::LITERAL, value: value, children: views(children@) }),
    {
        let node = ASTNodeLiteral { value, children };
        assert(node@.children =~= views(node.children@));
        node
    }

    /// The kind of this node: always `LITERAL`.
    pub fn get_type(&self) -> (kind: NodeType)
        ensures
            kind == NodeType::LITERAL,
            kind == self@.kind,
    {
        NodeType::LITERAL
    }

    /// The payload of this node.
    pub fn get_value(&self) -> (value: &T)
        ensures
            *value == self@.value,
    {
        &self.value
    }

    /// The children of this node, in the order in which they were given.
    pub fn get_children(&self) -> (children: &Vec<ASTNode<T>>)
        ensures
            views(children@) == self@.children,
    {
        assert(self@.children =~= views(self.children@));
        &self.children
    }
}

/// An addition.
pub struct ASTNodePlus<T> {
    value: T,
    children: Vec<ASTNode<T>>,
}

impl<T> View for ASTNodePlus<T> {
    type V = Tree<T>;

    open spec fn view(&self) -> Tree<T> {
        self.tree()
    }
}

impl<T> ASTNodePlus<T> {
    /// The tree of this node: kind `PLUS`, the payload, and the trees of
    /// the children.
    pub closed spec fn tree(&self) -> Tree<T>
        decreases self,
    {
        Tree {
            kind: NodeType::PLUS,
            value: self.value,
            children: Seq::new(
                self.children@.len(),
                |i: int|
                    if 0 <= i < self.children@.len() {
                        self.children@[i].tree()
                    } else {
                        arbitrary()
                    },
            ),
        }
    }

    /// Builds an addition node from its payload and its children, which it takes
    /// over as they are.
    pub fn new(value: T, children: Vec<ASTNode<T>>) -> (node: Self)
        ensures
            node@ == (Tree { kind: NodeType::PLUS, value: value, children: views(children@) }),
    {
        let node = ASTNodePlus { value, children };
        assert(node@.children =~= views(node.children@));
        node
    }

    /// The kind of this node: always `PLUS`.
    pub fn get_type(&self) -> (kind: NodeType)
        ensures
            kind == NodeType::PLUS,
            kind == self@.kind,
    {
        NodeType::PLUS
    }

    /// The payload of this node. It is a placeholder.
    pub fn get_value(&self) -> (value: &T)
        ensures
            *value == self@.value,
    {
        &self.value
    }

    /// The children of this node, in the order in which they were given.
    pub fn get_children(&self) -> (children: &Vec<ASTNode<T>>)
        ensures
            views(children@) == self@.children,
    {
        assert(self@.children =~= views(self.children@));
        &self.children
    }
}

/// A subtraction.
pub struct ASTNodeMinus<T> {
    value: T,
    children: Vec<ASTNode<T>>,
}

impl<T> View for ASTNodeMinus<T> {
    type V = Tree<T>;

    open spec fn view(&self) -> Tree<T> {
        self.tree()
    }
}

impl<T> ASTNodeMinus<T> {
    /// The tree of this node: kind `MINUS`, the payload, and the trees of
    /// the children.
    pub closed spec fn tree(&self) -> Tree<T>
        decreases self,
    {
        Tree {
            kind: NodeType::MINUS,
            value: self.value,
            children: Seq::new(
                self.children@.len(),
                |i: int|
                    if 0 <= i < self.children@.len() {
                        self.children@[i].tree()
                    } else {
                        arbitrary()
                    },
            ),
        }
    }

    /// Builds a subtraction node from its payload and its children, which it takes
    /// over as they are.
    pub fn new(value: T, children: Vec<ASTNode<T>>) -> (node: Self)
        ensures
            node@ == (Tree { kind: NodeType::MINUS, value: value, children: views(children@) }),
    {
        let node = ASTNodeMinus { value, children };
        assert(node@.children =~= views(node.children@));
        node
    }

    /// The kind of this node: always `MINUS`.
    pub fn get_type(&self) -> (kind: NodeType)
        ensures
            kind == NodeType::MINUS,
            kind == self@.kind,
    {
        NodeType::MINUS
    }

    /// The payload of this node. It is a placeholder.
    pub fn get_value(&self) -> (value: &T)
        ensures
            *value == self@.value,
    {
        &self.value
    }

    /// The children of this node, in the order in which they were given.
    pub fn get_children(&self) -> (children: &Vec<ASTNode<T>>)
        ensures
            views(children@) == self@.children,
    {
        assert(self@.children =~= views(self.children@));
        &self.children
    }
}

/// A multiplication.
pub struct ASTNodeMul<T> {
    value: T,
    children: Vec<ASTNode<T>>,
}

impl<T> View for ASTNodeMul<T> {
    type V = Tree<T>;

    open spec fn view(&self) -> Tree<T> {
        self.tree()
    }
}

impl<T> ASTNodeMul<T> {
    /// The tree of this node: kind `MUL`, the payload, and the trees of
    /// the children.
    pub closed spec fn tree(&self) -> Tree<T>
        decreases self,
    {
        Tree {
            kind: NodeType::MUL,
            value: self.value,
            children: Seq::new(
                self.children@.len(),
                |i: int|
                    if 0 <= i < self.children@.len() {
                        self.children@[i].tree()
                    } else {
                        arbitrary()
                    },
            ),
        }
    }

    /// Builds a multiplication node from its payload and its children, which it takes
    /// over as they are.
    pub fn new(value: T, children: Vec<ASTNode<T>>) -> (node: Self)
        ensures
            node@ == (Tree { kind: NodeType::MUL, value: value, children: views(children@) }),
    {
        let node = ASTNodeMul { value, children };
        assert(node@.children =~= views(node.children@));
        node
    }

    /// The kind of this node: always `MUL`.
    pub fn get_type(&self) -> (kind: NodeType)
        ensures
            kind == NodeType::MUL,
            kind == self@.kind,
    {
        NodeType::MUL
    }

    /// The payload of this node. It is a placeholder.
    pub fn get_value(&self) -> (value: &T)
        ensures
            *value == self@.value,
    {
        &self.value
    }

    /// The children of this node, in the order in which they were given.
    pub fn get_children(&self) -> (children: &Vec<ASTNode<T>>)
        ensures
            views(children@) == self@.children,
    {
        assert(self@.children =~= views(self.children@));
        &self.children
    }
}

/// A division.
pub struct ASTNodeDiv<T> {
    value: T,
    children: Vec<ASTNode<T>>,
}

impl<T> View for ASTNodeDiv<T> {
    type V = Tree<T>;

    open spec fn view(&self) -> Tree<T> {
        self.tree()
    }
}

impl<T> ASTNodeDiv<T> {
    /// The tree of this node: kind `DIV`, the payload, and the trees of
    /// the children.
    pub closed spec fn tree(&self) -> Tree<T>
        decreases self,
    {
        Tree {
            kind: NodeType::DIV,
            value: self.value,
            children: Seq::new(
                self.children@.len(),
                |i: int|
                    if 0 <= i < self.children@.len() {
                        self.children@[i].tree()
                    } else {
                        arbitrary()
                    },
            ),
        }
    }

    /// Builds a division node from its payload and its children, which it takes
    /// over as they are.
    pub fn new(value: T, children: Vec<ASTNode<T>>) -> (node: Self)
        ensures
            node@ == (Tree { kind: NodeType::DIV, value: value, children: views(children@) }),
    {
        let node = ASTNodeDiv { value, children };
        assert(node@.children =~= views(node.children@));
        node
    }

    /// The kind of this node: always `DIV`.
    pub fn get_type(&self) -> (kind: NodeType)
        ensures
            kind == NodeType::DIV,
            kind == self@.kind,
    {
        NodeType::DIV
    }

    /// The payload of this node. It is a placeholder.
    pub fn get_value(&self) -> (value: &T)
        ensures
            *value == self@.value,
    {
        &self.value
    }

    /// The children of this node, in the order in which they were given.
    pub fn get_children(&self) -> (children: &Vec<ASTNode<T>>)
        ensures
            views(children@) == self@.children,
    {
        assert(self@.children =~= views(self.children@));
        &self.children
    }
}

} // verus!
