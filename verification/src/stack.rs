//! Rendering without recursion: the same walk as that of the print visitor,
//! with the nodes that are still open kept on a stack in the heap, so that
//! a deep tree cannot exhaust the call stack.
use vstd::prelude::*;
use crate::decimal::append_decimal;
use crate::node::{ASTNode, NodeType, Tree};
use crate::print::{opening, opening_str, render, render_all};
use crate::visitor::ASTVisitor;

verus! {

/// The renderings of a non-empty list of trees are the rendering of the
/// first and then those of the others.
proof fn lemma_render_all_first(trees: Seq<Tree<i32>>)
    requires
        trees.len() > 0,
    ensures
        render_all(trees) == render(trees.first()) + render_all(trees.drop_first()),
    decreases trees.len(),
{
    if trees.len() == 1 {
        assert(trees.drop_last() =~= Seq::<Tree<i32>>::empty());
        assert(trees.drop_first() =~= Seq::<Tree<i32>>::empty());
        assert(render_all(trees.drop_last()) =~= Seq::<char>::empty());
        assert(render_all(trees) =~= render(trees.first()) + render_all(trees.drop_first()));
    } else {
        let init = trees.drop_last();
        let tail = trees.drop_first();
        lemma_render_all_first(init);
        assert(init.first() == trees.first());
        assert(tail.last() == trees.last());
        assert(tail.drop_last() =~= init.drop_first());
        assert(render_all(trees) =~= render(trees.first()) + render_all(tail));
    }
}

/// What is still to be written for an open operator whose children before
/// `next` are done: the other children, and the closing bracket.
pub open spec fn rest_of(tree: Tree<i32>, next: int) -> Seq<char> {
    render_all(tree.children.skip(next)) + seq![')']
}

/// What is still to be written for all the open operators of a work stack,
/// the innermost, which is the last, first.
pub open spec fn pending(open: Seq<(&ASTNode<i32>, usize)>) -> Seq<char>
    decreases open.len(),
{
    if open.len() == 0 {
        Seq::empty()
    } else {
        rest_of(open.last().0@, open.last().1 as int) + pending(open.drop_last())
    }
}

/// Every entry of a work stack is an operator and an index that is at most
/// the number of its children.
pub open spec fn stack_ok(open: Seq<(&ASTNode<i32>, usize)>) -> bool {
    forall|k: int|
        0 <= k < open.len() ==> (#[trigger] open[k]).0@.kind != NodeType::LITERAL && open[k].1
            <= open[k].0@.children.len()
}

/// The visitor that renders a tree of 32-bit integers as text, as
/// `ASTPrintVisitor` does, with a work stack of its own.
pub struct ASTStackPrintVisitor;

impl ASTStackPrintVisitor {
    /// The dispatch step on `node`: writes a literal whole; writes the
    /// opening of an operator and puts the operator on the work stack.
    fn enter<'a>(
        &self,
        node: &'a ASTNode<i32>,
        out: &mut String,
        open: &mut Vec<(&'a ASTNode<i32>, usize)>,
    )
        requires
            stack_ok(old(open)@),
        ensures
            stack_ok(final(open)@),
            final(out)@ + pending(final(open)@) == old(out)@ + render(node@) + pending(
                old(open)@,
            ),
            final(out)@.len() > old(out)@.len(),
    {
        let ghost before = out@;
        let ghost waiting = pending(open@);
        let kind = node.get_type();
        match kind {
            NodeType::LITERAL => {
                append_decimal(out, *node.get_value());
                proof {
                    reveal_strlit(" ");
                }
                out.append(" ");
                assert(out@ =~= before + render(node@));
            },
            _ => {
                out.append(opening_str(kind));
                let ghost below = open@;
                open.push((node, 0));
                proof {
                    assert(open@.drop_last() =~= below);
                    assert(node@.children.skip(0) =~= node@.children);
                    assert(out@ + pending(open@) =~= before + render(node@) + waiting);
                }
            },
        }
    }

    /// Appends the rendering of the tree below `node` to `out`.
    pub fn visit_into(&self, node: &ASTNode<i32>, out: &mut String)
        ensures
            final(out)@ == old(out)@ + render(node@),
    {
        let ghost before = out@;
        let mut open: Vec<(&ASTNode<i32>, usize)> = Vec::new();
        self.enter(node, out, &mut open);
        while open.len() > 0
            invariant
                stack_ok(open@),
                out@ + pending(open@) == before + render(node@),
            decreases pending(open@).len(),
        {
            let ghost written = out@;
            let ghost waiting = pending(open@);
            let ghost whole = open@;
            let (top, next): (&ASTNode<i32>, usize) = open.pop().unwrap();
            let ghost below = open@;
            assert(below =~= whole.drop_last());
            assert(whole.last() == (top, next));
            let children = top.get_children();
            if next < children.len() {
                open.push((top, next + 1));
                proof {
                    let others = top@.children.skip(next as int);
                    lemma_render_all_first(others);
                    assert(others.first() == top@.children[next as int]);
                    assert(others.drop_first() =~= top@.children.skip(next + 1));
                    assert(open@.drop_last() =~= below);
                    assert(children[next as int]@ == top@.children[next as int]);
                    assert(waiting =~= render(children[next as int]@) + pending(open@));
                }
                self.enter(&children[next], out, &mut open);
                proof {
                    assert(out@ + pending(open@) =~= written + waiting);
                    assert((out@ + pending(open@)).len() == (written + waiting).len());
                }
            } else {
                proof {
                    reveal_strlit(")");
                    assert(top@.children.skip(next as int) =~= Seq::<Tree<i32>>::empty());
                    assert(waiting =~= seq![')'] + pending(below));
                }
                out.append(")");
                assert(out@ + pending(open@) =~= written + waiting);
            }
        }
        assert(out@ =~= before + render(node@));
    }
}

impl ASTVisitor<i32> for ASTStackPrintVisitor {
    type Output = String;

    open spec fn outcome(&self, tree: Tree<i32>) -> Seq<char> {
        render(tree)
    }

    /// Renders the tree below `node`.
    fn visit(&self, node: &ASTNode<i32>) -> (out: String) {
        let mut out = String::new();
        self.visit_into(node, &mut out);
        assert(out@ =~= render(node@));
        out
    }
}

} // verus!
