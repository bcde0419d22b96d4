//! The print visitor: a tree of 32-bit integers as text in prefix form.
//!
//! A literal is written as its number and one blank; an operator as its
//! character, a blank, an opening bracket, its children from left to right
//! and a closing bracket. No line end is written. A literal ends the
//! descent: children that a literal was given are not written.
use vstd::prelude::*;
use crate::decimal::{append_decimal, decimal, digit, digits};
use crate::node::{ASTNode, NodeType, Tree, views};
use crate::traversal::{steps, steps_all};
use crate::visitor::ASTVisitor;

verus! {

/// The character of an operator; a blank for a literal, which has none.
pub open spec fn symbol(kind: NodeType) -> char {
    match kind {
        NodeType::LITERAL => ' ',
        NodeType::PLUS => '+',
        NodeType::MINUS => '-',
        NodeType::MUL => '*',
        NodeType::DIV => '/',
    }
}

/// What opens the rendering of an operator: its character, a blank and an
/// opening bracket.
pub open spec fn opening(kind: NodeType) -> Seq<char> {
    seq![symbol(kind), ' ', '(']
}

/// The rendering of a tree. A literal is its number in decimal and one blank.
/// An operator is its opening, the renderings of its children from left to
/// right with nothing between them, and a closing bracket.
pub open spec fn render(tree: Tree<i32>) -> Seq<char>
    decreases tree,
{
    if tree.kind == NodeType::LITERAL {
        decimal(tree.value as int) + seq![' ']
    } else {
        opening(tree.kind) + render_all(tree.children) + seq![')']
    }
}

/// The renderings of a list of trees, one after the other.
pub open spec fn render_all(trees: Seq<Tree<i32>>) -> Seq<char>
    decreases trees,
{
    if trees.len() == 0 {
        Seq::empty()
    } else {
        render_all(trees.drop_last()) + render(trees.last())
    }
}

/// The text that opens the rendering of an operator.
pub(crate) fn opening_str(kind: NodeType) -> (s: &'static str)
    requires
        kind != NodeType::LITERAL,
    ensures
        s@ == opening(kind),
{
    proof {
        reveal_strlit("+ (");
        reveal_strlit("- (");
        reveal_strlit("* (");
        reveal_strlit("/ (");
    }
    let s: &'static str = match kind {
        NodeType::PLUS => "+ (",
        NodeType::MINUS => "- (",
        NodeType::MUL => "* (",
        _ => "/ (",
    };
    assert(s@ =~= opening(kind));
    s
}

/// The visitor that renders a tree of 32-bit integers as text.
pub struct ASTPrintVisitor;

impl ASTPrintVisitor {
    /// Appends the rendering of the tree below `node` to `out`.
    pub fn visit_into(&self, node: &ASTNode<i32>, out: &mut String)
        ensures
            final(out)@ == old(out)@ + render(node@),
        decreases node@,
    {
        let ghost before = out@;
        let kind = node.get_type();
        match kind {
            NodeType::LITERAL => {
                append_decimal(out, *node.get_value());
                proof {
                    reveal_strlit(" ");
                }
                out.append(" ");
                assert(out@ =~= before + render(node@));
            },
            _ => {
                out.append(opening_str(kind));
                let children = node.get_children();
                let mut i: usize = 0;
                while i < children.len()
                    invariant
                        i <= children.len(),
                        views(children@) == node@.children,
                        out@ == before + opening(kind) + render_all(node@.children.take(i as int)),
                    decreases children.len() - i,
                {
                    assert(children[i as int]@ == node@.children[i as int]);
                    self.visit_into(&children[i], out);
                    proof {
                        let next = node@.children.take(i + 1);
                        assert(next.drop_last() =~= node@.children.take(i as int));
                        assert(next.last() == node@.children[i as int]);
                        assert(out@ =~= before + opening(kind) + render_all(next));
                    }
                    i += 1;
                }
                proof {
                    reveal_strlit(")");
                    assert(node@.children.take(i as int) =~= node@.children);
                }
                out.append(")");
                assert(out@ =~= before + render(node@));
            },
        }
    }
}

impl ASTVisitor<i32> for ASTPrintVisitor {
    type Output = String;

    open spec fn outcome(&self, tree: Tree<i32>) -> Seq<char> {
        render(tree)
    }

    /// Renders the tree below `node`.
    fn visit(&self, node: &ASTNode<i32>) -> (out: String) {
        let mut out = String::new();
        self.visit_into(node, &mut out);
        assert(out@ =~= render(node@));
        out
    }
}

/// The number of blanks in a text.
pub open spec fn blanks(text: Seq<char>) -> nat
    decreases text.len(),
{
    if text.len() == 0 {
        0
    } else if text.last() == ' ' {
        blanks(text.drop_last()) + 1
    } else {
        blanks(text.drop_last())
    }
}

/// The blanks of two texts put together are those of the one and those of
/// the other.
proof fn lemma_blanks_add(a: Seq<char>, b: Seq<char>)
    ensures
        blanks(a + b) == blanks(a) + blanks(b),
    decreases b.len(),
{
    if b.len() == 0 {
        assert(a + b =~= a);
    } else {
        assert((a + b).drop_last() =~= a + b.drop_last());
        lemma_blanks_add(a, b.drop_last());
    }
}

/// A text of one character has one blank if that character is a blank, and
/// none otherwise.
proof fn lemma_blanks_one(c: char)
    ensures
        blanks(seq![c]) == if c == ' ' {
            1nat
        } else {
            0nat
        },
{
    reveal_with_fuel(blanks, 2);
    assert(seq![c].drop_last() =~= Seq::<char>::empty());
    assert(seq![c].last() == c);
}

/// The digits of a number hold no blank.
proof fn lemma_digits_no_blank(n: nat)
    ensures
        blanks(digits(n)) == 0,
    decreases n,
{
    if n < 10 {
        lemma_blanks_one(digit(n as int));
    } else {
        lemma_digits_no_blank(n / 10);
        let shorter = digits(n / 10);
        let last = digit((n % 10) as int);
        assert(shorter.push(last).drop_last() =~= shorter);
        assert(shorter.push(last).last() == last);
    }
}

/// The rendering shows each dispatch step of the walk by one blank: it
/// holds as many blanks as the walk makes steps.
pub proof fn lemma_render_blanks(tree: Tree<i32>)
    ensures
        blanks(render(tree)) == steps(tree),
    decreases tree, 1int,
{
    if tree.kind == NodeType::LITERAL {
        let number = decimal(tree.value as int);
        if tree.value < 0 {
            lemma_blanks_one('-');
            lemma_digits_no_blank((-tree.value) as nat);
            lemma_blanks_add(seq!['-'], digits((-tree.value) as nat));
        } else {
            lemma_digits_no_blank(tree.value as nat);
        }
        lemma_blanks_one(' ');
        lemma_blanks_add(number, seq![' ']);
    } else {
        let open = opening(tree.kind);
        let inner = render_all(tree.children);
        assert(open =~= seq![symbol(tree.kind)] + seq![' '] + seq!['(']);
        lemma_blanks_one(symbol(tree.kind));
        lemma_blanks_one(' ');
        lemma_blanks_one('(');
        lemma_blanks_one(')');
        lemma_blanks_add(seq![symbol(tree.kind)], seq![' ']);
        lemma_blanks_add(seq![symbol(tree.kind)] + seq![' '], seq!['(']);
        lemma_render_all_blanks(tree.children);
        lemma_blanks_add(open, inner);
        lemma_blanks_add(open + inner, seq![')']);
    }
}

/// The same for a list of trees.
pub proof fn lemma_render_all_blanks(trees: Seq<Tree<i32>>)
    ensures
        blanks(render_all(trees)) == steps_all(trees),
    decreases trees, 0int,
{
    if trees.len() > 0 {
        lemma_render_all_blanks(trees.drop_last());
        lemma_render_blanks(trees.last());
        lemma_blanks_add(render_all(trees.drop_last()), render(trees.last()));
    }
}

} // verus!
