use ast_visitor::node::{ASTNode, ASTNodeDiv, ASTNodeLiteral, ASTNodeMinus, ASTNodeMul, ASTNodePlus};
use ast_visitor::print::ASTPrintVisitor;
use ast_visitor::stack::ASTStackPrintVisitor;
use ast_visitor::visitor::ASTVisitor;

fn lit(v: i32) -> ASTNode<i32> {
    ASTNode::Literal(ASTNodeLiteral::new(v, vec![]))
}

#[test]
fn stack_visitor_renders_sum_of_literal_and_product() {
    let tree = ASTNode::Plus(ASTNodePlus::new(
        0,
        vec![lit(2), ASTNode::Mul(ASTNodeMul::new(0, vec![lit(3), lit(4)]))],
    ));
    assert_eq!(ASTStackPrintVisitor.visit(&tree), "+ (2 * (3 4 ))");
}

#[test]
fn stack_visitor_renders_single_literal() {
    assert_eq!(ASTStackPrintVisitor.visit(&lit(5)), "5 ");
    assert_eq!(ASTStackPrintVisitor.visit(&lit(-12)), "-12 ");
}

#[test]
fn stack_visitor_renders_all_children_of_a_ternary_minus() {
    let node = ASTNode::Minus(ASTNodeMinus::new(0, vec![lit(1), lit(2), lit(3)]));
    assert_eq!(ASTStackPrintVisitor.visit(&node), "- (1 2 3 )");
}

#[test]
fn stack_visitor_renders_operator_without_children() {
    assert_eq!(ASTStackPrintVisitor.visit(&ASTNode::Plus(ASTNodePlus::new(0, vec![]))), "+ ()");
}

#[test]
fn stack_visitor_does_not_render_children_of_a_literal() {
    let odd = ASTNode::Literal(ASTNodeLiteral::new(9, vec![lit(1), lit(2)]));
    let tree = ASTNode::Div(ASTNodeDiv::new(0, vec![odd, lit(3)]));
    assert_eq!(ASTStackPrintVisitor.visit(&tree), "/ (9 3 )");
}

#[test]
fn stack_visitor_appends_to_what_is_there() {
    let mut out = String::from("> ");
    let tree = ASTNode::Mul(ASTNodeMul::new(0, vec![lit(6), lit(7)]));
    ASTStackPrintVisitor.visit_into(&tree, &mut out);
    assert_eq!(out, "> * (6 7 )");
}

#[test]
fn both_print_visitors_render_the_same_text() {
    let left = ASTNode::Minus(ASTNodeMinus::new(0, vec![lit(10), lit(-3), lit(7)]));
    let middle = ASTNode::Div(ASTNodeDiv::new(0, vec![]));
    let inner = ASTNode::Plus(ASTNodePlus::new(0, vec![lit(i32::MIN), lit(i32::MAX)]));
    let right = ASTNode::Mul(ASTNodeMul::new(0, vec![inner, lit(0)]));
    let tree = ASTNode::Plus(ASTNodePlus::new(0, vec![left, middle, right, lit(1)]));
    let expected = "+ (- (10 -3 7 )/ ()* (+ (-2147483648 2147483647 )0 )1 )";
    assert_eq!(ASTPrintVisitor.visit(&tree), expected);
    assert_eq!(ASTStackPrintVisitor.visit(&tree), expected);
}

#[test]
fn stack_visitor_renders_a_deep_chain() {
    let depth = 3000;
    let mut tree = lit(0);
    for _ in 0..depth {
        tree = ASTNode::Plus(ASTNodePlus::new(0, vec![tree, lit(1)]));
    }
    let mut expected = String::new();
    for _ in 0..depth {
        expected.push_str("+ (");
    }
    expected.push_str("0 ");
    for _ in 0..depth {
        expected.push_str("1 )");
    }
    assert_eq!(ASTStackPrintVisitor.visit(&tree), expected);
}
