use ast_visitor::decimal::to_decimal;
use ast_visitor::node::{
    ASTNode, ASTNodeDiv, ASTNodeLiteral, ASTNodeMinus, ASTNodeMul, ASTNodePlus, NodeType,
};
use ast_visitor::print::ASTPrintVisitor;
use ast_visitor::visitor::ASTVisitor;

fn lit(v: i32) -> ASTNode<i32> {
    ASTNode::Literal(ASTNodeLiteral::new(v, vec![]))
}

/// 2 + 3 * 4
fn sample() -> ASTNode<i32> {
    ASTNode::Plus(ASTNodePlus::new(
        0,
        vec![lit(2), ASTNode::Mul(ASTNodeMul::new(0, vec![lit(3), lit(4)]))],
    ))
}

#[test]
fn renders_sum_of_literal_and_product() {
    let visitor = ASTPrintVisitor;
    assert_eq!(visitor.visit(&sample()), "+ (2 * (3 4 ))");
}

#[test]
fn renders_single_literal() {
    let visitor = ASTPrintVisitor;
    assert_eq!(visitor.visit(&lit(5)), "5 ");
}

#[test]
fn renders_all_children_of_a_ternary_minus() {
    let visitor = ASTPrintVisitor;
    let node = ASTNode::Minus(ASTNodeMinus::new(0, vec![lit(1), lit(2), lit(3)]));
    assert_eq!(visitor.visit(&node), "- (1 2 3 )");
}

#[test]
fn renders_each_operator_with_its_symbol() {
    let visitor = ASTPrintVisitor;
    assert_eq!(
        visitor.visit(&ASTNode::Plus(ASTNodePlus::new(0, vec![lit(1), lit(2)]))),
        "+ (1 2 )"
    );
    assert_eq!(
        visitor.visit(&ASTNode::Minus(ASTNodeMinus::new(0, vec![lit(1), lit(2)]))),
        "- (1 2 )"
    );
    assert_eq!(
        visitor.visit(&ASTNode::Mul(ASTNodeMul::new(0, vec![lit(1), lit(2)]))),
        "* (1 2 )"
    );
    assert_eq!(
        visitor.visit(&ASTNode::Div(ASTNodeDiv::new(0, vec![lit(1), lit(2)]))),
        "/ (1 2 )"
    );
}

#[test]
fn renders_operator_without_children() {
    let visitor = ASTPrintVisitor;
    assert_eq!(visitor.visit(&ASTNode::Div(ASTNodeDiv::new(0, vec![]))), "/ ()");
}

#[test]
fn operator_payload_is_not_rendered() {
    let visitor = ASTPrintVisitor;
    let node = ASTNode::Plus(ASTNodePlus::new(77, vec![lit(1)]));
    assert_eq!(visitor.visit(&node), "+ (1 )");
}

#[test]
fn children_of_a_literal_are_not_rendered() {
    let visitor = ASTPrintVisitor;
    let node = ASTNode::Literal(ASTNodeLiteral::new(9, vec![lit(1), lit(2)]));
    assert_eq!(visitor.visit(&node), "9 ");
}

#[test]
fn visiting_twice_gives_the_same_text() {
    let visitor = ASTPrintVisitor;
    let tree = sample();
    let first = visitor.visit(&tree);
    let second = visitor.visit(&tree);
    assert_eq!(first, second);
    let other = ASTPrintVisitor;
    assert_eq!(other.visit(&tree), first);
}

#[test]
fn visit_into_appends_to_what_is_there() {
    let visitor = ASTPrintVisitor;
    let mut out = String::from("= ");
    visitor.visit_into(&sample(), &mut out);
    assert_eq!(out, "= + (2 * (3 4 ))");
    visitor.visit_into(&lit(-7), &mut out);
    assert_eq!(out, "= + (2 * (3 4 ))-7 ");
}

#[test]
fn renders_nested_operators_left_to_right() {
    let visitor = ASTPrintVisitor;
    let left = ASTNode::Minus(ASTNodeMinus::new(0, vec![lit(10), lit(-3)]));
    let right = ASTNode::Div(ASTNodeDiv::new(0, vec![lit(8), lit(0)]));
    let root = ASTNode::Mul(ASTNodeMul::new(0, vec![left, right]));
    assert_eq!(visitor.visit(&root), "* (- (10 -3 )/ (8 0 ))");
}

#[test]
fn decimal_of_zero_and_small_numbers() {
    assert_eq!(to_decimal(0), "0");
    assert_eq!(to_decimal(7), "7");
    assert_eq!(to_decimal(10), "10");
    assert_eq!(to_decimal(-1), "-1");
    assert_eq!(to_decimal(1234567890), "1234567890");
}

#[test]
fn decimal_of_the_extremes() {
    assert_eq!(to_decimal(i32::MAX), "2147483647");
    assert_eq!(to_decimal(i32::MIN), "-2147483648");
    assert_eq!(to_decimal(i32::MIN + 1), "-2147483647");
}

#[test]
fn decimal_agrees_with_the_standard_notation() {
    for v in [-100000, -99999, -101, -10, -9, 9, 99, 100, 101, 5005, 65536, 1000000000] {
        assert_eq!(to_decimal(v), format!("{}", v));
    }
}

#[test]
fn getters_of_a_node() {
    let tree = sample();
    assert_eq!(tree.get_type(), NodeType::PLUS);
    assert_eq!(*tree.get_value(), 0);
    let children = tree.get_children();
    assert_eq!(children.len(), 2);
    assert_eq!(children[0].get_type(), NodeType::LITERAL);
    assert_eq!(*children[0].get_value(), 2);
    assert!(children[0].get_children().is_empty());
    assert_eq!(children[1].get_type(), NodeType::MUL);
    assert_eq!(*children[1].get_children()[0].get_value(), 3);
    assert_eq!(*children[1].get_children()[1].get_value(), 4);
}

#[test]
fn getters_of_each_kind() {
    let l = ASTNodeLiteral::new(5, vec![]);
    assert_eq!(l.get_type(), NodeType::LITERAL);
    assert_eq!(*l.get_value(), 5);
    assert!(l.get_children().is_empty());
    let p = ASTNodePlus::new(1, vec![lit(1)]);
    assert_eq!(p.get_type(), NodeType::PLUS);
    assert_eq!(*p.get_value(), 1);
    assert_eq!(p.get_children().len(), 1);
    let m = ASTNodeMinus::new(2, vec![lit(1), lit(2)]);
    assert_eq!(m.get_type(), NodeType::MINUS);
    assert_eq!(*m.get_value(), 2);
    assert_eq!(m.get_children().len(), 2);
    let x = ASTNodeMul::new(3, vec![lit(1), lit(2), lit(3)]);
    assert_eq!(x.get_type(), NodeType::MUL);
    assert_eq!(*x.get_value(), 3);
    assert_eq!(x.get_children().len(), 3);
    let d = ASTNodeDiv::new(4, vec![]);
    assert_eq!(d.get_type(), NodeType::DIV);
    assert_eq!(*d.get_value(), 4);
    assert!(d.get_children().is_empty());
}

#[test]
fn renders_tokens_in_the_order_of_the_walk() {
    let visitor = ASTPrintVisitor;
    let tokens = ["+ (", "2 ", "* (", "3 ", "4 ", ")", ")"];
    assert_eq!(visitor.visit(&sample()), tokens.concat());
}
