use ast_visitor::node::{ASTNode, ASTNodeLiteral, ASTNodeMinus, ASTNodeMul, ASTNodePlus, NodeType};

fn lit(v: i32) -> ASTNode<i32> {
    ASTNode::Literal(ASTNodeLiteral::new(v, vec![]))
}

/// 2 + 3 * (4 - 5)
fn deep() -> ASTNode<i32> {
    let minus = ASTNode::Minus(ASTNodeMinus::new(0, vec![lit(4), lit(5)]));
    let mul = ASTNode::Mul(ASTNodeMul::new(0, vec![lit(3), minus]));
    ASTNode::Plus(ASTNodePlus::new(0, vec![lit(2), mul]))
}

#[test]
fn empty_path_is_the_root() {
    let tree = deep();
    let found = tree.get_descendant(&[]).unwrap();
    assert!(std::ptr::eq(found, &tree));
    assert_eq!(found.get_type(), NodeType::PLUS);
}

#[test]
fn path_leads_to_the_node() {
    let tree = deep();
    assert_eq!(*tree.get_descendant(&[0]).unwrap().get_value(), 2);
    assert_eq!(tree.get_descendant(&[1]).unwrap().get_type(), NodeType::MUL);
    assert_eq!(*tree.get_descendant(&[1, 0]).unwrap().get_value(), 3);
    assert_eq!(tree.get_descendant(&[1, 1]).unwrap().get_type(), NodeType::MINUS);
    assert_eq!(*tree.get_descendant(&[1, 1, 0]).unwrap().get_value(), 4);
    assert_eq!(*tree.get_descendant(&[1, 1, 1]).unwrap().get_value(), 5);
}

#[test]
fn path_that_leaves_the_tree_finds_nothing() {
    let tree = deep();
    assert!(tree.get_descendant(&[2]).is_none());
    assert!(tree.get_descendant(&[0, 0]).is_none());
    assert!(tree.get_descendant(&[1, 1, 2]).is_none());
    assert!(tree.get_descendant(&[1, 1, 1, 0]).is_none());
    assert!(tree.get_descendant(&[usize::MAX]).is_none());
}

#[test]
fn root_has_no_parent() {
    let tree = deep();
    assert!(tree.get_parent(&[]).is_none());
    assert!(lit(1).get_parent(&[]).is_none());
}

#[test]
fn parent_is_one_step_up() {
    let tree = deep();
    let parent = tree.get_parent(&[0]).unwrap();
    assert!(std::ptr::eq(parent, &tree));
    let parent = tree.get_parent(&[1, 0]).unwrap();
    assert_eq!(parent.get_type(), NodeType::MUL);
    assert!(std::ptr::eq(parent, tree.get_descendant(&[1]).unwrap()));
    let parent = tree.get_parent(&[1, 1, 1]).unwrap();
    assert_eq!(parent.get_type(), NodeType::MINUS);
    assert!(std::ptr::eq(parent, tree.get_descendant(&[1, 1]).unwrap()));
}

#[test]
fn no_parent_for_a_path_that_leaves_the_tree() {
    let tree = deep();
    assert!(tree.get_parent(&[2]).is_none());
    assert!(tree.get_parent(&[0, 0]).is_none());
    assert!(tree.get_parent(&[5, 0]).is_none());
    assert!(tree.get_parent(&[1, 1, 2]).is_none());
}

#[test]
fn parent_owns_the_child_it_is_asked_for() {
    let tree = deep();
    let paths: Vec<Vec<usize>> =
        vec![vec![0], vec![1], vec![1, 0], vec![1, 1], vec![1, 1, 0], vec![1, 1, 1]];
    for path in &paths {
        let node = tree.get_descendant(path).unwrap();
        let parent = tree.get_parent(path).unwrap();
        let last = path[path.len() - 1];
        assert!(std::ptr::eq(&parent.get_children()[last], node));
    }
}

#[test]
fn different_places_hold_different_nodes() {
    let tree = deep();
    let paths: Vec<Vec<usize>> = vec![
        vec![],
        vec![0],
        vec![1],
        vec![1, 0],
        vec![1, 1],
        vec![1, 1, 0],
        vec![1, 1, 1],
    ];
    for a in 0..paths.len() {
        for b in 0..paths.len() {
            let first = tree.get_descendant(&paths[a]).unwrap();
            let second = tree.get_descendant(&paths[b]).unwrap();
            assert_eq!(std::ptr::eq(first, second), a == b);
        }
    }
}
