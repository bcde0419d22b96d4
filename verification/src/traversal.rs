//! The walk that every visitor makes, as mathematics: which nodes it
//! dispatches on, in what order, and how many they are.
//!
//! The walk is depth-first and left-to-right, and it does not descend below
//! a literal. In a tree whose literals are leaves it therefore dispatches on
//! every node exactly once.
use vstd::prelude::*;
use vstd::seq_lib::lemma_no_dup_in_concat;
use crate::node::{NodeType, Tree};
use crate::path::node_at;

verus! {

/// The number of nodes of a tree.
pub open spec fn size<T>(tree: Tree<T>) -> nat
    decreases tree,
{
    1 + size_all(tree.children)
}

/// The number of nodes of a list of trees.
pub open spec fn size_all<T>(trees: Seq<Tree<T>>) -> nat
    decreases trees,
{
    if trees.len() == 0 {
        0
    } else {
        size_all(trees.drop_last()) + size(trees.last())
    }
}

/// The number of dispatch steps of one walk over a tree: one for the root
/// and, unless the root is a literal, those of the walks over its children.
pub open spec fn steps<T>(tree: Tree<T>) -> nat
    decreases tree,
{
    if tree.kind == NodeType::LITERAL {
        1
    } else {
        1 + steps_all(tree.children)
    }
}

/// The number of dispatch steps of the walks over a list of trees.
pub open spec fn steps_all<T>(trees: Seq<Tree<T>>) -> nat
    decreases trees,
{
    if trees.len() == 0 {
        0
    } else {
        steps_all(trees.drop_last()) + steps(trees.last())
    }
}

/// Every literal in the tree is a leaf.
pub open spec fn literals_are_leaves<T>(tree: Tree<T>) -> bool
    decreases tree,
{
    &&& tree.kind == NodeType::LITERAL ==> tree.children.len() == 0
    &&& forall|i: int|
        0 <= i < tree.children.len() ==> literals_are_leaves(#[trigger] tree.children[i])
}

/// Each path of `paths` with `index` put before it.
pub open spec fn below(index: int, paths: Seq<Seq<int>>) -> Seq<Seq<int>> {
    Seq::new(paths.len(), |k: int| seq![index] + paths[k])
}

/// The paths of the nodes that one walk over a tree dispatches on, in the
/// order of the dispatch steps.
pub open spec fn visit_order<T>(tree: Tree<T>) -> Seq<Seq<int>>
    decreases tree,
{
    if tree.kind == NodeType::LITERAL {
        seq![Seq::<int>::empty()]
    } else {
        seq![Seq::<int>::empty()] + visit_order_all(tree.children)
    }
}

/// The paths that the walks over a list of trees dispatch on, each below
/// the index of its tree in the list.
pub open spec fn visit_order_all<T>(trees: Seq<Tree<T>>) -> Seq<Seq<int>>
    decreases trees,
{
    if trees.len() == 0 {
        Seq::empty()
    } else {
        visit_order_all(trees.drop_last()) + below(
            trees.len() - 1,
            visit_order(trees.last()),
        )
    }
}

/// The walk reaches the node at `path`: the path stays inside the tree and
/// passes through no literal on its way down.
pub open spec fn walked<T>(tree: Tree<T>, path: Seq<int>) -> bool
    decreases path.len(),
{
    path.len() == 0 || (tree.kind != NodeType::LITERAL && 0 <= path[0] < tree.children.len()
        && walked(tree.children[path[0]], path.drop_first()))
}

/// The node at path `a` comes before the node at path `b` in a depth-first,
/// left-to-right walk: `a` leads to an ancestor of the node at `b`, or, where
/// the two paths part, `a` turns to a child further left.
pub open spec fn precedes(a: Seq<int>, b: Seq<int>) -> bool
    decreases a.len(),
{
    if a.len() == 0 {
        b.len() > 0
    } else if b.len() == 0 {
        false
    } else if a[0] != b[0] {
        a[0] < b[0]
    } else {
        precedes(a.drop_first(), b.drop_first())
    }
}

/// The nodes of a tree, each named by the path that leads to it.
pub open spec fn nodes<T>(tree: Tree<T>) -> Set<Seq<int>> {
    Set::new(|path: Seq<int>| node_at(tree, path) is Some)
}

/// A walk over a tree whose literals are leaves makes as many dispatch
/// steps as the tree has nodes.
pub proof fn lemma_steps_is_size<T>(tree: Tree<T>)
    requires
        literals_are_leaves(tree),
    ensures
        steps(tree) == size(tree),
    decreases tree, 1int,
{
    if tree.kind == NodeType::LITERAL {
        assert(size_all(tree.children) == 0);
    } else {
        lemma_steps_all_is_size_all(tree.children);
    }
}

/// The same for a list of trees.
pub proof fn lemma_steps_all_is_size_all<T>(trees: Seq<Tree<T>>)
    requires
        forall|i: int| 0 <= i < trees.len() ==> literals_are_leaves(#[trigger] trees[i]),
    ensures
        steps_all(trees) == size_all(trees),
    decreases trees, 0int,
{
    if trees.len() > 0 {
        let init = trees.drop_last();
        assert forall|i: int| 0 <= i < init.len() implies literals_are_leaves(
            #[trigger] init[i],
        ) by {
            assert(init[i] == trees[i]);
        }
        lemma_steps_all_is_size_all(init);
        lemma_steps_is_size(trees.last());
    }
}

/// The walk makes one dispatch step for each path of its order.
pub proof fn lemma_visit_order_len<T>(tree: Tree<T>)
    ensures
        visit_order(tree).len() == steps(tree),
    decreases tree, 1int,
{
    if tree.kind != NodeType::LITERAL {
        lemma_visit_order_all_len(tree.children);
    }
}

/// The same for a list of trees.
pub proof fn lemma_visit_order_all_len<T>(trees: Seq<Tree<T>>)
    ensures
        visit_order_all(trees).len() == steps_all(trees),
    decreases trees, 0int,
{
    if trees.len() > 0 {
        lemma_visit_order_all_len(trees.drop_last());
        lemma_visit_order_len(trees.last());
    }
}

/// A path stands in `below(index, paths)` exactly if it begins with `index`
/// and goes on with a path of `paths`.
proof fn lemma_below_contains(index: int, paths: Seq<Seq<int>>, path: Seq<int>)
    ensures
        below(index, paths).contains(path) <==> path.len() > 0 && path[0] == index
            && paths.contains(path.drop_first()),
{
    let lifted = below(index, paths);
    if lifted.contains(path) {
        let k = choose|k: int| 0 <= k < lifted.len() && lifted[k] == path;
        assert(path.drop_first() =~= paths[k]);
    }
    if path.len() > 0 && path[0] == index && paths.contains(path.drop_first()) {
        let k = choose|k: int| 0 <= k < paths.len() && paths[k] == path.drop_first();
        assert(lifted[k] =~= path);
    }
}

/// The walks over a list of trees dispatch on a path exactly if it begins
/// with the index of one of the trees and the walk over that tree
/// dispatches on the rest.
proof fn lemma_visit_order_all_contains<T>(trees: Seq<Tree<T>>, path: Seq<int>)
    ensures
        visit_order_all(trees).contains(path) <==> path.len() > 0 && 0 <= path[0] < trees.len()
            && visit_order(trees[path[0]]).contains(path.drop_first()),
    decreases trees.len(),
{
    if trees.len() > 0 {
        let init = trees.drop_last();
        let head = visit_order_all(init);
        let tail = below(trees.len() - 1, visit_order(trees.last()));
        lemma_visit_order_all_contains(init, path);
        lemma_below_contains(trees.len() - 1, visit_order(trees.last()), path);
        vstd::seq_lib::lemma_seq_concat_contains_all_elements(head, tail, path);
        if path.len() > 0 && 0 <= path[0] < init.len() {
            assert(init[path[0]] == trees[path[0]]);
        }
    }
}

/// The walk dispatches on exactly the nodes that it reaches.
pub proof fn lemma_visit_order_contains<T>(tree: Tree<T>, path: Seq<int>)
    ensures
        visit_order(tree).contains(path) <==> walked(tree, path),
    decreases path.len(),
{
    let root = seq![Seq::<int>::empty()];
    assert(root[0] == Seq::<int>::empty());
    if path.len() == 0 {
        assert(path =~= Seq::<int>::empty());
        assert(visit_order(tree)[0] == path);
    } else if tree.kind != NodeType::LITERAL {
        let rest = visit_order_all(tree.children);
        vstd::seq_lib::lemma_seq_concat_contains_all_elements(root, rest, path);
        lemma_visit_order_all_contains(tree.children, path);
        if 0 <= path[0] < tree.children.len() {
            lemma_visit_order_contains(tree.children[path[0]], path.drop_first());
        }
    }
}

/// In a tree whose literals are leaves the walk reaches every node.
pub proof fn lemma_walked_is_node_at<T>(tree: Tree<T>, path: Seq<int>)
    requires
        literals_are_leaves(tree),
    ensures
        walked(tree, path) <==> node_at(tree, path) is Some,
    decreases path.len(),
{
    if path.len() > 0 && 0 <= path[0] < tree.children.len() {
        lemma_walked_is_node_at(tree.children[path[0]], path.drop_first());
    }
}

/// No node is skipped and none is made up: in a tree whose literals are
/// leaves, the walk dispatches on a path exactly if the path leads to a node.
pub proof fn lemma_visits_every_node<T>(tree: Tree<T>, path: Seq<int>)
    requires
        literals_are_leaves(tree),
    ensures
        visit_order(tree).contains(path) <==> node_at(tree, path) is Some,
{
    lemma_visit_order_contains(tree, path);
    lemma_walked_is_node_at(tree, path);
}

/// Putting an index before each path of a list without repetition gives a
/// list without repetition.
proof fn lemma_below_no_duplicates(index: int, paths: Seq<Seq<int>>)
    requires
        paths.no_duplicates(),
    ensures
        below(index, paths).no_duplicates(),
{
    let lifted = below(index, paths);
    assert forall|a: int, b: int| 0 <= a < lifted.len() && 0 <= b < lifted.len() && a != b implies lifted[a]
        != lifted[b] by {
        if lifted[a] == lifted[b] {
            assert(lifted[a].drop_first() =~= paths[a]);
            assert(lifted[b].drop_first() =~= paths[b]);
        }
    }
}

/// No node is visited twice: no path occurs twice in the order of a walk.
pub proof fn lemma_visits_once<T>(tree: Tree<T>)
    ensures
        visit_order(tree).no_duplicates(),
    decreases tree, 1int,
{
    let root = seq![Seq::<int>::empty()];
    if tree.kind != NodeType::LITERAL {
        let rest = visit_order_all(tree.children);
        lemma_visits_once_all(tree.children);
        assert forall|a: int, b: int| 0 <= a < root.len() && 0 <= b < rest.len() implies root[a]
            != rest[b] by {
            assert(rest.contains(rest[b]));
            lemma_visit_order_all_contains(tree.children, rest[b]);
        }
        lemma_no_dup_in_concat(root, rest);
    }
}

/// The same for a list of trees.
pub proof fn lemma_visits_once_all<T>(trees: Seq<Tree<T>>)
    ensures
        visit_order_all(trees).no_duplicates(),
    decreases trees, 0int,
{
    if trees.len() > 0 {
        let init = trees.drop_last();
        let head = visit_order_all(init);
        let tail = below(trees.len() - 1, visit_order(trees.last()));
        lemma_visits_once_all(init);
        lemma_visits_once(trees.last());
        lemma_below_no_duplicates(trees.len() - 1, visit_order(trees.last()));
        assert forall|a: int, b: int| 0 <= a < head.len() && 0 <= b < tail.len() implies head[a]
            != tail[b] by {
            assert(head.contains(head[a]));
            lemma_visit_order_all_contains(init, head[a]);
            assert(tail[b][0] == trees.len() - 1);
        }
        lemma_no_dup_in_concat(head, tail);
    }
}

/// The walks over the first `n` trees of a list make no more dispatch steps
/// than the walks over the whole list.
pub proof fn lemma_steps_all_take<T>(trees: Seq<Tree<T>>, n: int)
    requires
        0 <= n <= trees.len(),
    ensures
        steps_all(trees.take(n)) <= steps_all(trees),
    decreases trees.len(),
{
    if n == trees.len() {
        assert(trees.take(n) =~= trees);
    } else {
        assert(trees.drop_last().take(n) =~= trees.take(n));
        lemma_steps_all_take(trees.drop_last(), n);
    }
}

/// The walk is depth-first and left-to-right: of two dispatch steps the
/// earlier is on the node that comes first in that order.
pub proof fn lemma_visit_order_sorted<T>(tree: Tree<T>, earlier: int, later: int)
    requires
        0 <= earlier < later < visit_order(tree).len(),
    ensures
        precedes(visit_order(tree)[earlier], visit_order(tree)[later]),
    decreases tree, 1int,
{
    let rest = visit_order_all(tree.children);
    let b = rest[later - 1];
    assert(rest.contains(b));
    lemma_visit_order_all_contains(tree.children, b);
    if earlier > 0 {
        lemma_visit_order_all_sorted(tree.children, earlier - 1, later - 1);
    }
}

/// The same for a list of trees.
pub proof fn lemma_visit_order_all_sorted<T>(trees: Seq<Tree<T>>, earlier: int, later: int)
    requires
        0 <= earlier < later < visit_order_all(trees).len(),
    ensures
        precedes(visit_order_all(trees)[earlier], visit_order_all(trees)[later]),
    decreases trees, 0int,
{
    let init = trees.drop_last();
    let head = visit_order_all(init);
    let last = visit_order(trees.last());
    let tail = below(trees.len() - 1, last);
    if later < head.len() {
        lemma_visit_order_all_sorted(init, earlier, later);
    } else if earlier < head.len() {
        let a = head[earlier];
        let b = tail[later - head.len()];
        assert(head.contains(a));
        lemma_visit_order_all_contains(init, a);
        assert(b[0] == trees.len() - 1);
    } else {
        let a = tail[earlier - head.len()];
        let b = tail[later - head.len()];
        assert(a.drop_first() =~= last[earlier - head.len()]);
        assert(b.drop_first() =~= last[later - head.len()]);
        assert(a[0] == b[0]);
        lemma_visit_order_sorted(trees.last(), earlier - head.len(), later - head.len());
    }
}

/// A walk over a tree whose literals are leaves dispatches once on each
/// node and on nothing else: the paths of its order are the nodes of the
/// tree, none of them twice, and there are as many of them as the tree has
/// nodes.
pub proof fn lemma_walk_is_complete<T>(tree: Tree<T>)
    requires
        literals_are_leaves(tree),
    ensures
        visit_order(tree).no_duplicates(),
        visit_order(tree).to_set() == nodes(tree),
        nodes(tree).finite(),
        nodes(tree).len() == size(tree),
        visit_order(tree).len() == size(tree),
{
    let order = visit_order(tree);
    lemma_visits_once(tree);
    assert forall|path: Seq<int>| order.to_set().contains(path) == nodes(tree).contains(
        path,
    ) by {
        lemma_visits_every_node(tree, path);
    }
    assert(order.to_set() =~= nodes(tree));
    vstd::seq_lib::seq_to_set_is_finite(order);
    order.unique_seq_to_set();
    lemma_visit_order_len(tree);
    lemma_steps_is_size(tree);
}

} // verus!
