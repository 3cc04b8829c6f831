//! What holds of every walk.
use vstd::prelude::*;
use crate::nodes::tree::{lemma_child_is_shallower, Kind, Tree};
use crate::process::node_processor::NodeProcessorMut;
use crate::process::walk::{handing, walk, walk_children, walked};

verus! {

/// No processor of this type changes any of these nodes when it is handed one.
pub open spec fn leaves_alone<P: NodeProcessorMut>(nodes: Seq<Tree>) -> bool {
    forall|processor: P, node: Tree| nodes.contains(node) ==> (#[trigger] processor.rewrite(node)).1 == node
}

/// No processor of this type ever changes the node it is handed.
pub open spec fn leaves_nodes_alone<P: NodeProcessorMut>() -> bool {
    forall|processor: P, node: Tree| (#[trigger] processor.rewrite(node)).1 == node
}

/// What a tree among the first `count` reports is among what those trees report.
pub proof fn lemma_reports_of_member(trees: Seq<Tree>, count: nat, i: int, node: Tree)
    requires
        0 <= i < count <= trees.len(),
        trees[i].visits().contains(node),
    ensures
        Tree::visits_of(trees, count).contains(node),
    decreases count,
{
    reveal(Tree::visits_of);
    reveal(Tree::visits);
    let before = Tree::visits_of(trees, (count - 1) as nat);
    let last = trees[count - 1].visits();
    if i < count - 1 {
        lemma_reports_of_member(trees, (count - 1) as nat, i, node);
        let k = choose|k: int| 0 <= k < before.len() && before[k] == node;
        assert((before + last)[k] == node);
    } else {
        let k = choose|k: int| 0 <= k < last.len() && last[k] == node;
        assert((before + last)[before.len() + k] == node);
    }
}

/// What the first trees of a list report is among what more of them report.
pub proof fn lemma_reports_of_fewer(trees: Seq<Tree>, count: nat, node: Tree)
    requires
        0 < count <= trees.len(),
        Tree::visits_of(trees, (count - 1) as nat).contains(node),
    ensures
        Tree::visits_of(trees, count).contains(node),
{
    reveal(Tree::visits_of);
    reveal(Tree::visits);
    let before = Tree::visits_of(trees, (count - 1) as nat);
    let last = trees[count - 1].visits();
    let k = choose|k: int| 0 <= k < before.len() && before[k] == node;
    assert((before + last)[k] == node);
}

/// The processor as it is once it was handed the first `count` of `visits`, in order.
pub open spec fn after_handing<P: NodeProcessorMut>(processor: P, visits: Seq<Tree>, count: nat) -> P
    decreases count,
{
    if count == 0 || count > visits.len() {
        processor
    } else {
        after_handing(processor, visits, (count - 1) as nat).rewrite(visits[count - 1]).0
    }
}

proof fn lemma_after_handing_reads_prefix<P: NodeProcessorMut>(
    processor: P,
    visits: Seq<Tree>,
    others: Seq<Tree>,
    count: nat,
)
    requires
        count <= visits.len(),
        count <= others.len(),
        forall|i: int| 0 <= i < count ==> visits[i] == others[i],
    ensures
        after_handing(processor, visits, count) == after_handing(processor, others, count),
    decreases count,
{
    if count > 0 {
        lemma_after_handing_reads_prefix(processor, visits, others, (count - 1) as nat);
    }
}

proof fn lemma_after_handing_prefix<P: NodeProcessorMut>(
    processor: P,
    first: Seq<Tree>,
    second: Seq<Tree>,
    count: nat,
)
    requires
        count <= second.len(),
    ensures
        after_handing(processor, first + second, first.len() + count) == after_handing(
            after_handing(processor, first, first.len()),
            second,
            count,
        ),
    decreases count,
{
    if count == 0 {
        lemma_after_handing_reads_prefix(processor, first + second, first, first.len());
    } else {
        lemma_after_handing_prefix(processor, first, second, (count - 1) as nat);
        assert((first + second)[first.len() + count - 1] == second[count - 1]);
    }
}

/// Handing over two runs of nodes one after the other is handing over both in a row.
pub proof fn lemma_after_handing_concat<P: NodeProcessorMut>(processor: P, first: Seq<Tree>, second: Seq<Tree>)
    ensures
        after_handing(processor, first + second, (first + second).len()) == after_handing(
            after_handing(processor, first, first.len()),
            second,
            second.len(),
        ),
{
    lemma_after_handing_prefix(processor, first, second, second.len());
}

/// A mutating walk with a processor that changes none of the nodes that
/// the tree reports leaves the tree as it is, and hands the processor the
/// very nodes that the tree reports to a reading walk, in the same order.
pub proof fn lemma_walk_leaves_tree<P: NodeProcessorMut>(processor: P, tree: Tree)
    requires
        leaves_alone::<P>(tree.visits()),
    ensures
        walk(processor, tree) == (after_handing(processor, tree.visits(), tree.visits().len()), tree),
    decreases tree.depth(), 1nat, 0nat,
{
    reveal(Tree::visits);
    reveal(Tree::visits_of);
    let count = tree.children.len();
    let below = Tree::visits_of(tree.children, count);
    let handed = if tree.kind.is_processed() {
        processor.rewrite(tree).0
    } else {
        processor
    };
    if tree.kind.is_processed() {
        assert(tree.visits()[0] == tree);
        assert(processor.rewrite(tree).1 == tree);
    }
    assert forall|i: int| 0 <= i < count implies (#[trigger] tree.children[i]).depth() < tree.depth() by {
        lemma_child_is_shallower(tree, i);
    }
    assert forall|p: P, node: Tree| below.contains(node) implies (#[trigger] p.rewrite(node)).1 == node by {
        let k = choose|k: int| 0 <= k < below.len() && below[k] == node;
        if tree.kind.is_processed() {
            assert(tree.visits()[k + 1] == node);
        } else {
            assert(tree.visits()[k] == node);
        }
    }
    lemma_walk_leaves_children(handed, tree.children, count, tree.depth());
    assert(tree.children.take(count as int) =~= tree.children);
    assert(tree.with_children(tree.children) == tree);
    if tree.kind.is_processed() {
        lemma_after_handing_concat(processor, seq![tree], below);
        assert(after_handing(processor, seq![tree], 0) == processor);
        assert(after_handing(processor, seq![tree], 1) == handed);
    }
}

/// The same for a walk through the first `count` of some trees.
pub proof fn lemma_walk_leaves_children<P: NodeProcessorMut>(
    processor: P,
    trees: Seq<Tree>,
    count: nat,
    bound: nat,
)
    requires
        leaves_alone::<P>(Tree::visits_of(trees, count)),
        count <= trees.len(),
        forall|i: int| 0 <= i < count ==> (#[trigger] trees[i]).depth() < bound,
    ensures
        walk_children(processor, trees, count, bound) == (
            after_handing(
                processor,
                Tree::visits_of(trees, count),
                Tree::visits_of(trees, count).len(),
            ),
            trees.take(count as int),
        ),
    decreases bound, 0nat, count,
{
    reveal(Tree::visits_of);
    reveal(Tree::visits);
    if count == 0 {
        assert(trees.take(0) =~= Seq::<Tree>::empty());
    } else {
        let before = (count - 1) as nat;
        let next = trees[count - 1];
        assert forall|p: P, node: Tree| Tree::visits_of(trees, before).contains(node) implies (
        #[trigger] p.rewrite(node)).1 == node by {
            lemma_reports_of_fewer(trees, count, node);
        }
        assert forall|p: P, node: Tree| next.visits().contains(node) implies (#[trigger] p.rewrite(node)).1
            == node by {
            lemma_reports_of_member(trees, count, count - 1, node);
        }
        lemma_walk_leaves_children(processor, trees, before, bound);
        let middle = walk_children(processor, trees, before, bound).0;
        lemma_walk_leaves_tree(middle, next);
        lemma_after_handing_concat(processor, Tree::visits_of(trees, before), next.visits());
        assert(trees.take(count as int) =~= trees.take(before as int).push(next));
    }
}

/// A walk that has ended, with a processor that never changes a node, has
/// left the tree as it was.
pub proof fn lemma_walked_leaves_tree<P: NodeProcessorMut>(start: P, before: Tree, end: P, after: Tree)
    requires
        leaves_nodes_alone::<P>(),
        walked(start, before, end, after),
    ensures
        after == before,
        end == after_handing(start, before.visits(), before.visits().len()),
{
    reveal(walked);
    lemma_walk_leaves_tree(start, before);
}

/// Whatever a processor of this type makes of a node, the node keeps its
/// kind, its variant and the number of its children, and gets no deeper.
pub open spec fn keeps_shape<P: NodeProcessorMut>() -> bool {
    forall|processor: P, node: Tree|
        {
            let made = (#[trigger] processor.rewrite(node)).1;
            &&& made.kind == node.kind
            &&& made.variant == node.variant
            &&& made.children.len() == node.children.len()
            &&& made.depth() <= node.depth()
        }
}

/// What a walk leaves at its root, no processor of this type changes.
pub open spec fn root_settles<P: NodeProcessorMut>() -> bool {
    forall|first: P, tree: Tree, second: P| (#[trigger] second.rewrite(walk(first, tree).1)).1 == walk(first, tree).1
}

/// A walk through some trees leaves as many trees.
proof fn lemma_walk_children_len<P: NodeProcessorMut>(processor: P, trees: Seq<Tree>, count: nat, bound: nat)
    requires
        count <= trees.len(),
    ensures
        walk_children(processor, trees, count, bound).1.len() == count,
    decreases count,
{
    if count > 0 {
        lemma_walk_children_len(processor, trees, (count - 1) as nat, bound);
    }
}

/// What a walk through some trees leaves at a place is what the walk of the
/// tree at that place leaves, with the processor as the trees before left it.
proof fn lemma_walk_children_item<P: NodeProcessorMut>(
    processor: P,
    trees: Seq<Tree>,
    count: nat,
    bound: nat,
    i: int,
)
    requires
        0 <= i < count <= trees.len(),
        trees[i].depth() < bound,
    ensures
        walk_children(processor, trees, count, bound).1[i] == walk(
            walk_children(processor, trees, i as nat, bound).0,
            trees[i],
        ).1,
    decreases count,
{
    lemma_walk_children_len(processor, trees, (count - 1) as nat, bound);
    if i < count - 1 {
        lemma_walk_children_item(processor, trees, (count - 1) as nat, bound, i);
    }
}

/// A walk with a processor that keeps the shape of nodes keeps the shape of the tree's root.
pub proof fn lemma_walk_keeps_shape<P: NodeProcessorMut>(processor: P, tree: Tree)
    requires
        keeps_shape::<P>(),
    ensures
        walk(processor, tree).1.kind == tree.kind,
        walk(processor, tree).1.variant == tree.variant,
        walk(processor, tree).1.children.len() == tree.children.len(),
{
    let (handed, node) = handing(processor, tree);
    if tree.kind.is_processed() {
        assert(node == processor.rewrite(tree).1);
    }
    lemma_walk_children_len(handed, node.children, node.children.len(), node.depth());
}

/// The child that a walk leaves at a place is what the walk of the child at
/// that place leaves, the child as the processor left it when it was handed
/// the parent.
pub proof fn lemma_walk_child<P: NodeProcessorMut>(processor: P, tree: Tree, i: int)
    requires
        keeps_shape::<P>(),
        0 <= i < tree.children.len(),
    ensures
        ({
            let (handed, node) = handing(processor, tree);
            let before = walk_children(handed, node.children, i as nat, node.depth()).0;
            &&& i < node.children.len()
            &&& node.children[i].depth() < tree.depth()
            &&& walk(processor, tree).1.children[i] == walk(before, node.children[i]).1
        }),
{
    let (handed, node) = handing(processor, tree);
    if tree.kind.is_processed() {
        assert(node == processor.rewrite(tree).1);
    }
    lemma_child_is_shallower(node, i);
    lemma_walk_children_item(handed, node.children, node.children.len(), node.depth(), i);
}

/// What a child reports, its parent reports.
pub proof fn lemma_child_reports(tree: Tree, i: int, node: Tree)
    requires
        0 <= i < tree.children.len(),
        tree.children[i].visits().contains(node),
    ensures
        tree.visits().contains(node),
{
    reveal(Tree::visits);
    reveal(Tree::visits_of);
    let below = Tree::visits_of(tree.children, tree.children.len());
    lemma_reports_of_member(tree.children, tree.children.len(), i, node);
    let k = choose|k: int| 0 <= k < below.len() && below[k] == node;
    if tree.kind.is_processed() {
        assert(tree.visits()[k + 1] == node);
    } else {
        assert(tree.visits()[k] == node);
    }
}

/// What some trees report is reported by one of them.
pub proof fn lemma_reporter(trees: Seq<Tree>, count: nat, node: Tree) -> (i: int)
    requires
        count <= trees.len(),
        Tree::visits_of(trees, count).contains(node),
    ensures
        0 <= i < count,
        trees[i].visits().contains(node),
    decreases count,
{
    reveal(Tree::visits_of);
    reveal(Tree::visits);
    if count == 0 {
        0
    } else {
        let before = Tree::visits_of(trees, (count - 1) as nat);
        let last = trees[count - 1].visits();
        let k = choose|k: int| 0 <= k < (before + last).len() && (before + last)[k] == node;
        if k < before.len() {
            assert(before[k] == node);
            lemma_reporter(trees, (count - 1) as nat, node)
        } else {
            assert(last[k - before.len()] == node);
            count - 1
        }
    }
}

/// After a walk with processors that keep the shape of nodes and that settle
/// the root of what a walk leaves, no processor of the type changes a node
/// that the tree reports.
pub proof fn lemma_walk_settles<P: NodeProcessorMut>(processor: P, tree: Tree)
    requires
        keeps_shape::<P>(),
        root_settles::<P>(),
    ensures
        leaves_alone::<P>(walk(processor, tree).1.visits()),
    decreases tree.depth(),
{
    reveal(Tree::visits);
    reveal(Tree::visits_of);
    let left = walk(processor, tree).1;
    let (handed, node) = handing(processor, tree);
    lemma_walk_keeps_shape(processor, tree);
    assert forall|other: P, met: Tree| left.visits().contains(met) implies (#[trigger] other.rewrite(met)).1
        == met by {
        if met != left || !left.kind.is_processed() {
            let below = Tree::visits_of(left.children, left.children.len());
            let k = choose|k: int| 0 <= k < left.visits().len() && left.visits()[k] == met;
            if left.kind.is_processed() {
                assert(below[k - 1] == met);
            } else {
                assert(below[k] == met);
            }
            let i = lemma_reporter(left.children, left.children.len(), met);
            lemma_walk_child(processor, tree, i);
            let before = walk_children(handed, node.children, i as nat, node.depth()).0;
            lemma_walk_settles(before, node.children[i]);
        }
    }
}

/// A second walk changes nothing: after a walk with processors that keep the
/// shape of nodes and settle the root of what a walk leaves, a walk with any
/// processor of the type leaves the tree as the first walk left it.
pub proof fn lemma_second_walk<P: NodeProcessorMut>(first: P, tree: Tree, second: P)
    requires
        keeps_shape::<P>(),
        root_settles::<P>(),
    ensures
        walk(second, walk(first, tree).1).1 == walk(first, tree).1,
{
    lemma_walk_settles(first, tree);
    lemma_walk_leaves_tree(second, walk(first, tree).1);
}

/// How many nodes of a kind a tree holds, itself and the nodes below it counted.
pub open spec fn count_of(tree: Tree, kind: Kind) -> nat
    decreases tree,
{
    (if tree.kind == kind {
        1nat
    } else {
        0nat
    }) + count_among(tree.children, tree.children.len(), kind)
}

/// How many nodes of a kind the first `count` of `trees` hold.
pub open spec fn count_among(trees: Seq<Tree>, count: nat, kind: Kind) -> nat
    decreases trees, count,
{
    if count == 0 || count > trees.len() {
        0
    } else {
        count_among(trees, (count - 1) as nat, kind) + count_of(trees[count - 1], kind)
    }
}

/// Whether a node is of the kind.
pub open spec fn of_kind(kind: Kind) -> spec_fn(Tree) -> bool {
    |node: Tree| node.kind == kind
}

/// A tree reports each of its nodes of a processed kind once: the reports
/// hold as many nodes of that kind as the tree does.
pub proof fn lemma_visits_once(tree: Tree, kind: Kind)
    requires
        kind.is_processed(),
    ensures
        tree.visits().filter(of_kind(kind)).len() == count_of(tree, kind),
    decreases tree, 0nat,
{
    reveal(Tree::visits);
    reveal(Tree::visits_of);
    let of_kind = of_kind(kind);
    let below = Tree::visits_of(tree.children, tree.children.len());
    lemma_visits_once_among(tree.children, tree.children.len(), kind);
    if tree.kind.is_processed() {
        Seq::filter_distributes_over_add(seq![tree], below, of_kind);
        reveal_with_fuel(Seq::filter, 3);
        assert(seq![tree].drop_last() =~= Seq::<Tree>::empty());
        assert(seq![tree].last() == tree);
        assert(seq![tree].filter(of_kind).len() == (if tree.kind == kind {
            1nat
        } else {
            0nat
        }));
    }
}

/// The same for the first `count` of some trees.
pub proof fn lemma_visits_once_among(trees: Seq<Tree>, count: nat, kind: Kind)
    requires
        kind.is_processed(),
        count <= trees.len(),
    ensures
        Tree::visits_of(trees, count).filter(of_kind(kind)).len() == count_among(
            trees,
            count,
            kind,
        ),
    decreases trees, count,
{
    reveal(Tree::visits_of);
    reveal(Tree::visits);
    let of_kind = of_kind(kind);
    if count == 0 {
        reveal(Seq::filter);
    } else {
        lemma_visits_once_among(trees, (count - 1) as nat, kind);
        lemma_visits_once(trees[count - 1], kind);
        Seq::filter_distributes_over_add(
            Tree::visits_of(trees, (count - 1) as nat),
            trees[count - 1].visits(),
            of_kind,
        );
    }
}

} // verus!
