//! What a mutating walk does, as a function of the processor and the tree.
use vstd::prelude::*;
use crate::nodes::tree::{lemma_child_is_shallower, lemma_depth_with_children, Tree};
use crate::process::node_processor::NodeProcessorMut;

verus! {

/// The processor and the tree as a mutating walk leaves them.
///
/// A node of a processed kind is first handed to the processor. The walk
/// then goes through the children of the node as the processor left it, from
/// the first to the last, each with the processor as the child before left
/// it.
pub open spec fn walk<P: NodeProcessorMut>(processor: P, tree: Tree) -> (P, Tree)
    decreases tree.depth(), 1nat, 0nat,
{
    let (handed, node) = if tree.kind.is_processed() {
        processor.rewrite(tree)
    } else {
        (processor, tree)
    };
    if node.depth() <= tree.depth() {
        let (done, children) = walk_children(handed, node.children, node.children.len(), node.depth());
        (done, node.with_children(children))
    } else {
        (handed, node)
    }
}

/// The processor after a walk through the first `count` of `trees`, one
/// after the other, and those trees as the walk leaves them. `bound` is the
/// depth of the node that the trees are the children of.
pub open spec fn walk_children<P: NodeProcessorMut>(
    processor: P,
    trees: Seq<Tree>,
    count: nat,
    bound: nat,
) -> (P, Seq<Tree>)
    decreases bound, 0nat, count,
{
    if count == 0 || count > trees.len() {
        (processor, Seq::empty())
    } else {
        let (before, walked) = walk_children(processor, trees, (count - 1) as nat, bound);
        let next = trees[count - 1];
        if next.depth() < bound {
            let (after, tree) = walk(before, next);
            (after, walked.push(tree))
        } else {
            (before, walked.push(next))
        }
    }
}

/// Only the trees that are walked through count.
proof fn lemma_walk_children_reads_prefix<P: NodeProcessorMut>(
    processor: P,
    trees: Seq<Tree>,
    others: Seq<Tree>,
    count: nat,
    bound: nat,
)
    requires
        count <= trees.len(),
        count <= others.len(),
        forall|i: int| 0 <= i < count ==> trees[i] == others[i],
    ensures
        walk_children(processor, trees, count, bound) == walk_children(processor, others, count, bound),
    decreases count,
{
    if count > 0 {
        lemma_walk_children_reads_prefix(processor, trees, others, (count - 1) as nat, bound);
    }
}

/// The processor `end` and the tree `after` are what the walk of `before`
/// with the processor `start` leaves, and the tree has not become deeper.
#[verifier::opaque]
pub open spec fn walked<P: NodeProcessorMut>(start: P, before: Tree, end: P, after: Tree) -> bool {
    &&& (end, after) == walk(start, before)
    &&& after.depth() <= before.depth()
}

/// The processor `end` and the trees `after` are what a walk through all of
/// `before` with the processor `start` leaves, where every tree is shallower
/// than `bound` and none has become deeper.
#[verifier::opaque]
pub open spec fn walked_through<P: NodeProcessorMut>(
    start: P,
    before: Seq<Tree>,
    end: P,
    after: Seq<Tree>,
    bound: nat,
) -> bool {
    &&& walk_children(start, before, before.len(), bound) == (end, after)
    &&& after.len() == before.len()
    &&& forall|i: int| 0 <= i < before.len() ==> (#[trigger] before[i]).depth() < bound
    &&& forall|i: int| 0 <= i < before.len() ==> (#[trigger] after[i]).depth() <= before[i].depth()
}

/// Nothing was walked through yet.
pub proof fn lemma_walked_none<P: NodeProcessorMut>(start: P, bound: nat)
    ensures
        walked_through(start, Seq::<Tree>::empty(), start, Seq::<Tree>::empty(), bound),
{
    reveal(walked_through);
}

/// After the trees walked through so far, one more tree was walked.
pub proof fn lemma_walked_push<P: NodeProcessorMut>(
    start: P,
    before: Seq<Tree>,
    middle: P,
    after: Seq<Tree>,
    child: Tree,
    end: P,
    child_after: Tree,
    bound: nat,
)
    requires
        walked_through(start, before, middle, after, bound),
        child.depth() < bound,
        walked(middle, child, end, child_after),
    ensures
        walked_through(start, before.push(child), end, after.push(child_after), bound),
{
    reveal(walked_through);
    reveal(walked);
    lemma_walk_children_reads_prefix(start, before.push(child), before, before.len(), bound);
}

/// The processor and the node as they are once the node was handed to the
/// processor, where its kind asks for that.
pub open spec fn handing<P: NodeProcessorMut>(processor: P, tree: Tree) -> (P, Tree) {
    if tree.kind.is_processed() {
        processor.rewrite(tree)
    } else {
        (processor, tree)
    }
}

/// A node was handed to the processor where its kind asks for it, and its
/// children were walked through: the node was walked.
pub proof fn lemma_walk_node<P: NodeProcessorMut>(
    start: P,
    tree: Tree,
    handed: P,
    node: Tree,
    end: P,
    children: Seq<Tree>,
)
    requires
        (handed, node) == handing(start, tree),
        node.depth() <= tree.depth(),
        walked_through(handed, node.children, end, children, node.depth()),
    ensures
        walked(start, tree, end, node.with_children(children)),
{
    reveal(walked_through);
    reveal(walked);
    lemma_depth_with_children(node, children);
}

/// The walk of a node without children.
pub proof fn lemma_walked_leaf<P: NodeProcessorMut>(start: P, tree: Tree, handed: P, node: Tree)
    requires
        (handed, node) == handing(start, tree),
        node.depth() <= tree.depth(),
        node.children.len() == 0,
    ensures
        walked(start, tree, handed, node),
{
    lemma_walked_none(handed, node.depth());
    assert(node.children =~= Seq::<Tree>::empty());
    assert(node.with_children(Seq::<Tree>::empty()) == node);
    lemma_walk_node(start, tree, handed, node, handed, Seq::<Tree>::empty());
}

/// The walk of a node with one child.
pub proof fn lemma_walked_1<P: NodeProcessorMut>(
    start: P,
    tree: Tree,
    handed: P,
    node: Tree,
    end: P,
    first: Tree,
)
    requires
        (handed, node) == handing(start, tree),
        node.depth() <= tree.depth(),
        node.children.len() == 1,
        walked(handed, node.children[0], end, first),
    ensures
        walked(start, tree, end, node.with_children(seq![first])),
{
    let empty = Seq::<Tree>::empty();
    lemma_walked_none(handed, node.depth());
    lemma_child_is_shallower(node, 0);
    lemma_walked_push(handed, empty, handed, empty, node.children[0], end, first, node.depth());
    assert(node.children =~= empty.push(node.children[0]));
    assert(empty.push(first) =~= seq![first]);
    lemma_walk_node(start, tree, handed, node, end, seq![first]);
}

/// The walk of a node with two children.
pub proof fn lemma_walked_2<P: NodeProcessorMut>(
    start: P,
    tree: Tree,
    handed: P,
    node: Tree,
    after_first: P,
    first: Tree,
    end: P,
    second: Tree,
)
    requires
        (handed, node) == handing(start, tree),
        node.depth() <= tree.depth(),
        node.children.len() == 2,
        walked(handed, node.children[0], after_first, first),
        walked(after_first, node.children[1], end, second),
    ensures
        walked(start, tree, end, node.with_children(seq![first, second])),
{
    let empty = Seq::<Tree>::empty();
    let c = node.children;
    lemma_walked_none(handed, node.depth());
    lemma_child_is_shallower(node, 0);
    lemma_child_is_shallower(node, 1);
    lemma_walked_push(handed, empty, handed, empty, c[0], after_first, first, node.depth());
    lemma_walked_push(handed, empty.push(c[0]), after_first, empty.push(first), c[1], end, second, node.depth());
    assert(c =~= empty.push(c[0]).push(c[1]));
    assert(empty.push(first).push(second) =~= seq![first, second]);
    lemma_walk_node(start, tree, handed, node, end, seq![first, second]);
}

/// The walk of a node with four children.
pub proof fn lemma_walked_4<P: NodeProcessorMut>(
    start: P,
    tree: Tree,
    handed: P,
    node: Tree,
    after_first: P,
    first: Tree,
    after_second: P,
    second: Tree,
    after_third: P,
    third: Tree,
    end: P,
    fourth: Tree,
)
    requires
        (handed, node) == handing(start, tree),
        node.depth() <= tree.depth(),
        node.children.len() == 4,
        walked(handed, node.children[0], after_first, first),
        walked(after_first, node.children[1], after_second, second),
        walked(after_second, node.children[2], after_third, third),
        walked(after_third, node.children[3], end, fourth),
    ensures
        walked(start, tree, end, node.with_children(seq![first, second, third, fourth])),
{
    let empty = Seq::<Tree>::empty();
    let c = node.children;
    lemma_walked_none(handed, node.depth());
    lemma_child_is_shallower(node, 0);
    lemma_child_is_shallower(node, 1);
    lemma_child_is_shallower(node, 2);
    lemma_child_is_shallower(node, 3);
    lemma_walked_push(handed, empty, handed, empty, c[0], after_first, first, node.depth());
    lemma_walked_push(handed, empty.push(c[0]), after_first, empty.push(first), c[1], after_second, second, node.depth());
    lemma_walked_push(
        handed,
        empty.push(c[0]).push(c[1]),
        after_second,
        empty.push(first).push(second),
        c[2],
        after_third,
        third,
        node.depth(),
    );
    lemma_walked_push(
        handed,
        empty.push(c[0]).push(c[1]).push(c[2]),
        after_third,
        empty.push(first).push(second).push(third),
        c[3],
        end,
        fourth,
        node.depth(),
    );
    assert(c =~= empty.push(c[0]).push(c[1]).push(c[2]).push(c[3]));
    assert(empty.push(first).push(second).push(third).push(fourth) =~= seq![first, second, third, fourth]);
    lemma_walk_node(start, tree, handed, node, end, seq![first, second, third, fourth]);
}

} // verus!
