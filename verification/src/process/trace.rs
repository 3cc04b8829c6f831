//! What a reading walk does: it hands the processor the nodes that the tree
//! reports, in their order.
use vstd::prelude::*;
use crate::nodes::tree::Tree;
use crate::process::node_processor::{after_all, lemma_after_all_concat, NodeProcessor};

verus! {

/// The processor as it is once it was handed all of `visits`, in order.
pub open spec fn after_visits<P: NodeProcessor>(processor: P, visits: Seq<Tree>) -> P {
    after_all(processor, visits, visits.len())
}

/// The processor `end` is `start` after it was handed what `tree` reports.
#[verifier::opaque]
pub open spec fn seen<P: NodeProcessor>(start: P, tree: Tree, end: P) -> bool {
    end == after_visits(start, tree.visits())
}

/// The processor `end` is `start` after it was handed what each of `trees` reports, tree after tree.
#[verifier::opaque]
pub open spec fn seen_through<P: NodeProcessor>(start: P, trees: Seq<Tree>, end: P) -> bool {
    end == after_visits(start, Tree::visits_of(trees, trees.len()))
}

/// The processor as it is once the node was handed to it, where its kind asks for that.
pub open spec fn handing_over<P: NodeProcessor>(processor: P, tree: Tree) -> P {
    if tree.kind.is_processed() {
        processor.after(tree)
    } else {
        processor
    }
}

/// The reports of the first trees of a list do not depend on the trees after them.
proof fn lemma_visits_of_reads_prefix(trees: Seq<Tree>, others: Seq<Tree>, count: nat)
    requires
        count <= trees.len(),
        count <= others.len(),
        forall|i: int| 0 <= i < count ==> trees[i] == others[i],
    ensures
        Tree::visits_of(trees, count) == Tree::visits_of(others, count),
    decreases count,
{
    reveal(Tree::visits_of);
    if count > 0 {
        lemma_visits_of_reads_prefix(trees, others, (count - 1) as nat);
    }
}

/// No tree was seen yet.
pub proof fn lemma_seen_none<P: NodeProcessor>(start: P)
    ensures
        seen_through(start, Seq::<Tree>::empty(), start),
{
    reveal(seen_through);
    reveal(Tree::visits_of);
}

/// After the trees seen so far, one more tree was seen.
pub proof fn lemma_seen_push<P: NodeProcessor>(start: P, before: Seq<Tree>, middle: P, child: Tree, end: P)
    requires
        seen_through(start, before, middle),
        seen(middle, child, end),
    ensures
        seen_through(start, before.push(child), end),
{
    reveal(seen_through);
    reveal(seen);
    reveal(Tree::visits_of);
    reveal(Tree::visits);
    let all = before.push(child);
    lemma_visits_of_reads_prefix(all, before, before.len());
    assert(Tree::visits_of(all, all.len()) == Tree::visits_of(before, before.len()) + child.visits());
    lemma_after_all_concat(start, Tree::visits_of(before, before.len()), child.visits());
}

/// A node was handed to the processor where its kind asks for it, and its
/// children were seen: the node was seen.
pub proof fn lemma_seen_node<P: NodeProcessor>(start: P, tree: Tree, handed: P, end: P)
    requires
        handed == handing_over(start, tree),
        seen_through(handed, tree.children, end),
    ensures
        seen(start, tree, end),
{
    reveal(seen_through);
    reveal(seen);
    reveal(Tree::visits);
    reveal(Tree::visits_of);
    let below = Tree::visits_of(tree.children, tree.children.len());
    if tree.kind.is_processed() {
        lemma_after_all_concat(start, seq![tree], below);
        assert(after_all(start, seq![tree], 0) == start);
        assert(after_all(start, seq![tree], 1) == start.after(tree));
    }
}

/// A node without children was seen.
pub proof fn lemma_seen_leaf<P: NodeProcessor>(start: P, tree: Tree, handed: P)
    requires
        handed == handing_over(start, tree),
        tree.children.len() == 0,
    ensures
        seen(start, tree, handed),
{
    lemma_seen_none(handed);
    assert(tree.children =~= Seq::<Tree>::empty());
    lemma_seen_node(start, tree, handed, handed);
}

/// A node with one child was seen.
pub proof fn lemma_seen_1<P: NodeProcessor>(start: P, tree: Tree, handed: P, end: P)
    requires
        handed == handing_over(start, tree),
        tree.children.len() == 1,
        seen(handed, tree.children[0], end),
    ensures
        seen(start, tree, end),
{
    let empty = Seq::<Tree>::empty();
    lemma_seen_none(handed);
    lemma_seen_push(handed, empty, handed, tree.children[0], end);
    assert(tree.children =~= empty.push(tree.children[0]));
    lemma_seen_node(start, tree, handed, end);
}

/// A node with two children was seen.
pub proof fn lemma_seen_2<P: NodeProcessor>(start: P, tree: Tree, handed: P, after_first: P, end: P)
    requires
        handed == handing_over(start, tree),
        tree.children.len() == 2,
        seen(handed, tree.children[0], after_first),
        seen(after_first, tree.children[1], end),
    ensures
        seen(start, tree, end),
{
    let empty = Seq::<Tree>::empty();
    let c = tree.children;
    lemma_seen_none(handed);
    lemma_seen_push(handed, empty, handed, c[0], after_first);
    lemma_seen_push(handed, empty.push(c[0]), after_first, c[1], end);
    assert(c =~= empty.push(c[0]).push(c[1]));
    lemma_seen_node(start, tree, handed, end);
}

/// A node with four children was seen.
pub proof fn lemma_seen_4<P: NodeProcessor>(
    start: P,
    tree: Tree,
    handed: P,
    after_first: P,
    after_second: P,
    after_third: P,
    end: P,
)
    requires
        handed == handing_over(start, tree),
        tree.children.len() == 4,
        seen(handed, tree.children[0], after_first),
        seen(after_first, tree.children[1], after_second),
        seen(after_second, tree.children[2], after_third),
        seen(after_third, tree.children[3], end),
    ensures
        seen(start, tree, end),
{
    let empty = Seq::<Tree>::empty();
    let c = tree.children;
    lemma_seen_none(handed);
    lemma_seen_push(handed, empty, handed, c[0], after_first);
    lemma_seen_push(handed, empty.push(c[0]), after_first, c[1], after_second);
    lemma_seen_push(handed, empty.push(c[0]).push(c[1]), after_second, c[2], after_third);
    lemma_seen_push(handed, empty.push(c[0]).push(c[1]).push(c[2]), after_third, c[3], end);
    assert(c =~= empty.push(c[0]).push(c[1]).push(c[2]).push(c[3]));
    lemma_seen_node(start, tree, handed, end);
}

} // verus!
