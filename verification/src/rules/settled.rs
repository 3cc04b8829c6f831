//! A second pass of a rule changes nothing.
use vstd::prelude::*;
use crate::nodes::tree::{
    lemma_child_is_shallower, lemma_depth_of_kept_children, lemma_depth_with_children, Tree,
};
use crate::process::laws::{
    keeps_shape, leaves_alone, lemma_child_reports, lemma_reporter, lemma_second_walk,
    lemma_walk_child, lemma_walk_keeps_shape, lemma_walk_leaves_tree, lemma_walk_settles,
    root_settles,
};
use crate::process::node_processor::NodeProcessorMut;
use crate::process::walk::{handing, walk, walk_children};
use crate::rules::call_parens::{
    bare_arguments, bare_call, is_single_argument, is_string, is_table, lemma_bare_arguments_depth,
    Processor, RemoveFunctionCallParens,
};
use crate::rules::empty_do::{
    cleaned_block, cleaned_statement, cleaned_statements, is_do, is_empty_block, is_empty_do,
    EmptyDoFilter, RemoveEmptyDo,
};
use crate::rules::laws::{lemma_cleaned_block_twice, lemma_filter_keeps_all};
use crate::rules::FlawlessRule;

verus! {

/// Making the arguments of calls bare keeps the shape of every node.
pub proof fn lemma_bare_keeps_shape()
    ensures
        keeps_shape::<Processor>(),
{
    assert forall|processor: Processor, node: Tree|
        {
            let made = (#[trigger] processor.rewrite(node)).1;
            &&& made.kind == node.kind
            &&& made.variant == node.variant
            &&& made.children.len() == node.children.len()
            &&& made.depth() <= node.depth()
        } by {
        if node.kind is FunctionCall && node.children.len() == 2 {
            let children = seq![node.children[0], bare_arguments(node.children[1])];
            lemma_bare_arguments_depth(node.children[1]);
            assert forall|i: int| 0 <= i < 2 implies (#[trigger] children[i]).depth() <= node.children[i].depth() by {}
            lemma_depth_with_children(node, children);
        }
    }
}

/// Arguments that were made bare stay as they are when, after a walk, they are made bare again.
proof fn lemma_bare_arguments_settle(processor: Processor, given: Tree)
    requires
        keeps_shape::<Processor>(),
    ensures
        bare_arguments(walk(processor, bare_arguments(given)).1) == walk(processor, bare_arguments(given)).1,
{
    let arguments = bare_arguments(given);
    let left = walk(processor, arguments).1;
    lemma_walk_keeps_shape(processor, arguments);
    if is_single_argument(left) {
        lemma_walk_child(processor, arguments, 0);
        let list = arguments.children[0];
        let (_, same) = handing(processor, arguments);
        assert(same == arguments);
        let before_list = walk_children(processor, arguments.children, 0, arguments.depth()).0;
        lemma_walk_keeps_shape(before_list, list);
        assert(is_single_argument(arguments));
        assert(arguments == given);
        let only = list.children[0];
        assert(!is_string(only) && !is_table(only));
        lemma_walk_child(before_list, list, 0);
        let (handed, node) = handing(before_list, list);
        assert(node == list);
        let before_only = walk_children(handed, list.children, 0, list.depth()).0;
        lemma_walk_keeps_shape(before_only, only);
    }
}

/// What a walk that makes the arguments of calls bare leaves at its root stays as it is.
pub proof fn lemma_bare_settles()
    ensures
        keeps_shape::<Processor>(),
        root_settles::<Processor>(),
{
    lemma_bare_keeps_shape();
    assert forall|first: Processor, tree: Tree, second: Processor| (#[trigger] second.rewrite(
        walk(first, tree).1,
    )).1 == walk(first, tree).1 by {
        let left = walk(first, tree).1;
        lemma_walk_keeps_shape(first, tree);
        if left.kind is FunctionCall && left.children.len() == 2 {
            lemma_walk_child(first, tree, 1);
            let (handed, node) = handing(first, tree);
            assert(node == bare_call(tree));
            let before = walk_children(handed, node.children, 1, node.depth()).0;
            lemma_bare_arguments_settle(before, tree.children[1]);
            assert(seq![left.children[0], left.children[1]] =~= left.children);
        }
    }
}

/// The rule that takes the parentheses off calls changes nothing when it is
/// applied a second time.
pub proof fn lemma_call_parens_twice(block: Tree)
    ensures
        ({
            let rule = RemoveFunctionCallParens {  };
            rule.transformed(rule.transformed(block)) == rule.transformed(block)
        }),
{
    lemma_bare_settles();
    lemma_second_walk(Processor {  }, block, Processor {  });
}

/// A cleaned statement is no deeper than the statement was.
pub proof fn lemma_cleaned_statement_depth(statement: Tree)
    ensures
        cleaned_statement(statement).depth() <= statement.depth(),
    decreases statement.depth(), 0nat,
{
    if is_do(statement) {
        let inner = statement.children[0];
        let block = inner.children[0];
        lemma_child_is_shallower(statement, 0);
        lemma_child_is_shallower(inner, 0);
        lemma_cleaned_block_depth(block);
        let blocks = seq![cleaned_block(block)];
        assert forall|i: int| 0 <= i < 1 implies (#[trigger] blocks[i]).depth() <= inner.children[i].depth() by {}
        lemma_depth_with_children(inner, blocks);
        let inners = seq![inner.with_children(blocks)];
        assert forall|i: int| 0 <= i < 1 implies (#[trigger] inners[i]).depth() <= statement.children[i].depth() by {}
        lemma_depth_with_children(statement, inners);
    }
}

/// A cleaned block is no deeper than the block was.
pub proof fn lemma_cleaned_block_depth(block: Tree)
    ensures
        cleaned_block(block).depth() <= block.depth(),
    decreases block.depth(), 1nat,
{
    if block.kind is Block && block.children.len() == 2 && block.children[0].kind is List {
        let list = block.children[0];
        let stays = |statement: Tree| !is_empty_do(statement);
        let cleaned = cleaned_statements(list.children);
        let kept = cleaned.filter(stays);
        lemma_child_is_shallower(block, 0);
        assert forall|k: int| 0 <= k < cleaned.len() implies (#[trigger] cleaned[k]).depth() <= list.children[k].depth() by {
            lemma_child_is_shallower(list, k);
            lemma_cleaned_statement_depth(list.children[k]);
        }
        lemma_depth_with_children(list, cleaned);
        let all = list.with_children(cleaned);
        assert forall|k: int| 0 <= k < kept.len() implies all.children.contains(#[trigger] kept[k]) by {
            assert(kept.contains(kept[k]));
            cleaned.lemma_filter_contains_rev(stays, kept[k]);
        }
        lemma_depth_of_kept_children(all, kept);
        assert(all.with_children(kept) == list.with_children(kept));
        let children = seq![list.with_children(kept), block.children[1]];
        assert forall|k: int| 0 <= k < 2 implies (#[trigger] children[k]).depth() <= block.children[k].depth() by {}
        lemma_depth_with_children(block, children);
    }
}

/// Cleaning blocks keeps the shape of every node.
pub proof fn lemma_clean_keeps_shape()
    ensures
        keeps_shape::<EmptyDoFilter>(),
{
    assert forall|processor: EmptyDoFilter, node: Tree|
        {
            let made = (#[trigger] processor.rewrite(node)).1;
            &&& made.kind == node.kind
            &&& made.variant == node.variant
            &&& made.children.len() == node.children.len()
            &&& made.depth() <= node.depth()
        } by {
        lemma_cleaned_block_depth(node);
    }
}

/// What a walk that cleans blocks leaves of a statement that stayed when
/// its block was cleaned is a cleaned statement that stays.
proof fn lemma_kept_statement_settles(processor: EmptyDoFilter, given: Tree)
    requires
        keeps_shape::<EmptyDoFilter>(),
        !is_empty_do(cleaned_statement(given)),
        forall|first: EmptyDoFilter, tree: Tree, second: EmptyDoFilter|
            tree.depth() < given.depth() ==> (#[trigger] second.rewrite(walk(first, tree).1)).1 == walk(
                first,
                tree,
            ).1,
    ensures
        ({
            let left = walk(processor, cleaned_statement(given)).1;
            cleaned_statement(left) == left && !is_empty_do(left)
        }),
{
    let statement = cleaned_statement(given);
    let left = walk(processor, statement).1;
    lemma_walk_keeps_shape(processor, statement);
    if is_do(left) {
        lemma_walk_child(processor, statement, 0);
        let (handed, node) = handing(processor, statement);
        assert(node == statement);
        let inner = statement.children[0];
        let before_inner = walk_children(handed, statement.children, 0, statement.depth()).0;
        lemma_walk_keeps_shape(before_inner, inner);
        assert(is_do(statement));
        assert(is_do(given));
        lemma_walk_child(before_inner, inner, 0);
        let (handed_inner, node_inner) = handing(before_inner, inner);
        assert(node_inner == inner);
        let block = inner.children[0];
        let before_block = walk_children(handed_inner, inner.children, 0, inner.depth()).0;
        let left_block = walk(before_block, block).1;
        assert(left.children[0].children[0] == left_block);
        lemma_cleaned_statement_depth(given);
        lemma_child_is_shallower(statement, 0);
        lemma_child_is_shallower(inner, 0);
        assert(before_block.rewrite(left_block).1 == left_block);
        lemma_walk_keeps_shape(before_block, block);
        assert(cleaned_block(left_block) == left_block);
        assert(seq![left_block] =~= left.children[0].children);
        assert(seq![left.children[0]] =~= left.children);
        if is_empty_block(left_block) {
            lemma_cleaned_block_twice(given.children[0].children[0]);
            let (handed_block, node_block) = handing(before_block, block);
            assert(node_block == block);
            lemma_walk_child(before_block, block, 0);
            lemma_walk_child(before_block, block, 1);
            lemma_walk_keeps_shape(walk_children(handed_block, block.children, 0, block.depth()).0, block.children[0]);
            lemma_walk_keeps_shape(walk_children(handed_block, block.children, 1, block.depth()).0, block.children[1]);
            assert(is_empty_block(block));
        }
    }
}

/// What a walk that cleans blocks leaves at its root stays as it is when it is cleaned again.
proof fn lemma_clean_settles_root(first: EmptyDoFilter, tree: Tree, second: EmptyDoFilter)
    requires
        keeps_shape::<EmptyDoFilter>(),
    ensures
        second.rewrite(walk(first, tree).1).1 == walk(first, tree).1,
    decreases tree.depth(),
{
    let left = walk(first, tree).1;
    lemma_walk_keeps_shape(first, tree);
    if left.kind is Block && left.children.len() == 2 && left.children[0].kind is List {
        let stays = |statement: Tree| !is_empty_do(statement);
        let (handed, node) = handing(first, tree);
        lemma_walk_child(first, tree, 0);
        let list = node.children[0];
        let before_list = walk_children(handed, node.children, 0, node.depth()).0;
        lemma_walk_keeps_shape(before_list, list);
        assert(tree.children[0].kind is List);
        assert(node == cleaned_block(tree));
        let given = tree.children[0].children;
        let cleaned = cleaned_statements(given);
        let kept = cleaned.filter(stays);
        assert(list.children == kept);
        let left_list = left.children[0];
        assert(left_list == walk(before_list, list).1);
        let (handed_list, same) = handing(before_list, list);
        assert(same == list);
        assert forall|first: EmptyDoFilter, inner: Tree, second: EmptyDoFilter|
            inner.depth() < tree.depth() implies (#[trigger] second.rewrite(walk(first, inner).1)).1 == walk(
            first,
            inner,
        ).1 by {
            lemma_clean_settles_root(first, inner, second);
        }
        assert forall|i: int| 0 <= i < left_list.children.len() implies cleaned_statement(
            #[trigger] left_list.children[i],
        ) == left_list.children[i] && stays(left_list.children[i]) by {
            lemma_walk_child(before_list, list, i);
            let before = walk_children(handed_list, list.children, i as nat, list.depth()).0;
            assert(kept.contains(kept[i]));
            cleaned.lemma_filter_contains_rev(stays, kept[i]);
            let j = choose|j: int| 0 <= j < cleaned.len() && cleaned[j] == kept[i];
            cleaned.lemma_filter_pred(stays, i);
            lemma_child_is_shallower(tree, 0);
            lemma_child_is_shallower(tree.children[0], j);
            lemma_kept_statement_settles(before, given[j]);
        }
        assert(cleaned_statements(left_list.children) =~= left_list.children);
        lemma_filter_keeps_all(left_list.children, stays);
        assert(left_list.with_children(left_list.children) == left_list);
        assert(seq![left.children[0], left.children[1]] =~= left.children);
    }
}

/// What a walk that cleans blocks leaves at its root stays as it is.
pub proof fn lemma_clean_settles()
    ensures
        keeps_shape::<EmptyDoFilter>(),
        root_settles::<EmptyDoFilter>(),
{
    lemma_clean_keeps_shape();
    assert forall|first: EmptyDoFilter, tree: Tree, second: EmptyDoFilter| (#[trigger] second.rewrite(
        walk(first, tree).1,
    )).1 == walk(first, tree).1 by {
        lemma_clean_settles_root(first, tree, second);
    }
}

/// The rule that removes empty do statements changes nothing when it is
/// applied a second time.
pub proof fn lemma_empty_do_twice(block: Tree)
    ensures
        ({
            let rule = RemoveEmptyDo {  };
            rule.transformed(rule.transformed(block)) == rule.transformed(block)
        }),
{
    lemma_clean_settles();
    lemma_second_walk(EmptyDoFilter {  }, block, EmptyDoFilter {  });
}

/// A sequence that is as long once what fails a test is dropped holds nothing that fails the test.
proof fn lemma_filter_drops_nothing(items: Seq<Tree>, test: spec_fn(Tree) -> bool)
    requires
        items.filter(test).len() == items.len(),
    ensures
        forall|i: int| 0 <= i < items.len() ==> test(#[trigger] items[i]),
        items.filter(test) == items,
    decreases items.len(),
{
    reveal(Seq::filter);
    if items.len() > 0 {
        items.drop_last().lemma_filter_len(test);
        lemma_filter_drops_nothing(items.drop_last(), test);
        assert forall|i: int| 0 <= i < items.len() implies test(#[trigger] items[i]) by {
            if i < items.len() - 1 {
                assert(items.drop_last()[i] == items[i]);
            }
        }
        assert(items.drop_last().push(items.last()) =~= items);
    }
}

/// The statements of a block that cleaning leaves as it is are cleaned and stay.
proof fn lemma_clean_block_facts(block: Tree)
    requires
        cleaned_block(block) == block,
        block.kind is Block,
        block.children.len() == 2,
        block.children[0].kind is List,
    ensures
        forall|i: int|
            0 <= i < block.children[0].children.len() ==> cleaned_statement(
                #[trigger] block.children[0].children[i],
            ) == block.children[0].children[i] && !is_empty_do(block.children[0].children[i]),
{
    let list = block.children[0];
    let stays = |statement: Tree| !is_empty_do(statement);
    let cleaned = cleaned_statements(list.children);
    let kept = cleaned.filter(stays);
    assert(cleaned_block(block).children[0] == list.with_children(kept));
    assert(kept == list.children);
    lemma_filter_drops_nothing(cleaned, stays);
    assert forall|i: int| 0 <= i < list.children.len() implies cleaned_statement(#[trigger] list.children[i])
        == list.children[i] && !is_empty_do(list.children[i]) by {
        assert(cleaned[i] == cleaned_statement(list.children[i]));
        assert(stays(cleaned[i]));
    }
}

/// What the walk that makes arguments bare leaves of a cleaned statement that stays is cleaned and stays.
proof fn lemma_bare_keeps_statement(processor: Processor, statement: Tree)
    requires
        keeps_shape::<Processor>(),
        cleaned_statement(statement) == statement,
        !is_empty_do(statement),
    ensures
        ({
            let left = walk(processor, statement).1;
            cleaned_statement(left) == left && !is_empty_do(left)
        }),
    decreases statement.depth(), 0nat,
{
    let left = walk(processor, statement).1;
    lemma_walk_keeps_shape(processor, statement);
    if is_do(left) {
        lemma_walk_child(processor, statement, 0);
        let (handed, node) = handing(processor, statement);
        assert(node == statement);
        let inner = statement.children[0];
        let before_inner = walk_children(handed, statement.children, 0, statement.depth()).0;
        lemma_walk_keeps_shape(before_inner, inner);
        assert(is_do(statement));
        lemma_walk_child(before_inner, inner, 0);
        let (handed_inner, node_inner) = handing(before_inner, inner);
        assert(node_inner == inner);
        let block = inner.children[0];
        let before_block = walk_children(handed_inner, inner.children, 0, inner.depth()).0;
        let left_block = walk(before_block, block).1;
        assert(left.children[0].children[0] == left_block);
        assert(cleaned_statement(statement).children[0].children[0] == cleaned_block(block));
        assert(cleaned_block(block) == block);
        lemma_child_is_shallower(statement, 0);
        lemma_child_is_shallower(inner, 0);
        lemma_bare_keeps_clean_root(before_block, block);
        lemma_walk_keeps_shape(before_block, block);
        assert(seq![left_block] =~= left.children[0].children);
        assert(seq![left.children[0]] =~= left.children);
        if is_empty_block(left_block) {
            let (handed_block, node_block) = handing(before_block, block);
            assert(node_block == block);
            lemma_walk_child(before_block, block, 0);
            lemma_walk_child(before_block, block, 1);
            lemma_walk_keeps_shape(walk_children(handed_block, block.children, 0, block.depth()).0, block.children[0]);
            lemma_walk_keeps_shape(walk_children(handed_block, block.children, 1, block.depth()).0, block.children[1]);
            assert(is_empty_block(block));
        }
    }
}

/// What the walk that makes arguments bare leaves of a block that cleaning
/// leaves as it is, cleaning leaves as it is.
proof fn lemma_bare_keeps_clean_root(processor: Processor, tree: Tree)
    requires
        keeps_shape::<Processor>(),
        cleaned_block(tree) == tree,
    ensures
        cleaned_block(walk(processor, tree).1) == walk(processor, tree).1,
    decreases tree.depth(), 1nat,
{
    let left = walk(processor, tree).1;
    lemma_walk_keeps_shape(processor, tree);
    if left.kind is Block && left.children.len() == 2 && left.children[0].kind is List {
        let stays = |statement: Tree| !is_empty_do(statement);
        let (handed, node) = handing(processor, tree);
        assert(node == tree);
        lemma_walk_child(processor, tree, 0);
        let list = tree.children[0];
        let before_list = walk_children(handed, tree.children, 0, tree.depth()).0;
        lemma_walk_keeps_shape(before_list, list);
        lemma_clean_block_facts(tree);
        let left_list = left.children[0];
        let (handed_list, same) = handing(before_list, list);
        assert(same == list);
        assert forall|i: int| 0 <= i < left_list.children.len() implies cleaned_statement(
            #[trigger] left_list.children[i],
        ) == left_list.children[i] && stays(left_list.children[i]) by {
            lemma_walk_child(before_list, list, i);
            let before = walk_children(handed_list, list.children, i as nat, list.depth()).0;
            lemma_child_is_shallower(tree, 0);
            lemma_child_is_shallower(list, i);
            lemma_bare_keeps_statement(before, list.children[i]);
        }
        assert(cleaned_statements(left_list.children) =~= left_list.children);
        lemma_filter_keeps_all(left_list.children, stays);
        assert(left_list.with_children(left_list.children) == left_list);
        assert(seq![left.children[0], left.children[1]] =~= left.children);
    }
}

/// What bare arguments report, the arguments reported.
proof fn lemma_bare_arguments_report(arguments: Tree, node: Tree)
    requires
        bare_arguments(arguments).visits().contains(node),
    ensures
        arguments.visits().contains(node),
{
    let bare = bare_arguments(arguments);
    if bare != arguments {
        let list = arguments.children[0];
        let only = list.children[0];
        let payload = only.children[0];
        reveal(Tree::visits);
        reveal(Tree::visits_of);
        assert(bare.children =~= seq![payload]);
        let i = lemma_reporter(bare.children, 1, node);
        lemma_child_reports(only, 0, node);
        lemma_child_reports(list, 0, node);
        lemma_child_reports(arguments, 0, node);
    }
}

/// Where cleaning leaves every block of a tree as it is, it leaves them as
/// they are after the walk that makes arguments bare.
pub proof fn lemma_bare_keeps_clean(processor: Processor, tree: Tree)
    requires
        keeps_shape::<Processor>(),
        leaves_alone::<EmptyDoFilter>(tree.visits()),
    ensures
        leaves_alone::<EmptyDoFilter>(walk(processor, tree).1.visits()),
    decreases tree.depth(),
{
    reveal(Tree::visits);
    reveal(Tree::visits_of);
    let left = walk(processor, tree).1;
    let (handed, node) = handing(processor, tree);
    lemma_walk_keeps_shape(processor, tree);
    assert forall|other: EmptyDoFilter, met: Tree| left.visits().contains(met) implies (
    #[trigger] other.rewrite(met)).1 == met by {
        if met == left && left.kind.is_processed() {
            if left.kind is Block {
                assert(tree.visits()[0] == tree);
                assert(other.rewrite(tree).1 == tree);
                lemma_bare_keeps_clean_root(processor, tree);
            }
        } else {
            let below = Tree::visits_of(left.children, left.children.len());
            let k = choose|k: int| 0 <= k < left.visits().len() && left.visits()[k] == met;
            if left.kind.is_processed() {
                assert(below[k - 1] == met);
            } else {
                assert(below[k] == met);
            }
            let i = lemma_reporter(left.children, left.children.len(), met);
            lemma_walk_child(processor, tree, i);
            let before = walk_children(handed, node.children, i as nat, node.depth()).0;
            let child = node.children[i];
            assert forall|any: EmptyDoFilter, under: Tree| child.visits().contains(under) implies (
            #[trigger] any.rewrite(under)).1 == under by {
                if child == tree.children[i] {
                    lemma_child_reports(tree, i, under);
                } else {
                    assert(tree.kind is FunctionCall && tree.children.len() == 2 && i == 1);
                    lemma_bare_arguments_report(tree.children[1], under);
                    lemma_child_reports(tree, 1, under);
                }
            }
            lemma_bare_keeps_clean(before, child);
        }
    }
}

/// The two rules one after the other, empty do statements first, change
/// nothing when they are applied a second time.
pub proof fn lemma_rules_twice(block: Tree)
    ensures
        ({
            let first = RemoveEmptyDo {  };
            let second = RemoveFunctionCallParens {  };
            let once = second.transformed(first.transformed(block));
            second.transformed(first.transformed(once)) == once
        }),
{
    lemma_clean_settles();
    lemma_bare_settles();
    let cleaned = walk(EmptyDoFilter {  }, block).1;
    let once = walk(Processor {  }, cleaned).1;
    lemma_walk_settles(EmptyDoFilter {  }, block);
    lemma_bare_keeps_clean(Processor {  }, cleaned);
    lemma_walk_leaves_tree(EmptyDoFilter {  }, once);
    lemma_second_walk(Processor {  }, cleaned, Processor {  });
}

} // verus!
