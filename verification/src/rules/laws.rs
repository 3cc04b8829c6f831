//! What holds of the writing and the reading of rules.
use vstd::prelude::*;
use crate::nodes::block::Block;
use crate::nodes::model::{last_statement_tree, statement_trees};
use crate::nodes::statements::LastStatement;
use crate::nodes::tree::{lemma_child_is_shallower, Tree};
use crate::nodes::unfold::{
    lemma_block_tree, lemma_last_statement_tree, lemma_optional_last_statement_tree,
    lemma_statement_trees,
};
use crate::process::laws::{leaves_alone, lemma_walk_leaves_tree};
use crate::process::node_processor::NodeProcessorMut;
use crate::rules::call_parens::{Processor, RemoveFunctionCallParens};
use crate::rules::configuration_error::Problem;
use crate::rules::configured::{
    entry_problem, first_entry_problem, first_missing, is_given, problem, shapes_of, ConfiguredRule,
    Shape,
};
use crate::rules::registry::{lemma_names_differ, KnownRule};
use crate::rules::rule_property::{entries_data, PropertyData};
use crate::rules::call_parens::{bare_arguments, bare_call};
use crate::rules::empty_do::{
    cleaned_block, cleaned_statement, cleaned_statements, is_do, is_empty_do, EmptyDoFilter,
    RemoveEmptyDo,
};
use crate::rules::serialization::{is_read, is_written, RuleReadError, SerializedRule};
use crate::rules::FlawlessRule;

verus! {

/// Nothing is wrong with the entries from a place on exactly where nothing is wrong with any of them.
pub proof fn lemma_no_entry_problem(shapes: Seq<Shape>, entries: Seq<(Seq<char>, PropertyData)>, from: int)
    requires
        0 <= from,
    ensures
        first_entry_problem(shapes, entries, from) is None <==> forall|i: int|
            from <= i < entries.len() ==> entry_problem(
                shapes,
                (#[trigger] entries[i]).0,
                entries[i].1,
            ) is None,
    decreases entries.len() - from,
{
    if from < entries.len() {
        lemma_no_entry_problem(shapes, entries, from + 1);
    }
}

/// Nothing is missing from a place of the shapes on exactly where every needed property is given.
pub proof fn lemma_nothing_missing(shapes: Seq<Shape>, entries: Seq<(Seq<char>, PropertyData)>, from: int)
    requires
        0 <= from,
    ensures
        first_missing(shapes, entries, from) is None <==> forall|k: int|
            from <= k < shapes.len() && (#[trigger] shapes[k]).required ==> is_given(entries, shapes[k].name),
    decreases shapes.len() - from,
{
    if from < shapes.len() {
        lemma_nothing_missing(shapes, entries, from + 1);
    }
}

/// Whether something is wrong with properties does not depend on their order.
pub proof fn lemma_problem_any_order(
    shapes: Seq<Shape>,
    entries: Seq<(Seq<char>, PropertyData)>,
    others: Seq<(Seq<char>, PropertyData)>,
)
    requires
        entries.to_multiset() == others.to_multiset(),
        problem(shapes, entries) is None,
    ensures
        problem(shapes, others) is None,
{
    broadcast use vstd::seq_lib::group_to_multiset_ensures;

    lemma_no_entry_problem(shapes, entries, 0);
    lemma_no_entry_problem(shapes, others, 0);
    lemma_nothing_missing(shapes, entries, 0);
    lemma_nothing_missing(shapes, others, 0);
    assert forall|i: int| 0 <= i < others.len() implies entry_problem(
        shapes,
        (#[trigger] others[i]).0,
        others[i].1,
    ) is None by {
        assert(others.contains(others[i]));
        assert(entries.to_multiset().count(others[i]) > 0);
        assert(entries.contains(others[i]));
        let j = choose|j: int| 0 <= j < entries.len() && entries[j] == others[i];
        assert(entry_problem(shapes, entries[j].0, entries[j].1) is None);
    }
    assert forall|k: int| 0 <= k < shapes.len() && (#[trigger] shapes[k]).required implies is_given(
        others,
        shapes[k].name,
    ) by {
        assert(is_given(entries, shapes[k].name));
        let i = choose|i: int| 0 <= i < entries.len() && (#[trigger] entries[i]).0 == shapes[k].name;
        assert(entries.contains(entries[i]));
        assert(others.to_multiset().count(entries[i]) > 0);
        assert(others.contains(entries[i]));
        let j = choose|j: int| 0 <= j < others.len() && others[j] == entries[i];
        assert(others[j].0 == shapes[k].name);
    }
}

/// A rule that takes its properties, written and then read, is the rule
/// again: the same rule with the same properties, whatever their order. A
/// rule without properties is written as its bare name.
pub proof fn lemma_written_then_read(
    rule: ConfiguredRule,
    serialized: SerializedRule,
    result: Result<ConfiguredRule, RuleReadError>,
)
    requires
        problem(shapes_of(rule.rule), rule.given()) is None,
        is_written(rule.rule.name(), rule.given(), serialized),
        is_read(serialized, result),
    ensures
        rule.given().len() == 0 <==> serialized is Name,
        result matches Ok(read) && read.rule == rule.rule && read.given().to_multiset()
            == rule.given().to_multiset(),
{
    let given = match serialized {
        SerializedRule::Name(_) => Seq::<(Seq<char>, PropertyData)>::empty(),
        SerializedRule::Object { rule: _, properties } => entries_data(properties@),
    };
    assert(given.to_multiset() =~= rule.given().to_multiset()) by {
        if serialized is Name {
            assert(rule.given() =~= Seq::empty());
        }
    }
    lemma_problem_any_order(shapes_of(rule.rule), rule.given(), given);
    match result {
        Ok(read) => {
            if read.rule != rule.rule {
                lemma_names_differ(read.rule, rule.rule);
            }
        },
        Err(RuleReadError::Configuration(error)) => {
            let known = choose|known: KnownRule|
                known.name() == rule.rule.name() && #[trigger] problem(shapes_of(known), given) == Some(error@);
            if known != rule.rule {
                lemma_names_differ(known, rule.rule);
            }
        },
        Err(_) => {},
    }
}

/// A block without statements reports itself and, where it ends in a break, the break.
proof fn lemma_reports_of_bare_block(block: Block)
    requires
        block.statements@.len() == 0,
        block.last_statement is None || block.last_statement == Some(LastStatement::Break),
    ensures
        block@.visits() == (if block.last_statement is None {
            seq![block@]
        } else {
            seq![block@, last_statement_tree(LastStatement::Break)]
        }),
        block@.children.len() == 2,
        block@.children[0].children.len() == 0,
        block@.kind is Block,
        last_statement_tree(LastStatement::Break).kind is LastStatement,
{
    lemma_block_tree(block);
    lemma_statement_trees(block.statements@);
    lemma_optional_last_statement_tree(block.last_statement);
    lemma_last_statement_tree(LastStatement::Break);
    let tree = block@;
    let list = tree.children[0];
    let last = tree.children[1];
    let none = Seq::<Tree>::empty();
    reveal_with_fuel(Tree::visits, 4);
    reveal_with_fuel(Tree::visits_of, 4);
    assert(Tree::visits_of(list.children, 0) == none);
    assert(list.visits() == none);
    assert(Tree::visits_of(tree.children, 0) == none);
    assert(Tree::visits_of(tree.children, 1) =~= none);
    if block.last_statement is None {
        assert(Tree::visits_of(last.children, 0) == none);
        assert(last.visits() == none);
        assert(Tree::visits_of(tree.children, 2) =~= none);
        assert(tree.visits() =~= seq![tree]);
    } else {
        let ending = last_statement_tree(LastStatement::Break);
        assert(last.children[0] == ending);
        assert(Tree::visits_of(ending.children, 0) == none);
        assert(ending.visits() =~= seq![ending]);
        assert(Tree::visits_of(last.children, 0) == none);
        assert(Tree::visits_of(last.children, 1) =~= seq![ending]);
        assert(last.visits() =~= seq![ending]);
        assert(Tree::visits_of(tree.children, 2) =~= seq![ending]);
        assert(tree.visits() =~= seq![tree, ending]);
    }
}

/// The rules that this library applies leave a block without statements as
/// it is, whether it ends in nothing or in a break: an empty block stays
/// empty, and a lone break stays.
pub proof fn lemma_rules_keep_bare_block(block: Block)
    requires
        block.statements@.len() == 0,
        block.last_statement is None || block.last_statement == Some(LastStatement::Break),
    ensures
        (RemoveEmptyDo {  }).transformed(block@) == block@,
        (RemoveFunctionCallParens {  }).transformed(block@) == block@,
{
    lemma_reports_of_bare_block(block);
    let tree = block@;
    let reports = tree.visits();
    assert forall|processor: EmptyDoFilter, node: Tree| reports.contains(node) implies (
    #[trigger] processor.rewrite(node)).1 == node by {
        if node == tree {
            let list = tree.children[0];
            reveal(Seq::filter);
            assert(cleaned_statements(list.children) =~= list.children);
            assert(list.children.filter(|statement: Tree| !is_empty_do(statement)) =~= list.children);
            assert(list.with_children(list.children) == list);
            assert(seq![list, tree.children[1]] =~= tree.children);
            assert(tree.with_children(tree.children) == tree);
        }
    }
    assert forall|processor: Processor, node: Tree| reports.contains(node) implies (
    #[trigger] processor.rewrite(node)).1 == node by {}
    lemma_walk_leaves_tree(EmptyDoFilter {  }, tree);
    lemma_walk_leaves_tree(Processor {  }, tree);
}

/// A call whose arguments are bare stays as it is when they are made bare again.
pub proof fn lemma_bare_call_twice(call: Tree)
    ensures
        bare_call(bare_call(call)) == bare_call(call),
{
    if call.children.len() == 2 {
        let once = bare_call(call);
        assert(bare_arguments(bare_arguments(call.children[1])) == bare_arguments(call.children[1]));
        assert(once.children[1] == bare_arguments(call.children[1]));
        assert(seq![once.children[0], bare_arguments(once.children[1])] =~= once.children);
    }
}

/// A sequence whose items all pass a test is what is left of it when the others are dropped.
pub proof fn lemma_filter_keeps_all(items: Seq<Tree>, test: spec_fn(Tree) -> bool)
    requires
        forall|i: int| 0 <= i < items.len() ==> test(#[trigger] items[i]),
    ensures
        items.filter(test) == items,
    decreases items.len(),
{
    reveal(Seq::filter);
    if items.len() > 0 {
        lemma_filter_keeps_all(items.drop_last(), test);
        assert(items.drop_last().push(items.last()) =~= items);
    }
}

/// A cleaned statement stays as it is when it is cleaned again.
pub proof fn lemma_cleaned_statement_twice(statement: Tree)
    ensures
        cleaned_statement(cleaned_statement(statement)) == cleaned_statement(statement),
    decreases statement.depth(), 0nat,
{
    if is_do(statement) {
        let inner = statement.children[0];
        let block = inner.children[0];
        lemma_child_is_shallower(statement, 0);
        lemma_child_is_shallower(inner, 0);
        lemma_cleaned_block_twice(block);
        let once = cleaned_statement(statement);
        assert(is_do(once));
        assert(once.children[0].children[0] == cleaned_block(block));
        assert(seq![once.children[0].with_children(seq![cleaned_block(cleaned_block(block))])]
            =~= once.children);
        assert(seq![cleaned_block(block)] =~= once.children[0].children);
    }
}

/// A cleaned block stays as it is when it is cleaned again.
pub proof fn lemma_cleaned_block_twice(block: Tree)
    ensures
        cleaned_block(cleaned_block(block)) == cleaned_block(block),
    decreases block.depth(), 1nat,
{
    if block.kind is Block && block.children.len() == 2 && block.children[0].kind is List {
        let list = block.children[0];
        let stays = |statement: Tree| !is_empty_do(statement);
        let cleaned = cleaned_statements(list.children);
        let kept = cleaned.filter(stays);
        let once = cleaned_block(block);
        assert(once.children[0].children == kept);
        assert forall|i: int| 0 <= i < kept.len() implies cleaned_statement(#[trigger] kept[i]) == kept[i]
            && stays(kept[i]) by {
            assert(kept.contains(kept[i]));
            cleaned.lemma_filter_contains_rev(stays, kept[i]);
            let j = choose|j: int| 0 <= j < cleaned.len() && cleaned[j] == kept[i];
            lemma_child_is_shallower(block, 0);
            lemma_child_is_shallower(list, j);
            lemma_cleaned_statement_twice(list.children[j]);
            cleaned.lemma_filter_pred(stays, i);
        }
        assert(cleaned_statements(kept) =~= kept);
        lemma_filter_keeps_all(kept, stays);
        assert(once.children[0].with_children(kept) == once.children[0]);
        assert(seq![once.children[0], once.children[1]] =~= once.children);
    }
}

} // verus!
