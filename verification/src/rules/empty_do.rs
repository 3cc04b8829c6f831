//! The rule that removes the do statements that hold nothing.
use vstd::prelude::*;
use crate::nodes::block::Block;
use crate::nodes::expressions::{
    BinaryExpression, Expression, FieldExpression, FunctionCall, FunctionExpression,
    IndexExpression, NumberExpression, ParentheseExpression, Prefix, StringExpression,
    TableExpression, UnaryExpression,
};
use crate::nodes::local_assign::LocalAssignStatement;
use crate::nodes::lux::{
    LUXAttribute, LUXAttributeValue, LUXChild, LUXElement, LUXExpression, LUXFragment,
    LUXOpenCloseElement, LUXSelfClosingElement,
};
use crate::nodes::statements::{
    AssignStatement, DoStatement, FunctionStatement, GenericForStatement, IfStatement,
    LastStatement, LocalFunctionStatement, NumericForStatement, RepeatStatement, Statement,
    WhileStatement,
};
use crate::nodes::token::Identifier;
use crate::nodes::list::decides;
use crate::nodes::model::{statement_tree, statement_trees};
use crate::nodes::tree::{
    lemma_child_is_shallower, lemma_depth_of_kept_children, lemma_depth_with_children, Tree,
};
use crate::nodes::unfold::{
    lemma_assign_tree, lemma_binary_tree, lemma_block_tree, lemma_call_tree, lemma_do_tree,
    lemma_expression_tree, lemma_field_tree, lemma_function_expression_tree,
    lemma_function_statement_tree, lemma_generic_for_tree, lemma_if_tree, lemma_index_tree,
    lemma_last_statement_tree, lemma_local_assign_tree, lemma_local_function_tree,
    lemma_lux_attribute_tree, lemma_lux_attribute_value_tree, lemma_lux_child_tree,
    lemma_lux_element_tree, lemma_lux_expression_tree, lemma_lux_fragment_tree,
    lemma_lux_open_close_tree, lemma_lux_self_closing_tree, lemma_numeric_for_tree,
    lemma_optional_last_statement_tree, lemma_parenthese_tree, lemma_prefix_tree,
    lemma_repeat_tree, lemma_statement_tree, lemma_statement_trees, lemma_table_tree,
    lemma_unary_tree, lemma_while_tree,
};
use crate::process::node_processor::NodeProcessorMut;
use crate::process::visitors_mut::{DefaultVisitorMut, NodeVisitorMut};
use crate::process::walk::{walk, walked};
use crate::rules::configuration_error::RuleConfigurationError;
use crate::rules::rule_property::{entries_data, PropertyData, RuleProperties};
use crate::rules::{verify_no_rule_properties, Context, FlawlessRule, RuleConfiguration};

verus! {

pub const REMOVE_EMPTY_DO_RULE_NAME: &'static str = "remove_empty_do";

/// The model of a block without statements and without a last statement.
pub open spec fn is_empty_block(block: Tree) -> bool {
    &&& block.kind is Block
    &&& block.children.len() == 2
    &&& block.children[0].children.len() == 0
    &&& block.children[1].children.len() == 0
}

/// The model of a statement that is a do statement over an empty block.
pub open spec fn is_empty_do(statement: Tree) -> bool {
    &&& statement.kind is Statement
    &&& statement.variant == 1
    &&& statement.children.len() == 1
    &&& statement.children[0].children.len() == 1
    &&& is_empty_block(statement.children[0].children[0])
}

/// The model of a statement that is a do statement.
pub open spec fn is_do(statement: Tree) -> bool {
    &&& statement.kind is Statement
    &&& statement.variant == 1
    &&& statement.children.len() == 1
    &&& statement.children[0].children.len() == 1
}

/// The statements, each one cleaned.
pub open spec fn cleaned_statements(statements: Seq<Tree>) -> Seq<Tree>
    decreases statements,
{
    Seq::new(
        statements.len(),
        |i: int|
            if 0 <= i < statements.len() {
                cleaned_statement(statements[i])
            } else {
                arbitrary()
            },
    )
}

/// The statement with its block cleaned, where it is a do statement; the
/// statement as it is, where it is anything else.
pub open spec fn cleaned_statement(statement: Tree) -> Tree
    decreases statement,
{
    if is_do(statement) {
        let inner = statement.children[0];
        statement.with_children(seq![inner.with_children(seq![cleaned_block(inner.children[0])])])
    } else {
        statement
    }
}

/// The block without the do statements among its own statements that hold
/// nothing once they are cleaned themselves. The statements that stay keep
/// their order. The blocks of statements other than do statements are left
/// as they are.
pub open spec fn cleaned_block(block: Tree) -> Tree
    decreases block,
{
    if block.kind is Block && block.children.len() == 2 && block.children[0].kind is List {
        let list = block.children[0];
        block.with_children(
            seq![
                list.with_children(
                    cleaned_statements(list.children).filter(|statement: Tree| !is_empty_do(statement)),
                ),
                block.children[1],
            ],
        )
    } else {
        block
    }
}

/// The models of the statements that stay are the models that stay.
pub proof fn lemma_kept_statements(statements: Seq<Statement>)
    ensures
        statement_trees(statements.filter(|statement: Statement| !is_empty_do(statement@)))
            == statement_trees(statements).filter(|statement: Tree| !is_empty_do(statement)),
    decreases statements.len(),
{
    let stays = |statement: Statement| !is_empty_do(statement@);
    let tree_stays = |statement: Tree| !is_empty_do(statement);
    reveal(Seq::filter);
    lemma_statement_trees(statements);
    lemma_statement_trees(statements.filter(stays));
    if statements.len() == 0 {
        assert(statement_trees(statements.filter(stays)) =~= statement_trees(statements).filter(tree_stays));
    } else {
        let front = statements.drop_last();
        let last = statements.last();
        lemma_kept_statements(front);
        lemma_statement_trees(front);
        lemma_statement_trees(front.filter(stays));
        assert(statement_trees(statements).drop_last() =~= statement_trees(front));
        assert(statement_trees(statements).last() == last@);
        if stays(last) {
            assert(statements.filter(stays) == front.filter(stays).push(last));
            assert(statement_trees(front.filter(stays).push(last)) =~= statement_trees(front.filter(stays)).push(last@));
        }
        assert(statement_trees(statements.filter(stays)) =~= statement_trees(statements).filter(tree_stays));
    }
}

/// Cleans the block of a do statement.
fn clean_statement(statement: &mut Statement)
    ensures
        final(statement)@ == cleaned_statement(old(statement)@),
        final(statement)@.depth() <= old(statement)@.depth(),
    decreases old(statement)@.depth(), 0nat,
{
    proof {
        lemma_statement_tree(*statement);
    }
    let ghost before = statement@;
    match statement {
        Statement::Do(inner) => {
            proof {
                lemma_do_tree(*inner);
                lemma_child_is_shallower(before, 0);
                lemma_child_is_shallower(before.children[0], 0);
            }
            let ghost inner_before = inner@;
            clean_block(&mut inner.block);
            proof {
                lemma_do_tree(*inner);
                let block = inner.block@;
                assert(inner@ == inner_before.with_children(seq![block]));
                assert forall|i: int| 0 <= i < 1 implies (#[trigger] seq![block][i]).depth()
                    <= inner_before.children[i].depth() by {}
                lemma_depth_with_children(inner_before, seq![block]);
            }
        },
        _ => {},
    }
    proof {
        lemma_statement_tree(*statement);
        if is_do(before) {
            let inner_after = statement@.children[0];
            assert(statement@ == before.with_children(seq![inner_after]));
            assert forall|i: int| 0 <= i < 1 implies (#[trigger] seq![inner_after][i]).depth()
                <= before.children[i].depth() by {}
            lemma_depth_with_children(before, seq![inner_after]);
        }
    }
}

/// Removes from the block the do statements that hold nothing, the ones
/// that hold nothing but such do statements too.
fn clean_block(block: &mut Block)
    ensures
        final(block)@ == cleaned_block(old(block)@),
        final(block)@.depth() <= old(block)@.depth(),
    decreases old(block)@.depth(), 1nat,
{
    proof {
        lemma_block_tree(*block);
        lemma_statement_trees(block.statements@);
    }
    let ghost before = block@;
    let ghost list = before.children[0];
    let ghost given = block.statements@;
    let ghost trees = statement_trees(given);
    let count = block.statements.len();
    let mut i: usize = 0;
    while i < count
        invariant
            i <= count,
            block.statements@.len() == count,
            given.len() == count,
            trees == statement_trees(given),
            trees.len() == count,
            list.children == trees,
            forall|k: int| 0 <= k < count ==> (#[trigger] trees[k]) == given[k]@,
            before.children.len() == 2,
            before.children[0] == list,
            before.depth() == old(block)@.depth(),
            block.last_statement == old(block).last_statement,
            forall|k: int| 0 <= k < i ==> (#[trigger] block.statements@[k])@ == cleaned_statement(trees[k]),
            forall|k: int| i <= k < count ==> block.statements@[k] == given[k],
            forall|k: int| 0 <= k < count ==> (#[trigger] block.statements@[k])@.depth() <= trees[k].depth(),
        decreases count - i,
    {
        proof {
            assert(given[i as int]@ == trees[i as int]);
            lemma_child_is_shallower(before, 0);
            lemma_child_is_shallower(list, i as int);
        }
        clean_statement(&mut block.statements[i]);
        i += 1;
    }
    let ghost cleaned = cleaned_statements(trees);
    let ghost statements = block.statements@;
    proof {
        lemma_statement_trees(statements);
        assert(statement_trees(statements) =~= cleaned);
    }
    let keep = |statement: &Statement| -> (kept: bool)
        ensures
            kept == !is_empty_do(statement@),
        {
            proof {
                lemma_statement_tree(*statement);
            }
            match statement {
                Statement::Do(inner) => {
                    proof {
                        lemma_do_tree(*inner);
                        lemma_block_tree(inner.block);
                        lemma_statement_trees(inner.block.statements@);
                        lemma_optional_last_statement_tree(inner.block.last_statement);
                    }
                    !inner.block.is_empty()
                },
                _ => true,
            }
        };
    assert(decides(keep, |statement: Statement| !is_empty_do(statement@)));
    block.filter_statements(keep);
    proof {
        lemma_block_tree(*block);
        lemma_kept_statements(statements);
        let kept = cleaned.filter(|statement: Tree| !is_empty_do(statement));
        assert(block@ == cleaned_block(before));
        let all = list.with_children(cleaned);
        assert forall|k: int| 0 <= k < cleaned.len() implies (#[trigger] cleaned[k]).depth() <= list.children[k].depth() by {
            assert(cleaned[k] == statements[k]@);
        }
        lemma_depth_with_children(list, cleaned);
        assert forall|k: int| 0 <= k < kept.len() implies all.children.contains(#[trigger] kept[k]) by {
            assert(kept.contains(kept[k]));
            cleaned.lemma_filter_contains_rev(|statement: Tree| !is_empty_do(statement), kept[k]);
        }
        lemma_depth_of_kept_children(all, kept);
        assert(all.with_children(kept) == list.with_children(kept));
        let children = seq![list.with_children(kept), before.children[1]];
        assert forall|k: int| 0 <= k < 2 implies (#[trigger] children[k]).depth() <= before.children[k].depth() by {}
        lemma_depth_with_children(before, children);
    }
}

/// The processor of the rule: it cleans blocks and changes nothing else.
#[derive(Clone, Copy, Debug, Default, PartialEq, Eq)]
pub struct EmptyDoFilter {}

impl NodeProcessorMut for EmptyDoFilter {
    open spec fn rewrite(self, node: Tree) -> (Self, Tree) {
        if node.kind is Block {
            (self, cleaned_block(node))
        } else {
            (self, node)
        }
    }

    fn process_block(&mut self, block: &mut Block) {
        proof {
            lemma_block_tree(*block);
        }
        clean_block(block);
    }

    fn process_statement(&mut self, statement: &mut Statement) {
        proof {
            lemma_statement_tree(*statement);
        }
    }

    fn process_function_call(&mut self, call: &mut FunctionCall) {
        proof {
            lemma_call_tree(*call);
        }
    }

    fn process_assign_statement(&mut self, statement: &mut AssignStatement) {
        proof {
            lemma_assign_tree(*statement);
        }
    }

    fn process_do_statement(&mut self, statement: &mut DoStatement) {
        proof {
            lemma_do_tree(*statement);
        }
    }

    fn process_function_statement(&mut self, statement: &mut FunctionStatement) {
        proof {
            lemma_function_statement_tree(*statement);
        }
    }

    fn process_generic_for_statement(&mut self, statement: &mut GenericForStatement) {
        proof {
            lemma_generic_for_tree(*statement);
        }
    }

    fn process_if_statement(&mut self, statement: &mut IfStatement) {
        proof {
            lemma_if_tree(*statement);
        }
    }

    fn process_last_statement(&mut self, statement: &mut LastStatement) {
        proof {
            lemma_last_statement_tree(*statement);
        }
    }

    fn process_local_assign_statement(&mut self, statement: &mut LocalAssignStatement) {
        proof {
            lemma_local_assign_tree(*statement);
        }
    }

    fn process_local_function_statement(&mut self, statement: &mut LocalFunctionStatement) {
        proof {
            lemma_local_function_tree(*statement);
        }
    }

    fn process_numeric_for_statement(&mut self, statement: &mut NumericForStatement) {
        proof {
            lemma_numeric_for_tree(*statement);
        }
    }

    fn process_repeat_statement(&mut self, statement: &mut RepeatStatement) {
        proof {
            lemma_repeat_tree(*statement);
        }
    }

    fn process_while_statement(&mut self, statement: &mut WhileStatement) {
        proof {
            lemma_while_tree(*statement);
        }
    }

    fn process_expression(&mut self, expression: &mut Expression) {
        proof {
            lemma_expression_tree(*expression);
        }
    }

    fn process_binary_expression(&mut self, binary: &mut BinaryExpression) {
        proof {
            lemma_binary_tree(*binary);
        }
    }

    fn process_field_expression(&mut self, field: &mut FieldExpression) {
        proof {
            lemma_field_tree(*field);
        }
    }

    fn process_function_expression(&mut self, function: &mut FunctionExpression) {
        proof {
            lemma_function_expression_tree(*function);
        }
    }

    fn process_variable_expression(&mut self, variable: &mut Identifier) {
    }

    fn process_index_expression(&mut self, index: &mut IndexExpression) {
        proof {
            lemma_index_tree(*index);
        }
    }

    fn process_number_expression(&mut self, number: &mut NumberExpression) {
    }

    fn process_prefix_expression(&mut self, prefix: &mut Prefix) {
        proof {
            lemma_prefix_tree(*prefix);
        }
    }

    fn process_parenthese_expression(&mut self, parenthese: &mut ParentheseExpression) {
        proof {
            lemma_parenthese_tree(*parenthese);
        }
    }

    fn process_string_expression(&mut self, string: &mut StringExpression) {
    }

    fn process_table_expression(&mut self, table: &mut TableExpression) {
        proof {
            lemma_table_tree(*table);
        }
    }

    fn process_unary_expression(&mut self, unary: &mut UnaryExpression) {
        proof {
            lemma_unary_tree(*unary);
        }
    }

    fn process_lux_expression(&mut self, lux: &mut LUXExpression) {
        proof {
            lemma_lux_expression_tree(*lux);
        }
    }

    fn process_lux_element(&mut self, element: &mut LUXElement) {
        proof {
            lemma_lux_element_tree(*element);
        }
    }

    fn process_lux_open_close_element(&mut self, element: &mut LUXOpenCloseElement) {
        proof {
            lemma_lux_open_close_tree(*element);
        }
    }

    fn process_lux_self_closing_element(&mut self, element: &mut LUXSelfClosingElement) {
        proof {
            lemma_lux_self_closing_tree(*element);
        }
    }

    fn process_lux_fragment(&mut self, fragment: &mut LUXFragment) {
        proof {
            lemma_lux_fragment_tree(*fragment);
        }
    }

    fn process_lux_child(&mut self, child: &mut LUXChild) {
        proof {
            lemma_lux_child_tree(*child);
        }
    }

    fn process_lux_attribute(&mut self, attribute: &mut LUXAttribute) {
        proof {
            lemma_lux_attribute_tree(*attribute);
        }
    }

    fn process_lux_attribute_value(&mut self, value: &mut LUXAttributeValue) {
        proof {
            lemma_lux_attribute_value_tree(*value);
        }
    }
}

/// A rule that removes the do statements whose block is empty.
///
/// Each block is cleaned when the walk comes to it, before the walk goes
/// into its statements: a do statement goes where it holds nothing, or
/// nothing but do statements that go.
#[derive(Debug, Default, PartialEq, Eq)]
pub struct RemoveEmptyDo {}

impl FlawlessRule for RemoveEmptyDo {
    /// The block after a walk in which every block met loses its empty do statements.
    open spec fn transformed(&self, block: Tree) -> Tree {
        walk(EmptyDoFilter {  }, block).1
    }

    fn flawless_process(&self, block: &mut Block, context: &mut Context) {
        let mut processor = EmptyDoFilter {  };
        DefaultVisitorMut::visit_block(block, &mut processor);
        proof {
            reveal(walked);
        }
    }
}

impl RuleConfiguration for RemoveEmptyDo {
    open spec fn name(&self) -> Seq<char> {
        REMOVE_EMPTY_DO_RULE_NAME@
    }

    open spec fn properties(&self) -> Seq<(Seq<char>, PropertyData)> {
        Seq::empty()
    }

    /// The rule has no property: whatever property is given is unexpected.
    fn configure(&mut self, properties: RuleProperties) -> (result: Result<(), RuleConfigurationError>)
        ensures
            properties.entries().len() == 0 <==> result is Ok,
            properties.entries().len() > 0 ==> result == Err::<(), RuleConfigurationError>(
                RuleConfigurationError::UnexpectedProperty(properties.entries()[0].0),
            ),
            *final(self) == *old(self),
    {
        verify_no_rule_properties(&properties)
    }

    fn get_name(&self) -> (name: &'static str) {
        REMOVE_EMPTY_DO_RULE_NAME
    }

    fn serialize_to_properties(&self) -> (properties: RuleProperties) {
        let properties = RuleProperties::new();
        assert(entries_data(properties.entries()) =~= Seq::empty());
        properties
    }
}

} // verus!
