//! The rule that drops the parentheses of a call whose only argument is a string or a table.
use vstd::prelude::*;
use crate::nodes::block::Block;
use crate::nodes::expressions::{
    Arguments, BinaryExpression, Expression, FieldExpression, FunctionCall, FunctionExpression,
    IndexExpression, NumberExpression, ParentheseExpression, Prefix, StringExpression,
    TableExpression, UnaryExpression,
};
use crate::nodes::local_assign::LocalAssignStatement;
use crate::nodes::lux::{
    LUXAttribute, LUXAttributeValue, LUXChild, LUXElement, LUXExpression, LUXFragment,
    LUXOpenCloseElement, LUXSelfClosingElement,
};
use crate::nodes::statements::{
    AssignStatement, DoStatement, FunctionStatement, GenericForStatement, IfStatement,
    LastStatement, LocalFunctionStatement, NumericForStatement, RepeatStatement, Statement,
    WhileStatement,
};
use crate::nodes::token::Identifier;
use crate::nodes::model::{arguments_tree, expression_tree, expression_trees, list_tree};
use crate::nodes::tree::{
    lemma_child_is_shallower, lemma_depth_of_only_child, lemma_depth_with_children, Kind, Tree,
};
use crate::nodes::unfold::{
    lemma_arguments_tree, lemma_assign_tree, lemma_binary_tree, lemma_block_tree,
    lemma_call_tree, lemma_do_tree, lemma_expression_tree, lemma_expression_trees,
    lemma_field_tree, lemma_function_expression_tree, lemma_function_statement_tree,
    lemma_generic_for_tree, lemma_if_tree, lemma_index_tree, lemma_last_statement_tree,
    lemma_local_assign_tree, lemma_local_function_tree, lemma_lux_attribute_tree,
    lemma_lux_attribute_value_tree, lemma_lux_child_tree, lemma_lux_element_tree,
    lemma_lux_expression_tree, lemma_lux_fragment_tree, lemma_lux_open_close_tree,
    lemma_lux_self_closing_tree, lemma_numeric_for_tree, lemma_parenthese_tree,
    lemma_prefix_tree, lemma_repeat_tree, lemma_statement_tree, lemma_table_tree,
    lemma_unary_tree, lemma_while_tree,
};
use crate::process::node_processor::NodeProcessorMut;
use crate::process::visitors_mut::{DefaultVisitorMut, NodeVisitorMut};
use crate::process::walk::{walk, walked};
use crate::rules::configuration_error::RuleConfigurationError;
use crate::rules::rule_property::{entries_data, PropertyData, RuleProperties};
use crate::rules::{verify_no_rule_properties, Context, FlawlessRule, RuleConfiguration};

verus! {

pub const REMOVE_FUNCTION_CALL_PARENS: &'static str = "remove_function_call_parens";

/// The model of an expression that is a string.
pub open spec fn is_string(expression: Tree) -> bool {
    expression.kind is Expression && expression.variant == 5 && expression.children.len() == 1
}

/// The model of an expression that is a table.
pub open spec fn is_table(expression: Tree) -> bool {
    expression.kind is Expression && expression.variant == 14 && expression.children.len() == 1
}

/// The model of arguments that are a list of exactly one expression.
pub open spec fn is_single_argument(arguments: Tree) -> bool {
    &&& arguments.kind is Arguments
    &&& arguments.variant == 0
    &&& arguments.children.len() == 1
    &&& arguments.children[0].children.len() == 1
}

/// The arguments without their parentheses, where they are one string or
/// one table between parentheses; the arguments as they are, where they are
/// anything else.
pub open spec fn bare_arguments(arguments: Tree) -> Tree {
    if is_single_argument(arguments) {
        let only = arguments.children[0].children[0];
        if is_string(only) {
            Tree::node(Kind::Arguments, 1, Seq::empty(), seq![only.children[0]])
        } else if is_table(only) {
            Tree::node(Kind::Arguments, 2, Seq::empty(), seq![only.children[0]])
        } else {
            arguments
        }
    } else {
        arguments
    }
}

/// The call with its arguments bare.
pub open spec fn bare_call(call: Tree) -> Tree {
    if call.children.len() == 2 {
        call.with_children(seq![call.children[0], bare_arguments(call.children[1])])
    } else {
        call
    }
}

/// Bare arguments are no deeper than the arguments were.
pub proof fn lemma_bare_arguments_depth(arguments: Tree)
    ensures
        bare_arguments(arguments).depth() <= arguments.depth(),
{
    if is_single_argument(arguments) {
        let list = arguments.children[0];
        let only = list.children[0];
        if is_string(only) || is_table(only) {
            lemma_child_is_shallower(arguments, 0);
            lemma_child_is_shallower(list, 0);
            lemma_child_is_shallower(only, 0);
            lemma_depth_of_only_child(bare_arguments(arguments));
        }
    }
}

/// Takes the parentheses off arguments that are one string or one table.
fn without_parentheses(arguments: Arguments) -> (bare: Arguments)
    ensures
        bare@ == bare_arguments(arguments@),
{
    proof {
        lemma_arguments_tree(arguments);
    }
    match arguments {
        Arguments::Tuple(list) => {
            let mut list = list;
            let ghost given = list@;
            proof {
                lemma_expression_trees(given);
            }
            if list.len() == 1 {
                match list.pop() {
                    Some(Expression::String(string)) => {
                        proof {
                            lemma_expression_tree(Expression::String(string));
                        }
                        let bare = Arguments::String(string);
                        proof {
                            lemma_arguments_tree(bare);
                        }
                        bare
                    },
                    Some(Expression::Table(table)) => {
                        proof {
                            lemma_expression_tree(Expression::Table(table));
                        }
                        let bare = Arguments::Table(table);
                        proof {
                            lemma_arguments_tree(bare);
                        }
                        bare
                    },
                    Some(other) => {
                        proof {
                            lemma_expression_tree(other);
                        }
                        list.push(other);
                        assert(list@ =~= given);
                        let same = Arguments::Tuple(list);
                        proof {
                            lemma_arguments_tree(same);
                        }
                        same
                    },
                    None => Arguments::Tuple(list),
                }
            } else {
                let same = Arguments::Tuple(list);
                proof {
                    lemma_arguments_tree(same);
                }
                same
            }
        },
        Arguments::String(string) => Arguments::String(string),
        Arguments::Table(table) => Arguments::Table(table),
    }
}

/// The processor of the rule: it changes calls and nothing else.
#[derive(Clone, Copy, Debug, Default, PartialEq, Eq)]
pub struct Processor {}

impl NodeProcessorMut for Processor {
    open spec fn rewrite(self, node: Tree) -> (Self, Tree) {
        if node.kind is FunctionCall {
            (self, bare_call(node))
        } else {
            (self, node)
        }
    }

    fn process_block(&mut self, block: &mut Block) {
        proof {
            lemma_block_tree(*block);
        }
    }

    fn process_statement(&mut self, statement: &mut Statement) {
        proof {
            lemma_statement_tree(*statement);
        }
    }

    fn process_function_call(&mut self, call: &mut FunctionCall) {
        proof {
            lemma_call_tree(*call);
        }
        let ghost before = call@;
        let arguments = call.replace_arguments(Arguments::default());
        let bare = without_parentheses(arguments);
        call.arguments = bare;
        proof {
            lemma_call_tree(*call);
            lemma_bare_arguments_depth(before.children[1]);
            let children = seq![before.children[0], bare_arguments(before.children[1])];
            assert(call@ == before.with_children(children));
            assert forall|i: int| 0 <= i < 2 implies (#[trigger] children[i]).depth() <= before.children[i].depth() by {}
            lemma_depth_with_children(before, children);
        }
    }

    fn process_assign_statement(&mut self, statement: &mut AssignStatement) {
        proof {
            lemma_assign_tree(*statement);
        }
    }

    fn process_do_statement(&mut self, statement: &mut DoStatement) {
        proof {
            lemma_do_tree(*statement);
        }
    }

    fn process_function_statement(&mut self, statement: &mut FunctionStatement) {
        proof {
            lemma_function_statement_tree(*statement);
        }
    }

    fn process_generic_for_statement(&mut self, statement: &mut GenericForStatement) {
        proof {
            lemma_generic_for_tree(*statement);
        }
    }

    fn process_if_statement(&mut self, statement: &mut IfStatement) {
        proof {
            lemma_if_tree(*statement);
        }
    }

    fn process_last_statement(&mut self, statement: &mut LastStatement) {
        proof {
            lemma_last_statement_tree(*statement);
        }
    }

    fn process_local_assign_statement(&mut self, statement: &mut LocalAssignStatement) {
        proof {
            lemma_local_assign_tree(*statement);
        }
    }

    fn process_local_function_statement(&mut self, statement: &mut LocalFunctionStatement) {
        proof {
            lemma_local_function_tree(*statement);
        }
    }

    fn process_numeric_for_statement(&mut self, statement: &mut NumericForStatement) {
        proof {
            lemma_numeric_for_tree(*statement);
        }
    }

    fn process_repeat_statement(&mut self, statement: &mut RepeatStatement) {
        proof {
            lemma_repeat_tree(*statement);
        }
    }

    fn process_while_statement(&mut self, statement: &mut WhileStatement) {
        proof {
            lemma_while_tree(*statement);
        }
    }

    fn process_expression(&mut self, expression: &mut Expression) {
        proof {
            lemma_expression_tree(*expression);
        }
    }

    fn process_binary_expression(&mut self, binary: &mut BinaryExpression) {
        proof {
            lemma_binary_tree(*binary);
        }
    }

    fn process_field_expression(&mut self, field: &mut FieldExpression) {
        proof {
            lemma_field_tree(*field);
        }
    }

    fn process_function_expression(&mut self, function: &mut FunctionExpression) {
        proof {
            lemma_function_expression_tree(*function);
        }
    }

    fn process_variable_expression(&mut self, variable: &mut Identifier) {
    }

    fn process_index_expression(&mut self, index: &mut IndexExpression) {
        proof {
            lemma_index_tree(*index);
        }
    }

    fn process_number_expression(&mut self, number: &mut NumberExpression) {
    }

    fn process_prefix_expression(&mut self, prefix: &mut Prefix) {
        proof {
            lemma_prefix_tree(*prefix);
        }
    }

    fn process_parenthese_expression(&mut self, parenthese: &mut ParentheseExpression) {
        proof {
            lemma_parenthese_tree(*parenthese);
        }
    }

    fn process_string_expression(&mut self, string: &mut StringExpression) {
    }

    fn process_table_expression(&mut self, table: &mut TableExpression) {
        proof {
            lemma_table_tree(*table);
        }
    }

    fn process_unary_expression(&mut self, unary: &mut UnaryExpression) {
        proof {
            lemma_unary_tree(*unary);
        }
    }

    fn process_lux_expression(&mut self, lux: &mut LUXExpression) {
        proof {
            lemma_lux_expression_tree(*lux);
        }
    }

    fn process_lux_element(&mut self, element: &mut LUXElement) {
        proof {
            lemma_lux_element_tree(*element);
        }
    }

    fn process_lux_open_close_element(&mut self, element: &mut LUXOpenCloseElement) {
        proof {
            lemma_lux_open_close_tree(*element);
        }
    }

    fn process_lux_self_closing_element(&mut self, element: &mut LUXSelfClosingElement) {
        proof {
            lemma_lux_self_closing_tree(*element);
        }
    }

    fn process_lux_fragment(&mut self, fragment: &mut LUXFragment) {
        proof {
            lemma_lux_fragment_tree(*fragment);
        }
    }

    fn process_lux_child(&mut self, child: &mut LUXChild) {
        proof {
            lemma_lux_child_tree(*child);
        }
    }

    fn process_lux_attribute(&mut self, attribute: &mut LUXAttribute) {
        proof {
            lemma_lux_attribute_tree(*attribute);
        }
    }

    fn process_lux_attribute_value(&mut self, value: &mut LUXAttributeValue) {
        proof {
            lemma_lux_attribute_value_tree(*value);
        }
    }
}

/// A rule that removes parentheses when calling functions with a string or a table.
#[derive(Debug, Default, PartialEq, Eq)]
pub struct RemoveFunctionCallParens {}

impl FlawlessRule for RemoveFunctionCallParens {
    /// The block after a walk in which every call met has its arguments made bare.
    open spec fn transformed(&self, block: Tree) -> Tree {
        walk(Processor {  }, block).1
    }

    fn flawless_process(&self, block: &mut Block, context: &mut Context) {
        let mut processor = Processor {  };
        DefaultVisitorMut::visit_block(block, &mut processor);
        proof {
            reveal(walked);
        }
    }
}

impl RuleConfiguration for RemoveFunctionCallParens {
    open spec fn name(&self) -> Seq<char> {
        REMOVE_FUNCTION_CALL_PARENS@
    }

    open spec fn properties(&self) -> Seq<(Seq<char>, PropertyData)> {
        Seq::empty()
    }

    /// The rule has no property: whatever property is given is unexpected.
    fn configure(&mut self, properties: RuleProperties) -> (result: Result<(), RuleConfigurationError>)
        ensures
            properties.entries().len() == 0 <==> result is Ok,
            properties.entries().len() > 0 ==> result == Err::<(), RuleConfigurationError>(
                RuleConfigurationError::UnexpectedProperty(properties.entries()[0].0),
            ),
            *final(self) == *old(self),
    {
        verify_no_rule_properties(&properties)
    }

    fn get_name(&self) -> (name: &'static str) {
        REMOVE_FUNCTION_CALL_PARENS
    }

    fn serialize_to_properties(&self) -> (properties: RuleProperties) {
        let properties = RuleProperties::new();
        assert(entries_data(properties.entries()) =~= Seq::empty());
        properties
    }
}

} // verus!
