//! Expressions, prefixes and calls.
use vstd::prelude::*;
use crate::nodes::expressions::{
    Arguments, BinaryExpression, Expression, FieldExpression, FunctionCall, FunctionExpression,
    IndexExpression, NumberExpression, ParentheseExpression, Prefix, StringExpression, TableEntry,
    TableExpression, UnaryExpression,
};
use crate::nodes::token::Identifier;
use crate::nodes::model::{entry_trees, expression_trees, list_tree};
use crate::nodes::tree::lemma_child_is_shallower;
use crate::nodes::unfold::{
    lemma_arguments_tree, lemma_binary_tree, lemma_call_tree, lemma_entry_tree,
    lemma_expression_tree, lemma_field_tree, lemma_function_expression_tree, lemma_index_tree,
    lemma_parenthese_tree, lemma_prefix_tree, lemma_table_tree, lemma_unary_tree,
};
use crate::process::node_processor::NodeProcessor;
use crate::process::reading::blocks::visit_block;
use crate::process::reading::lists::{visit_entries, visit_expressions};
use crate::process::reading::markup::visit_lux_expression;
use crate::process::trace::{lemma_seen_1, lemma_seen_2, lemma_seen_leaf, seen};

verus! {

/// Walks an expression: the expression itself, then what it is.
pub fn visit_expression<P: NodeProcessor>(expression: &Expression, processor: &mut P)
    ensures
        seen(*old(processor), expression@, *final(processor)),
    decreases expression@.depth(), 1nat,
{
    let ghost node = expression@;
    proof {
        lemma_expression_tree(*expression);
    }
    processor.process_expression(expression);
    let ghost handed = *processor;
    match expression {
        Expression::Nil => {
            proof {
                lemma_seen_leaf(*old(processor), node, handed);
            }
        },
        Expression::True => {
            proof {
                lemma_seen_leaf(*old(processor), node, handed);
            }
        },
        Expression::False => {
            proof {
                lemma_seen_leaf(*old(processor), node, handed);
            }
        },
        Expression::VariableArguments => {
            proof {
                lemma_seen_leaf(*old(processor), node, handed);
            }
        },
        Expression::Number(inner) => {
            proof {
                assert(node.children[0] == inner@);
                lemma_child_is_shallower(node, 0);
            }
            visit_number_expression(inner, processor);
            proof {
                lemma_seen_1(*old(processor), node, handed, *processor);
            }
        },
        Expression::String(inner) => {
            proof {
                assert(node.children[0] == inner@);
                lemma_child_is_shallower(node, 0);
            }
            visit_string_expression(inner, processor);
            proof {
                lemma_seen_1(*old(processor), node, handed, *processor);
            }
        },
        Expression::Identifier(inner) => {
            proof {
                assert(node.children[0] == inner@);
                lemma_child_is_shallower(node, 0);
            }
            visit_variable_expression(inner, processor);
            proof {
                lemma_seen_1(*old(processor), node, handed, *processor);
            }
        },
        Expression::Binary(inner) => {
            proof {
                assert(node.children[0] == inner@);
                lemma_child_is_shallower(node, 0);
            }
            visit_binary_expression(inner, processor);
            proof {
                lemma_seen_1(*old(processor), node, handed, *processor);
            }
        },
        Expression::Unary(inner) => {
            proof {
                assert(node.children[0] == inner@);
                lemma_child_is_shallower(node, 0);
            }
            visit_unary_expression(inner, processor);
            proof {
                lemma_seen_1(*old(processor), node, handed, *processor);
            }
        },
        Expression::Parenthese(inner) => {
            proof {
                assert(node.children[0] == inner@);
                lemma_child_is_shallower(node, 0);
            }
            visit_parenthese_expression(inner, processor);
            proof {
                lemma_seen_1(*old(processor), node, handed, *processor);
            }
        },
        Expression::Function(inner) => {
            proof {
                assert(node.children[0] == inner@);
                lemma_child_is_shallower(node, 0);
            }
            visit_function_expression(inner, processor);
            proof {
                lemma_seen_1(*old(processor), node, handed, *processor);
            }
        },
        Expression::Call(inner) => {
            proof {
                assert(node.children[0] == inner@);
                lemma_child_is_shallower(node, 0);
            }
            visit_function_call(inner, processor);
            proof {
                lemma_seen_1(*old(processor), node, handed, *processor);
            }
        },
        Expression::Field(inner) => {
            proof {
                assert(node.children[0] == inner@);
                lemma_child_is_shallower(node, 0);
            }
            visit_field_expression(inner, processor);
            proof {
                lemma_seen_1(*old(processor), node, handed, *processor);
            }
        },
        Expression::Index(inner) => {
            proof {
                assert(node.children[0] == inner@);
                lemma_child_is_shallower(node, 0);
            }
            visit_index_expression(inner, processor);
            proof {
                lemma_seen_1(*old(processor), node, handed, *processor);
            }
        },
        Expression::Table(inner) => {
            proof {
                assert(node.children[0] == inner@);
                lemma_child_is_shallower(node, 0);
            }
            visit_table(inner, processor);
            proof {
                lemma_seen_1(*old(processor), node, handed, *processor);
            }
        },
        Expression::LUX(inner) => {
            proof {
                assert(node.children[0] == inner@);
                lemma_child_is_shallower(node, 0);
            }
            visit_lux_expression(inner, processor);
            proof {
                lemma_seen_1(*old(processor), node, handed, *processor);
            }
        },
    }
}

/// Walks a binary expression: the expression itself, its left side, then its right side.
pub fn visit_binary_expression<P: NodeProcessor>(binary: &BinaryExpression, processor: &mut P)
    ensures
        seen(*old(processor), binary@, *final(processor)),
    decreases binary@.depth(), 1nat,
{
    let ghost node = binary@;
    proof {
        lemma_binary_tree(*binary);
    }
    processor.process_binary_expression(binary);
    let ghost handed = *processor;
    proof {
        assert(node.children[0] == binary.left@);
        lemma_child_is_shallower(node, 0);
    }
    visit_expression(&binary.left, processor);
    let ghost after_first = *processor;
    proof {
        assert(node.children[1] == binary.right@);
        lemma_child_is_shallower(node, 1);
    }
    visit_expression(&binary.right, processor);
    proof {
        lemma_seen_2(*old(processor), node, handed, after_first, *processor);
    }
}

/// Walks a unary expression: the expression itself, then its operand.
pub fn visit_unary_expression<P: NodeProcessor>(unary: &UnaryExpression, processor: &mut P)
    ensures
        seen(*old(processor), unary@, *final(processor)),
    decreases unary@.depth(), 1nat,
{
    let ghost node = unary@;
    proof {
        lemma_unary_tree(*unary);
    }
    processor.process_unary_expression(unary);
    let ghost handed = *processor;
    proof {
        assert(node.children[0] == unary.expression@);
        lemma_child_is_shallower(node, 0);
    }
    visit_expression(&unary.expression, processor);
    proof {
        lemma_seen_1(*old(processor), node, handed, *processor);
    }
}

/// Walks a parenthesized expression: the parentheses, then what is inside.
pub fn visit_parenthese_expression<P: NodeProcessor>(parenthese: &ParentheseExpression, processor: &mut P)
    ensures
        seen(*old(processor), parenthese@, *final(processor)),
    decreases parenthese@.depth(), 1nat,
{
    let ghost node = parenthese@;
    proof {
        lemma_parenthese_tree(*parenthese);
    }
    processor.process_parenthese_expression(parenthese);
    let ghost handed = *processor;
    proof {
        assert(node.children[0] == parenthese.expression@);
        lemma_child_is_shallower(node, 0);
    }
    visit_expression(&parenthese.expression, processor);
    proof {
        lemma_seen_1(*old(processor), node, handed, *processor);
    }
}

/// Walks a field expression: the expression itself, then its prefix.
pub fn visit_field_expression<P: NodeProcessor>(field: &FieldExpression, processor: &mut P)
    ensures
        seen(*old(processor), field@, *final(processor)),
    decreases field@.depth(), 1nat,
{
    let ghost node = field@;
    proof {
        lemma_field_tree(*field);
    }
    processor.process_field_expression(field);
    let ghost handed = *processor;
    proof {
        assert(node.children[0] == field.prefix@);
        lemma_child_is_shallower(node, 0);
    }
    visit_prefix_expression(&field.prefix, processor);
    proof {
        lemma_seen_1(*old(processor), node, handed, *processor);
    }
}

/// Walks an index expression: the expression itself, its prefix, then its index.
pub fn visit_index_expression<P: NodeProcessor>(index: &IndexExpression, processor: &mut P)
    ensures
        seen(*old(processor), index@, *final(processor)),
    decreases index@.depth(), 1nat,
{
    let ghost node = index@;
    proof {
        lemma_index_tree(*index);
    }
    processor.process_index_expression(index);
    let ghost handed = *processor;
    proof {
        assert(node.children[0] == index.prefix@);
        lemma_child_is_shallower(node, 0);
    }
    visit_prefix_expression(&index.prefix, processor);
    let ghost after_first = *processor;
    proof {
        assert(node.children[1] == index.index@);
        lemma_child_is_shallower(node, 1);
    }
    visit_expression(&index.index, processor);
    proof {
        lemma_seen_2(*old(processor), node, handed, after_first, *processor);
    }
}

/// Walks a number.
pub fn visit_number_expression<P: NodeProcessor>(number: &NumberExpression, processor: &mut P)
    ensures
        seen(*old(processor), number@, *final(processor)),
    decreases number@.depth(), 1nat,
{
    let ghost node = number@;
    processor.process_number_expression(number);
    let ghost handed = *processor;
    proof {
        lemma_seen_leaf(*old(processor), node, handed);
    }
}

/// Walks a string.
pub fn visit_string_expression<P: NodeProcessor>(string: &StringExpression, processor: &mut P)
    ensures
        seen(*old(processor), string@, *final(processor)),
    decreases string@.depth(), 1nat,
{
    let ghost node = string@;
    processor.process_string_expression(string);
    let ghost handed = *processor;
    proof {
        lemma_seen_leaf(*old(processor), node, handed);
    }
}

/// Walks an identifier.
pub fn visit_variable_expression<P: NodeProcessor>(variable: &Identifier, processor: &mut P)
    ensures
        seen(*old(processor), variable@, *final(processor)),
    decreases variable@.depth(), 1nat,
{
    let ghost node = variable@;
    processor.process_variable_expression(variable);
    let ghost handed = *processor;
    proof {
        lemma_seen_leaf(*old(processor), node, handed);
    }
}

/// Walks a table: the table itself, then its entries in order.
pub fn visit_table<P: NodeProcessor>(table: &TableExpression, processor: &mut P)
    ensures
        seen(*old(processor), table@, *final(processor)),
    decreases table@.depth(), 1nat,
{
    let ghost node = table@;
    proof {
        lemma_table_tree(*table);
    }
    processor.process_table_expression(table);
    let ghost handed = *processor;
    proof {
        assert(node.children[0] == list_tree(entry_trees(table.entries@)));
        lemma_child_is_shallower(node, 0);
    }
    visit_entries(&table.entries, processor);
    proof {
        lemma_seen_1(*old(processor), node, handed, *processor);
    }
}

/// Walks a table entry: its key where that is an expression, then its value.
pub fn visit_entry<P: NodeProcessor>(entry: &TableEntry, processor: &mut P)
    ensures
        seen(*old(processor), entry@, *final(processor)),
    decreases entry@.depth(), 1nat,
{
    let ghost node = entry@;
    proof {
        lemma_entry_tree(*entry);
    }
    let ghost handed = *processor;
    match entry {
        TableEntry::Field(_, value) => {
            proof {
                assert(node.children[0] == value@);
                lemma_child_is_shallower(node, 0);
            }
            visit_expression(value, processor);
            proof {
                lemma_seen_1(*old(processor), node, handed, *processor);
            }
        },
        TableEntry::Index(key, value) => {
            proof {
                assert(node.children[0] == key@);
                lemma_child_is_shallower(node, 0);
            }
            visit_expression(key, processor);
            let ghost after_first = *processor;
            proof {
                assert(node.children[1] == value@);
                lemma_child_is_shallower(node, 1);
            }
            visit_expression(value, processor);
            proof {
                lemma_seen_2(*old(processor), node, handed, after_first, *processor);
            }
        },
        TableEntry::Value(value) => {
            proof {
                assert(node.children[0] == value@);
                lemma_child_is_shallower(node, 0);
            }
            visit_expression(value, processor);
            proof {
                lemma_seen_1(*old(processor), node, handed, *processor);
            }
        },
    }
}

/// Walks a function expression: the expression itself, then its block.
pub fn visit_function_expression<P: NodeProcessor>(function: &FunctionExpression, processor: &mut P)
    ensures
        seen(*old(processor), function@, *final(processor)),
    decreases function@.depth(), 1nat,
{
    let ghost node = function@;
    proof {
        lemma_function_expression_tree(*function);
    }
    processor.process_function_expression(function);
    let ghost handed = *processor;
    proof {
        assert(node.children[0] == function.block@);
        lemma_child_is_shallower(node, 0);
    }
    visit_block(&function.block, processor);
    proof {
        lemma_seen_1(*old(processor), node, handed, *processor);
    }
}

/// Walks a prefix: the prefix itself, then what it is.
pub fn visit_prefix_expression<P: NodeProcessor>(prefix: &Prefix, processor: &mut P)
    ensures
        seen(*old(processor), prefix@, *final(processor)),
    decreases prefix@.depth(), 1nat,
{
    let ghost node = prefix@;
    proof {
        lemma_prefix_tree(*prefix);
    }
    processor.process_prefix_expression(prefix);
    let ghost handed = *processor;
    match prefix {
        Prefix::Call(inner) => {
            proof {
                assert(node.children[0] == inner@);
                lemma_child_is_shallower(node, 0);
            }
            visit_function_call(inner, processor);
            proof {
                lemma_seen_1(*old(processor), node, handed, *processor);
            }
        },
        Prefix::Field(inner) => {
            proof {
                assert(node.children[0] == inner@);
                lemma_child_is_shallower(node, 0);
            }
            visit_field_expression(inner, processor);
            proof {
                lemma_seen_1(*old(processor), node, handed, *processor);
            }
        },
        Prefix::Identifier(inner) => {
            proof {
                assert(node.children[0] == inner@);
                lemma_child_is_shallower(node, 0);
            }
            visit_variable_expression(inner, processor);
            proof {
                lemma_seen_1(*old(processor), node, handed, *processor);
            }
        },
        Prefix::Index(inner) => {
            proof {
                assert(node.children[0] == inner@);
                lemma_child_is_shallower(node, 0);
            }
            visit_index_expression(inner, processor);
            proof {
                lemma_seen_1(*old(processor), node, handed, *processor);
            }
        },
        Prefix::Parenthese(inner) => {
            proof {
                assert(node.children[0] == inner@);
                lemma_child_is_shallower(node, 0);
            }
            visit_parenthese_expression(inner, processor);
            proof {
                lemma_seen_1(*old(processor), node, handed, *processor);
            }
        },
    }
}

/// Walks a call: the call itself, its prefix, then its arguments.
pub fn visit_function_call<P: NodeProcessor>(call: &FunctionCall, processor: &mut P)
    ensures
        seen(*old(processor), call@, *final(processor)),
    decreases call@.depth(), 1nat,
{
    let ghost node = call@;
    proof {
        lemma_call_tree(*call);
    }
    processor.process_function_call(call);
    let ghost handed = *processor;
    proof {
        assert(node.children[0] == call.prefix@);
        lemma_child_is_shallower(node, 0);
    }
    visit_prefix_expression(&call.prefix, processor);
    let ghost after_first = *processor;
    proof {
        assert(node.children[1] == call.arguments@);
        lemma_child_is_shallower(node, 1);
    }
    visit_arguments(&call.arguments, processor);
    proof {
        lemma_seen_2(*old(processor), node, handed, after_first, *processor);
    }
}

/// Walks the arguments of a call.
pub fn visit_arguments<P: NodeProcessor>(arguments: &Arguments, processor: &mut P)
    ensures
        seen(*old(processor), arguments@, *final(processor)),
    decreases arguments@.depth(), 1nat,
{
    let ghost node = arguments@;
    proof {
        lemma_arguments_tree(*arguments);
    }
    let ghost handed = *processor;
    match arguments {
        Arguments::Tuple(values) => {
            proof {
                assert(node.children[0] == list_tree(expression_trees(values@)));
                lemma_child_is_shallower(node, 0);
            }
            visit_expressions(values, processor);
            proof {
                lemma_seen_1(*old(processor), node, handed, *processor);
            }
        },
        Arguments::String(inner) => {
            proof {
                assert(node.children[0] == inner@);
                lemma_child_is_shallower(node, 0);
            }
            visit_string_expression(inner, processor);
            proof {
                lemma_seen_1(*old(processor), node, handed, *processor);
            }
        },
        Arguments::Table(inner) => {
            proof {
                assert(node.children[0] == inner@);
                lemma_child_is_shallower(node, 0);
            }
            visit_table(inner, processor);
            proof {
                lemma_seen_1(*old(processor), node, handed, *processor);
            }
        },
    }
}

} // verus!
