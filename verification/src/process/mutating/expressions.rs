//! Expressions, prefixes and calls.
use vstd::prelude::*;
use crate::nodes::expressions::{
    Arguments, BinaryExpression, Expression, FieldExpression, FunctionCall, FunctionExpression,
    IndexExpression, NumberExpression, ParentheseExpression, Prefix, StringExpression, TableEntry,
    TableExpression, UnaryExpression,
};
use crate::nodes::token::Identifier;
use crate::nodes::model::{entry_trees, expression_trees, list_tree};
use crate::nodes::tree::lemma_child_is_shallower;
use crate::nodes::unfold::{
    lemma_arguments_tree, lemma_binary_tree, lemma_call_tree, lemma_entry_tree,
    lemma_expression_tree, lemma_field_tree, lemma_function_expression_tree, lemma_index_tree,
    lemma_parenthese_tree, lemma_prefix_tree, lemma_table_tree, lemma_unary_tree,
};
use crate::process::node_processor::NodeProcessorMut;
use crate::process::mutating::blocks::visit_block;
use crate::process::mutating::lists::{visit_entries, visit_expressions};
use crate::process::mutating::markup::visit_lux_expression;
use crate::process::walk::{lemma_walked_1, lemma_walked_2, lemma_walked_leaf, walked};

verus! {

/// Walks an expression: the expression itself, then what it is.
pub fn visit_expression<P: NodeProcessorMut>(expression: &mut Expression, processor: &mut P)
    ensures
        walked(*old(processor), old(expression)@, *final(processor), final(expression)@),
    decreases old(expression)@.depth(), 1nat,
{
    proof {
        lemma_expression_tree(*expression);
    }
    processor.process_expression(expression);
    let ghost handed = *processor;
    let ghost node = expression@;
    proof {
        lemma_expression_tree(*expression);
    }
    let ghost mut rebuilt = node;
    match expression {
        Expression::Nil => {
            proof {
                lemma_walked_leaf(*old(processor), old(expression)@, handed, node);
                rebuilt = node;
            }
        },
        Expression::True => {
            proof {
                lemma_walked_leaf(*old(processor), old(expression)@, handed, node);
                rebuilt = node;
            }
        },
        Expression::False => {
            proof {
                lemma_walked_leaf(*old(processor), old(expression)@, handed, node);
                rebuilt = node;
            }
        },
        Expression::VariableArguments => {
            proof {
                lemma_walked_leaf(*old(processor), old(expression)@, handed, node);
                rebuilt = node;
            }
        },
        Expression::Number(inner) => {
            proof {
                assert(node.children[0] == inner@);
                lemma_child_is_shallower(node, 0);
            }
            visit_number_expression(inner, processor);
            let ghost after_first = *processor;
            let ghost first = inner@;
            proof {
                lemma_walked_1(*old(processor), old(expression)@, handed, node, after_first, first);
                rebuilt = node.with_children(seq![first]);
            }
        },
        Expression::String(inner) => {
            proof {
                assert(node.children[0] == inner@);
                lemma_child_is_shallower(node, 0);
            }
            visit_string_expression(inner, processor);
            let ghost after_first = *processor;
            let ghost first = inner@;
            proof {
                lemma_walked_1(*old(processor), old(expression)@, handed, node, after_first, first);
                rebuilt = node.with_children(seq![first]);
            }
        },
        Expression::Identifier(inner) => {
            proof {
                assert(node.children[0] == inner@);
                lemma_child_is_shallower(node, 0);
            }
            visit_variable_expression(inner, processor);
            let ghost after_first = *processor;
            let ghost first = inner@;
            proof {
                lemma_walked_1(*old(processor), old(expression)@, handed, node, after_first, first);
                rebuilt = node.with_children(seq![first]);
            }
        },
        Expression::Binary(inner) => {
            proof {
                assert(node.children[0] == inner@);
                lemma_child_is_shallower(node, 0);
            }
            visit_binary_expression(inner, processor);
            let ghost after_first = *processor;
            let ghost first = inner@;
            proof {
                lemma_walked_1(*old(processor), old(expression)@, handed, node, after_first, first);
                rebuilt = node.with_children(seq![first]);
            }
        },
        Expression::Unary(inner) => {
            proof {
                assert(node.children[0] == inner@);
                lemma_child_is_shallower(node, 0);
            }
            visit_unary_expression(inner, processor);
            let ghost after_first = *processor;
            let ghost first = inner@;
            proof {
                lemma_walked_1(*old(processor), old(expression)@, handed, node, after_first, first);
                rebuilt = node.with_children(seq![first]);
            }
        },
        Expression::Parenthese(inner) => {
            proof {
                assert(node.children[0] == inner@);
                lemma_child_is_shallower(node, 0);
            }
            visit_parenthese_expression(inner, processor);
            let ghost after_first = *processor;
            let ghost first = inner@;
            proof {
                lemma_walked_1(*old(processor), old(expression)@, handed, node, after_first, first);
                rebuilt = node.with_children(seq![first]);
            }
        },
        Expression::Function(inner) => {
            proof {
                assert(node.children[0] == inner@);
                lemma_child_is_shallower(node, 0);
            }
            visit_function_expression(inner, processor);
            let ghost after_first = *processor;
            let ghost first = inner@;
            proof {
                lemma_walked_1(*old(processor), old(expression)@, handed, node, after_first, first);
                rebuilt = node.with_children(seq![first]);
            }
        },
        Expression::Call(inner) => {
            proof {
                assert(node.children[0] == inner@);
                lemma_child_is_shallower(node, 0);
            }
            visit_function_call(inner, processor);
            let ghost after_first = *processor;
            let ghost first = inner@;
            proof {
                lemma_walked_1(*old(processor), old(expression)@, handed, node, after_first, first);
                rebuilt = node.with_children(seq![first]);
            }
        },
        Expression::Field(inner) => {
            proof {
                assert(node.children[0] == inner@);
                lemma_child_is_shallower(node, 0);
            }
            visit_field_expression(inner, processor);
            let ghost after_first = *processor;
            let ghost first = inner@;
            proof {
                lemma_walked_1(*old(processor), old(expression)@, handed, node, after_first, first);
                rebuilt = node.with_children(seq![first]);
            }
        },
        Expression::Index(inner) => {
            proof {
                assert(node.children[0] == inner@);
                lemma_child_is_shallower(node, 0);
            }
            visit_index_expression(inner, processor);
            let ghost after_first = *processor;
            let ghost first = inner@;
            proof {
                lemma_walked_1(*old(processor), old(expression)@, handed, node, after_first, first);
                rebuilt = node.with_children(seq![first]);
            }
        },
        Expression::Table(inner) => {
            proof {
                assert(node.children[0] == inner@);
                lemma_child_is_shallower(node, 0);
            }
            visit_table(inner, processor);
            let ghost after_first = *processor;
            let ghost first = inner@;
            proof {
                lemma_walked_1(*old(processor), old(expression)@, handed, node, after_first, first);
                rebuilt = node.with_children(seq![first]);
            }
        },
        Expression::LUX(inner) => {
            proof {
                assert(node.children[0] == inner@);
                lemma_child_is_shallower(node, 0);
            }
            visit_lux_expression(inner, processor);
            let ghost after_first = *processor;
            let ghost first = inner@;
            proof {
                lemma_walked_1(*old(processor), old(expression)@, handed, node, after_first, first);
                rebuilt = node.with_children(seq![first]);
            }
        },
    }
    proof {
        lemma_expression_tree(*expression);
        assert(expression@ == rebuilt);
    }
}

/// Walks a binary expression: the expression itself, its left side, then its right side.
pub fn visit_binary_expression<P: NodeProcessorMut>(binary: &mut BinaryExpression, processor: &mut P)
    ensures
        walked(*old(processor), old(binary)@, *final(processor), final(binary)@),
    decreases old(binary)@.depth(), 1nat,
{
    proof {
        lemma_binary_tree(*binary);
    }
    processor.process_binary_expression(binary);
    let ghost handed = *processor;
    let ghost node = binary@;
    proof {
        lemma_binary_tree(*binary);
        assert(node.children[0] == binary.left@);
        lemma_child_is_shallower(node, 0);
    }
    visit_expression(&mut binary.left, processor);
    let ghost after_first = *processor;
    let ghost first = binary.left@;
    proof {
        assert(node.children[1] == binary.right@);
        lemma_child_is_shallower(node, 1);
    }
    visit_expression(&mut binary.right, processor);
    let ghost after_second = *processor;
    let ghost second = binary.right@;
    proof {
        lemma_binary_tree(*binary);
        assert(binary@ == node.with_children(seq![first, second]));
        lemma_walked_2(*old(processor), old(binary)@, handed, node, after_first, first, after_second, second);
    }
}

/// Walks a unary expression: the expression itself, then its operand.
pub fn visit_unary_expression<P: NodeProcessorMut>(unary: &mut UnaryExpression, processor: &mut P)
    ensures
        walked(*old(processor), old(unary)@, *final(processor), final(unary)@),
    decreases old(unary)@.depth(), 1nat,
{
    proof {
        lemma_unary_tree(*unary);
    }
    processor.process_unary_expression(unary);
    let ghost handed = *processor;
    let ghost node = unary@;
    proof {
        lemma_unary_tree(*unary);
        assert(node.children[0] == unary.expression@);
        lemma_child_is_shallower(node, 0);
    }
    visit_expression(&mut unary.expression, processor);
    let ghost after_first = *processor;
    let ghost first = unary.expression@;
    proof {
        lemma_unary_tree(*unary);
        assert(unary@ == node.with_children(seq![first]));
        lemma_walked_1(*old(processor), old(unary)@, handed, node, after_first, first);
    }
}

/// Walks a parenthesized expression: the parentheses, then what is inside.
pub fn visit_parenthese_expression<P: NodeProcessorMut>(parenthese: &mut ParentheseExpression, processor: &mut P)
    ensures
        walked(*old(processor), old(parenthese)@, *final(processor), final(parenthese)@),
    decreases old(parenthese)@.depth(), 1nat,
{
    proof {
        lemma_parenthese_tree(*parenthese);
    }
    processor.process_parenthese_expression(parenthese);
    let ghost handed = *processor;
    let ghost node = parenthese@;
    proof {
        lemma_parenthese_tree(*parenthese);
        assert(node.children[0] == parenthese.expression@);
        lemma_child_is_shallower(node, 0);
    }
    visit_expression(&mut parenthese.expression, processor);
    let ghost after_first = *processor;
    let ghost first = parenthese.expression@;
    proof {
        lemma_parenthese_tree(*parenthese);
        assert(parenthese@ == node.with_children(seq![first]));
        lemma_walked_1(*old(processor), old(parenthese)@, handed, node, after_first, first);
    }
}

/// Walks a field expression: the expression itself, then its prefix.
pub fn visit_field_expression<P: NodeProcessorMut>(field: &mut FieldExpression, processor: &mut P)
    ensures
        walked(*old(processor), old(field)@, *final(processor), final(field)@),
    decreases old(field)@.depth(), 1nat,
{
    proof {
        lemma_field_tree(*field);
    }
    processor.process_field_expression(field);
    let ghost handed = *processor;
    let ghost node = field@;
    proof {
        lemma_field_tree(*field);
        assert(node.children[0] == field.prefix@);
        lemma_child_is_shallower(node, 0);
    }
    visit_prefix_expression(&mut field.prefix, processor);
    let ghost after_first = *processor;
    let ghost first = field.prefix@;
    proof {
        lemma_field_tree(*field);
        assert(field@ == node.with_children(seq![first]));
        lemma_walked_1(*old(processor), old(field)@, handed, node, after_first, first);
    }
}

/// Walks an index expression: the expression itself, its prefix, then its index.
pub fn visit_index_expression<P: NodeProcessorMut>(index: &mut IndexExpression, processor: &mut P)
    ensures
        walked(*old(processor), old(index)@, *final(processor), final(index)@),
    decreases old(index)@.depth(), 1nat,
{
    proof {
        lemma_index_tree(*index);
    }
    processor.process_index_expression(index);
    let ghost handed = *processor;
    let ghost node = index@;
    proof {
        lemma_index_tree(*index);
        assert(node.children[0] == index.prefix@);
        lemma_child_is_shallower(node, 0);
    }
    visit_prefix_expression(&mut index.prefix, processor);
    let ghost after_first = *processor;
    let ghost first = index.prefix@;
    proof {
        assert(node.children[1] == index.index@);
        lemma_child_is_shallower(node, 1);
    }
    visit_expression(&mut index.index, processor);
    let ghost after_second = *processor;
    let ghost second = index.index@;
    proof {
        lemma_index_tree(*index);
        assert(index@ == node.with_children(seq![first, second]));
        lemma_walked_2(*old(processor), old(index)@, handed, node, after_first, first, after_second, second);
    }
}

/// Walks a number.
pub fn visit_number_expression<P: NodeProcessorMut>(number: &mut NumberExpression, processor: &mut P)
    ensures
        walked(*old(processor), old(number)@, *final(processor), final(number)@),
    decreases old(number)@.depth(), 1nat,
{
    processor.process_number_expression(number);
    let ghost handed = *processor;
    let ghost node = number@;
    proof {
            assert(number@ == node);
        lemma_walked_leaf(*old(processor), old(number)@, handed, node);
    }
}

/// Walks a string.
pub fn visit_string_expression<P: NodeProcessorMut>(string: &mut StringExpression, processor: &mut P)
    ensures
        walked(*old(processor), old(string)@, *final(processor), final(string)@),
    decreases old(string)@.depth(), 1nat,
{
    processor.process_string_expression(string);
    let ghost handed = *processor;
    let ghost node = string@;
    proof {
            assert(string@ == node);
        lemma_walked_leaf(*old(processor), old(string)@, handed, node);
    }
}

/// Walks an identifier.
pub fn visit_variable_expression<P: NodeProcessorMut>(variable: &mut Identifier, processor: &mut P)
    ensures
        walked(*old(processor), old(variable)@, *final(processor), final(variable)@),
    decreases old(variable)@.depth(), 1nat,
{
    processor.process_variable_expression(variable);
    let ghost handed = *processor;
    let ghost node = variable@;
    proof {
            assert(variable@ == node);
        lemma_walked_leaf(*old(processor), old(variable)@, handed, node);
    }
}

/// Walks a table: the table itself, then its entries in order.
pub fn visit_table<P: NodeProcessorMut>(table: &mut TableExpression, processor: &mut P)
    ensures
        walked(*old(processor), old(table)@, *final(processor), final(table)@),
    decreases old(table)@.depth(), 1nat,
{
    proof {
        lemma_table_tree(*table);
    }
    processor.process_table_expression(table);
    let ghost handed = *processor;
    let ghost node = table@;
    proof {
        lemma_table_tree(*table);
        assert(node.children[0] == list_tree(entry_trees(table.entries@)));
        lemma_child_is_shallower(node, 0);
    }
    visit_entries(&mut table.entries, processor);
    let ghost after_first = *processor;
    let ghost first = list_tree(entry_trees(table.entries@));
    proof {
        lemma_table_tree(*table);
        assert(table@ == node.with_children(seq![first]));
        lemma_walked_1(*old(processor), old(table)@, handed, node, after_first, first);
    }
}

/// Walks a table entry: its key where that is an expression, then its value.
pub fn visit_entry<P: NodeProcessorMut>(entry: &mut TableEntry, processor: &mut P)
    ensures
        walked(*old(processor), old(entry)@, *final(processor), final(entry)@),
    decreases old(entry)@.depth(), 1nat,
{
    proof {
        lemma_entry_tree(*entry);
    }
    let ghost handed = *processor;
    let ghost node = entry@;
    proof {
        lemma_entry_tree(*entry);
    }
    let ghost mut rebuilt = node;
    match entry {
        TableEntry::Field(_, value) => {
            proof {
                assert(node.children[0] == value@);
                lemma_child_is_shallower(node, 0);
            }
            visit_expression(value, processor);
            let ghost after_first = *processor;
            let ghost first = value@;
            proof {
                lemma_walked_1(*old(processor), old(entry)@, handed, node, after_first, first);
                rebuilt = node.with_children(seq![first]);
            }
        },
        TableEntry::Index(key, value) => {
            proof {
                assert(node.children[0] == key@);
                lemma_child_is_shallower(node, 0);
            }
            visit_expression(key, processor);
            let ghost after_first = *processor;
            let ghost first = key@;
            proof {
                assert(node.children[1] == value@);
                lemma_child_is_shallower(node, 1);
            }
            visit_expression(value, processor);
            let ghost after_second = *processor;
            let ghost second = value@;
            proof {
                lemma_walked_2(*old(processor), old(entry)@, handed, node, after_first, first, after_second, second);
                rebuilt = node.with_children(seq![first, second]);
            }
        },
        TableEntry::Value(value) => {
            proof {
                assert(node.children[0] == value@);
                lemma_child_is_shallower(node, 0);
            }
            visit_expression(value, processor);
            let ghost after_first = *processor;
            let ghost first = value@;
            proof {
                lemma_walked_1(*old(processor), old(entry)@, handed, node, after_first, first);
                rebuilt = node.with_children(seq![first]);
            }
        },
    }
    proof {
        lemma_entry_tree(*entry);
        assert(entry@ == rebuilt);
    }
}

/// Walks a function expression: the expression itself, then its block.
pub fn visit_function_expression<P: NodeProcessorMut>(function: &mut FunctionExpression, processor: &mut P)
    ensures
        walked(*old(processor), old(function)@, *final(processor), final(function)@),
    decreases old(function)@.depth(), 1nat,
{
    proof {
        lemma_function_expression_tree(*function);
    }
    processor.process_function_expression(function);
    let ghost handed = *processor;
    let ghost node = function@;
    proof {
        lemma_function_expression_tree(*function);
        assert(node.children[0] == function.block@);
        lemma_child_is_shallower(node, 0);
    }
    visit_block(&mut function.block, processor);
    let ghost after_first = *processor;
    let ghost first = function.block@;
    proof {
        lemma_function_expression_tree(*function);
        assert(function@ == node.with_children(seq![first]));
        lemma_walked_1(*old(processor), old(function)@, handed, node, after_first, first);
    }
}

/// Walks a prefix: the prefix itself, then what it is.
pub fn visit_prefix_expression<P: NodeProcessorMut>(prefix: &mut Prefix, processor: &mut P)
    ensures
        walked(*old(processor), old(prefix)@, *final(processor), final(prefix)@),
    decreases old(prefix)@.depth(), 1nat,
{
    proof {
        lemma_prefix_tree(*prefix);
    }
    processor.process_prefix_expression(prefix);
    let ghost handed = *processor;
    let ghost node = prefix@;
    proof {
        lemma_prefix_tree(*prefix);
    }
    let ghost mut rebuilt = node;
    match prefix {
        Prefix::Call(inner) => {
            proof {
                assert(node.children[0] == inner@);
                lemma_child_is_shallower(node, 0);
            }
            visit_function_call(inner, processor);
            let ghost after_first = *processor;
            let ghost first = inner@;
            proof {
                lemma_walked_1(*old(processor), old(prefix)@, handed, node, after_first, first);
                rebuilt = node.with_children(seq![first]);
            }
        },
        Prefix::Field(inner) => {
            proof {
                assert(node.children[0] == inner@);
                lemma_child_is_shallower(node, 0);
            }
            visit_field_expression(inner, processor);
            let ghost after_first = *processor;
            let ghost first = inner@;
            proof {
                lemma_walked_1(*old(processor), old(prefix)@, handed, node, after_first, first);
                rebuilt = node.with_children(seq![first]);
            }
        },
        Prefix::Identifier(inner) => {
            proof {
                assert(node.children[0] == inner@);
                lemma_child_is_shallower(node, 0);
            }
            visit_variable_expression(inner, processor);
            let ghost after_first = *processor;
            let ghost first = inner@;
            proof {
                lemma_walked_1(*old(processor), old(prefix)@, handed, node, after_first, first);
                rebuilt = node.with_children(seq![first]);
            }
        },
        Prefix::Index(inner) => {
            proof {
                assert(node.children[0] == inner@);
                lemma_child_is_shallower(node, 0);
            }
            visit_index_expression(inner, processor);
            let ghost after_first = *processor;
            let ghost first = inner@;
            proof {
                lemma_walked_1(*old(processor), old(prefix)@, handed, node, after_first, first);
                rebuilt = node.with_children(seq![first]);
            }
        },
        Prefix::Parenthese(inner) => {
            proof {
                assert(node.children[0] == inner@);
                lemma_child_is_shallower(node, 0);
            }
            visit_parenthese_expression(inner, processor);
            let ghost after_first = *processor;
            let ghost first = inner@;
            proof {
                lemma_walked_1(*old(processor), old(prefix)@, handed, node, after_first, first);
                rebuilt = node.with_children(seq![first]);
            }
        },
    }
    proof {
        lemma_prefix_tree(*prefix);
        assert(prefix@ == rebuilt);
    }
}

/// Walks a call: the call itself, its prefix, then its arguments.
pub fn visit_function_call<P: NodeProcessorMut>(call: &mut FunctionCall, processor: &mut P)
    ensures
        walked(*old(processor), old(call)@, *final(processor), final(call)@),
    decreases old(call)@.depth(), 1nat,
{
    proof {
        lemma_call_tree(*call);
    }
    processor.process_function_call(call);
    let ghost handed = *processor;
    let ghost node = call@;
    proof {
        lemma_call_tree(*call);
        assert(node.children[0] == call.prefix@);
        lemma_child_is_shallower(node, 0);
    }
    visit_prefix_expression(&mut call.prefix, processor);
    let ghost after_first = *processor;
    let ghost first = call.prefix@;
    proof {
        assert(node.children[1] == call.arguments@);
        lemma_child_is_shallower(node, 1);
    }
    visit_arguments(&mut call.arguments, processor);
    let ghost after_second = *processor;
    let ghost second = call.arguments@;
    proof {
        lemma_call_tree(*call);
        assert(call@ == node.with_children(seq![first, second]));
        lemma_walked_2(*old(processor), old(call)@, handed, node, after_first, first, after_second, second);
    }
}

/// Walks the arguments of a call.
pub fn visit_arguments<P: NodeProcessorMut>(arguments: &mut Arguments, processor: &mut P)
    ensures
        walked(*old(processor), old(arguments)@, *final(processor), final(arguments)@),
    decreases old(arguments)@.depth(), 1nat,
{
    proof {
        lemma_arguments_tree(*arguments);
    }
    let ghost handed = *processor;
    let ghost node = arguments@;
    proof {
        lemma_arguments_tree(*arguments);
    }
    let ghost mut rebuilt = node;
    match arguments {
        Arguments::Tuple(values) => {
            proof {
                assert(node.children[0] == list_tree(expression_trees(values@)));
                lemma_child_is_shallower(node, 0);
            }
            visit_expressions(values, processor);
            let ghost after_first = *processor;
            let ghost first = list_tree(expression_trees(values@));
            proof {
                lemma_walked_1(*old(processor), old(arguments)@, handed, node, after_first, first);
                rebuilt = node.with_children(seq![first]);
            }
        },
        Arguments::String(inner) => {
            proof {
                assert(node.children[0] == inner@);
                lemma_child_is_shallower(node, 0);
            }
            visit_string_expression(inner, processor);
            let ghost after_first = *processor;
            let ghost first = inner@;
            proof {
                lemma_walked_1(*old(processor), old(arguments)@, handed, node, after_first, first);
                rebuilt = node.with_children(seq![first]);
            }
        },
        Arguments::Table(inner) => {
            proof {
                assert(node.children[0] == inner@);
                lemma_child_is_shallower(node, 0);
            }
            visit_table(inner, processor);
            let ghost after_first = *processor;
            let ghost first = inner@;
            proof {
                lemma_walked_1(*old(processor), old(arguments)@, handed, node, after_first, first);
                rebuilt = node.with_children(seq![first]);
            }
        },
    }
    proof {
        lemma_arguments_tree(*arguments);
        assert(arguments@ == rebuilt);
    }
}

} // verus!
