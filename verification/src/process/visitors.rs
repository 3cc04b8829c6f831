//! The reading walker.
use vstd::prelude::*;
use std::marker::PhantomData;
use crate::nodes::block::Block;
use crate::nodes::expressions::{
    Arguments, Expression, FieldExpression, FunctionCall, FunctionExpression, IndexExpression,
    Prefix, TableExpression,
};
use crate::nodes::local_assign::LocalAssignStatement;
use crate::nodes::lux::{
    LUXAttribute, LUXAttributeValue, LUXChild, LUXElement, LUXExpression, LUXFragment,
};
use crate::nodes::statements::{
    AssignStatement, DoStatement, FunctionStatement, GenericForStatement, IfStatement,
    LocalFunctionStatement, NumericForStatement, RepeatStatement, Statement, WhileStatement,
};
use crate::process::node_processor::NodeProcessor;
use crate::process::reading;
use crate::process::trace::seen;

verus! {

/// A walker that hands every node of a tree to a processor that reads it.
///
/// Whoever implements it walks as the methods given here do: the processor
/// ends as it is after the nodes that the tree reports, in their order.
pub trait NodeVisitor<T: NodeProcessor> {
    /// Walks a block: the block itself, its statements in order, then its last statement.
    fn visit_block(block: &Block, processor: &mut T)
        ensures
            seen(*old(processor), block@, *final(processor)),
    {
        reading::blocks::visit_block(block, processor)
    }

    /// Walks a statement: the statement itself, then what it is.
    fn visit_statement(statement: &Statement, processor: &mut T)
        ensures
            seen(*old(processor), statement@, *final(processor)),
    {
        reading::blocks::visit_statement(statement, processor)
    }

    /// Walks an expression: the expression itself, then what it is.
    fn visit_expression(expression: &Expression, processor: &mut T)
        ensures
            seen(*old(processor), expression@, *final(processor)),
    {
        reading::expressions::visit_expression(expression, processor)
    }

    /// Walks a function expression: the expression itself, then its block.
    fn visit_function_expression(function: &FunctionExpression, processor: &mut T)
        ensures
            seen(*old(processor), function@, *final(processor)),
    {
        reading::expressions::visit_function_expression(function, processor)
    }

    /// Walks an assignment: the assignment itself, its variables, then its values.
    fn visit_assign_statement(statement: &AssignStatement, processor: &mut T)
        ensures
            seen(*old(processor), statement@, *final(processor)),
    {
        reading::statements::visit_assign_statement(statement, processor)
    }

    /// Walks a do statement: the statement itself, then its block.
    fn visit_do_statement(statement: &DoStatement, processor: &mut T)
        ensures
            seen(*old(processor), statement@, *final(processor)),
    {
        reading::statements::visit_do_statement(statement, processor)
    }

    /// Walks a function statement: the statement itself, its name, then its block.
    fn visit_function_statement(statement: &FunctionStatement, processor: &mut T)
        ensures
            seen(*old(processor), statement@, *final(processor)),
    {
        reading::statements::visit_function_statement(statement, processor)
    }

    /// Walks a generic for: the statement itself, its expressions, then its block.
    fn visit_generic_for(statement: &GenericForStatement, processor: &mut T)
        ensures
            seen(*old(processor), statement@, *final(processor)),
    {
        reading::statements::visit_generic_for(statement, processor)
    }

    /// Walks an if statement: the statement itself, each branch, then the else block.
    fn visit_if_statement(statement: &IfStatement, processor: &mut T)
        ensures
            seen(*old(processor), statement@, *final(processor)),
    {
        reading::statements::visit_if_statement(statement, processor)
    }

    /// Walks a local declaration: the statement itself, then its values.
    fn visit_local_assign(statement: &LocalAssignStatement, processor: &mut T)
        ensures
            seen(*old(processor), statement@, *final(processor)),
    {
        reading::statements::visit_local_assign(statement, processor)
    }

    /// Walks a local function: the statement itself, then its block.
    fn visit_local_function(statement: &LocalFunctionStatement, processor: &mut T)
        ensures
            seen(*old(processor), statement@, *final(processor)),
    {
        reading::statements::visit_local_function(statement, processor)
    }

    /// Walks a numeric for: the statement itself, its start, end and step, then its block.
    fn visit_numeric_for(statement: &NumericForStatement, processor: &mut T)
        ensures
            seen(*old(processor), statement@, *final(processor)),
    {
        reading::statements::visit_numeric_for(statement, processor)
    }

    /// Walks a repeat statement: the statement itself, its condition, then its block.
    fn visit_repeat_statement(statement: &RepeatStatement, processor: &mut T)
        ensures
            seen(*old(processor), statement@, *final(processor)),
    {
        reading::statements::visit_repeat_statement(statement, processor)
    }

    /// Walks a while statement: the statement itself, its condition, then its block.
    fn visit_while_statement(statement: &WhileStatement, processor: &mut T)
        ensures
            seen(*old(processor), statement@, *final(processor)),
    {
        reading::statements::visit_while_statement(statement, processor)
    }

    /// Walks a field expression: the expression itself, then its prefix.
    fn visit_field_expression(field: &FieldExpression, processor: &mut T)
        ensures
            seen(*old(processor), field@, *final(processor)),
    {
        reading::expressions::visit_field_expression(field, processor)
    }

    /// Walks an index expression: the expression itself, its prefix, then its index.
    fn visit_index_expression(index: &IndexExpression, processor: &mut T)
        ensures
            seen(*old(processor), index@, *final(processor)),
    {
        reading::expressions::visit_index_expression(index, processor)
    }

    /// Walks a call: the call itself, its prefix, then its arguments.
    fn visit_function_call(call: &FunctionCall, processor: &mut T)
        ensures
            seen(*old(processor), call@, *final(processor)),
    {
        reading::expressions::visit_function_call(call, processor)
    }

    /// Walks the arguments of a call.
    fn visit_arguments(arguments: &Arguments, processor: &mut T)
        ensures
            seen(*old(processor), arguments@, *final(processor)),
    {
        reading::expressions::visit_arguments(arguments, processor)
    }

    /// Walks a table: the table itself, then its entries in order.
    fn visit_table(table: &TableExpression, processor: &mut T)
        ensures
            seen(*old(processor), table@, *final(processor)),
    {
        reading::expressions::visit_table(table, processor)
    }

    /// Walks a prefix: the prefix itself, then what it is.
    fn visit_prefix_expression(prefix: &Prefix, processor: &mut T)
        ensures
            seen(*old(processor), prefix@, *final(processor)),
    {
        reading::expressions::visit_prefix_expression(prefix, processor)
    }

    /// Walks a markup expression: the expression itself, then its element or fragment.
    fn visit_lux_expression(lux: &LUXExpression, processor: &mut T)
        ensures
            seen(*old(processor), lux@, *final(processor)),
    {
        reading::markup::visit_lux_expression(lux, processor)
    }

    /// Walks a markup element: the element itself, then what it is.
    fn visit_lux_element(element: &LUXElement, processor: &mut T)
        ensures
            seen(*old(processor), element@, *final(processor)),
    {
        reading::markup::visit_lux_element(element, processor)
    }

    /// Walks a fragment: the fragment itself, then its children.
    fn visit_lux_fragment(fragment: &LUXFragment, processor: &mut T)
        ensures
            seen(*old(processor), fragment@, *final(processor)),
    {
        reading::markup::visit_lux_fragment(fragment, processor)
    }

    /// Walks a child of an element or fragment: the child itself, then what it is.
    fn visit_lux_child(child: &LUXChild, processor: &mut T)
        ensures
            seen(*old(processor), child@, *final(processor)),
    {
        reading::markup::visit_lux_child(child, processor)
    }

    /// Walks an attribute: the attribute itself, then its value or the expression it spreads.
    fn visit_lux_attribute(attribute: &LUXAttribute, processor: &mut T)
        ensures
            seen(*old(processor), attribute@, *final(processor)),
    {
        reading::markup::visit_lux_attribute(attribute, processor)
    }

    /// Walks the value of an attribute: the value itself, then what it holds.
    fn visit_lux_attribute_value(value: &LUXAttributeValue, processor: &mut T)
        ensures
            seen(*old(processor), value@, *final(processor)),
    {
        reading::markup::visit_lux_attribute_value(value, processor)
    }
}

/// The walker that walks as `NodeVisitor` says.
pub struct DefaultVisitor<T> {
    _phantom: PhantomData<T>,
}

impl<T: NodeProcessor> NodeVisitor<T> for DefaultVisitor<T> {
}

} // verus!
