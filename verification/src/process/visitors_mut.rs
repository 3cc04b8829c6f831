//! The mutating walker.
use vstd::prelude::*;
use std::marker::PhantomData;
use crate::nodes::block::Block;
use crate::nodes::expressions::{
    Arguments, Expression, FieldExpression, FunctionCall, FunctionExpression, IndexExpression,
    Prefix, TableExpression,
};
use crate::nodes::local_assign::LocalAssignStatement;
use crate::nodes::lux::{
    LUXAttribute, LUXAttributeValue, LUXChild, LUXElement, LUXExpression, LUXFragment,
};
use crate::nodes::statements::{
    AssignStatement, DoStatement, FunctionStatement, GenericForStatement, IfStatement,
    LocalFunctionStatement, NumericForStatement, RepeatStatement, Statement, WhileStatement,
};
use crate::process::mutating;
use crate::process::node_processor::NodeProcessorMut;
use crate::process::walk::walked;

verus! {

/// A walker that hands every node of a tree to a processor that may change
/// it, and goes on into each node as the processor left it.
///
/// Whoever implements it walks as the methods given here do.
pub trait NodeVisitorMut<T: NodeProcessorMut> {
    /// Walks a block: the block itself, its statements in order, then its last statement.
    fn visit_block(block: &mut Block, processor: &mut T)
        ensures
            walked(*old(processor), old(block)@, *final(processor), final(block)@),
    {
        mutating::blocks::visit_block(block, processor)
    }

    /// Walks a statement: the statement itself, then what it is.
    fn visit_statement(statement: &mut Statement, processor: &mut T)
        ensures
            walked(*old(processor), old(statement)@, *final(processor), final(statement)@),
    {
        mutating::blocks::visit_statement(statement, processor)
    }

    /// Walks an expression: the expression itself, then what it is.
    fn visit_expression(expression: &mut Expression, processor: &mut T)
        ensures
            walked(*old(processor), old(expression)@, *final(processor), final(expression)@),
    {
        mutating::expressions::visit_expression(expression, processor)
    }

    /// Walks a function expression: the expression itself, then its block.
    fn visit_function_expression(function: &mut FunctionExpression, processor: &mut T)
        ensures
            walked(*old(processor), old(function)@, *final(processor), final(function)@),
    {
        mutating::expressions::visit_function_expression(function, processor)
    }

    /// Walks an assignment: the assignment itself, its variables, then its values.
    fn visit_assign_statement(statement: &mut AssignStatement, processor: &mut T)
        ensures
            walked(*old(processor), old(statement)@, *final(processor), final(statement)@),
    {
        mutating::statements::visit_assign_statement(statement, processor)
    }

    /// Walks a do statement: the statement itself, then its block.
    fn visit_do_statement(statement: &mut DoStatement, processor: &mut T)
        ensures
            walked(*old(processor), old(statement)@, *final(processor), final(statement)@),
    {
        mutating::statements::visit_do_statement(statement, processor)
    }

    /// Walks a function statement: the statement itself, its name, then its block.
    fn visit_function_statement(statement: &mut FunctionStatement, processor: &mut T)
        ensures
            walked(*old(processor), old(statement)@, *final(processor), final(statement)@),
    {
        mutating::statements::visit_function_statement(statement, processor)
    }

    /// Walks a generic for: the statement itself, its expressions, then its block.
    fn visit_generic_for(statement: &mut GenericForStatement, processor: &mut T)
        ensures
            walked(*old(processor), old(statement)@, *final(processor), final(statement)@),
    {
        mutating::statements::visit_generic_for(statement, processor)
    }

    /// Walks an if statement: the statement itself, each branch, then the else block.
    fn visit_if_statement(statement: &mut IfStatement, processor: &mut T)
        ensures
            walked(*old(processor), old(statement)@, *final(processor), final(statement)@),
    {
        mutating::statements::visit_if_statement(statement, processor)
    }

    /// Walks a local declaration: the statement itself, then its values.
    fn visit_local_assign(statement: &mut LocalAssignStatement, processor: &mut T)
        ensures
            walked(*old(processor), old(statement)@, *final(processor), final(statement)@),
    {
        mutating::statements::visit_local_assign(statement, processor)
    }

    /// Walks a local function: the statement itself, then its block.
    fn visit_local_function(statement: &mut LocalFunctionStatement, processor: &mut T)
        ensures
            walked(*old(processor), old(statement)@, *final(processor), final(statement)@),
    {
        mutating::statements::visit_local_function(statement, processor)
    }

    /// Walks a numeric for: the statement itself, its start, end and step, then its block.
    fn visit_numeric_for(statement: &mut NumericForStatement, processor: &mut T)
        ensures
            walked(*old(processor), old(statement)@, *final(processor), final(statement)@),
    {
        mutating::statements::visit_numeric_for(statement, processor)
    }

    /// Walks a repeat statement: the statement itself, its condition, then its block.
    fn visit_repeat_statement(statement: &mut RepeatStatement, processor: &mut T)
        ensures
            walked(*old(processor), old(statement)@, *final(processor), final(statement)@),
    {
        mutating::statements::visit_repeat_statement(statement, processor)
    }

    /// Walks a while statement: the statement itself, its condition, then its block.
    fn visit_while_statement(statement: &mut WhileStatement, processor: &mut T)
        ensures
            walked(*old(processor), old(statement)@, *final(processor), final(statement)@),
    {
        mutating::statements::visit_while_statement(statement, processor)
    }

    /// Walks a field expression: the expression itself, then its prefix.
    fn visit_field_expression(field: &mut FieldExpression, processor: &mut T)
        ensures
            walked(*old(processor), old(field)@, *final(processor), final(field)@),
    {
        mutating::expressions::visit_field_expression(field, processor)
    }

    /// Walks an index expression: the expression itself, its prefix, then its index.
    fn visit_index_expression(index: &mut IndexExpression, processor: &mut T)
        ensures
            walked(*old(processor), old(index)@, *final(processor), final(index)@),
    {
        mutating::expressions::visit_index_expression(index, processor)
    }

    /// Walks a call: the call itself, its prefix, then its arguments.
    fn visit_function_call(call: &mut FunctionCall, processor: &mut T)
        ensures
            walked(*old(processor), old(call)@, *final(processor), final(call)@),
    {
        mutating::expressions::visit_function_call(call, processor)
    }

    /// Walks the arguments of a call.
    fn visit_arguments(arguments: &mut Arguments, processor: &mut T)
        ensures
            walked(*old(processor), old(arguments)@, *final(processor), final(arguments)@),
    {
        mutating::expressions::visit_arguments(arguments, processor)
    }

    /// Walks a table: the table itself, then its entries in order.
    fn visit_table(table: &mut TableExpression, processor: &mut T)
        ensures
            walked(*old(processor), old(table)@, *final(processor), final(table)@),
    {
        mutating::expressions::visit_table(table, processor)
    }

    /// Walks a prefix: the prefix itself, then what it is.
    fn visit_prefix_expression(prefix: &mut Prefix, processor: &mut T)
        ensures
            walked(*old(processor), old(prefix)@, *final(processor), final(prefix)@),
    {
        mutating::expressions::visit_prefix_expression(prefix, processor)
    }

    /// Walks a markup expression: the expression itself, then its element or fragment.
    fn visit_lux_expression(lux: &mut LUXExpression, processor: &mut T)
        ensures
            walked(*old(processor), old(lux)@, *final(processor), final(lux)@),
    {
        mutating::markup::visit_lux_expression(lux, processor)
    }

    /// Walks a markup element: the element itself, then what it is.
    fn visit_lux_element(element: &mut LUXElement, processor: &mut T)
        ensures
            walked(*old(processor), old(element)@, *final(processor), final(element)@),
    {
        mutating::markup::visit_lux_element(element, processor)
    }

    /// Walks a fragment: the fragment itself, then its children.
    fn visit_lux_fragment(fragment: &mut LUXFragment, processor: &mut T)
        ensures
            walked(*old(processor), old(fragment)@, *final(processor), final(fragment)@),
    {
        mutating::markup::visit_lux_fragment(fragment, processor)
    }

    /// Walks a child of an element or fragment: the child itself, then what it is.
    fn visit_lux_child(child: &mut LUXChild, processor: &mut T)
        ensures
            walked(*old(processor), old(child)@, *final(processor), final(child)@),
    {
        mutating::markup::visit_lux_child(child, processor)
    }

    /// Walks an attribute: the attribute itself, then its value or the expression it spreads.
    fn visit_lux_attribute(attribute: &mut LUXAttribute, processor: &mut T)
        ensures
            walked(*old(processor), old(attribute)@, *final(processor), final(attribute)@),
    {
        mutating::markup::visit_lux_attribute(attribute, processor)
    }

    /// Walks the value of an attribute: the value itself, then what it holds.
    fn visit_lux_attribute_value(value: &mut LUXAttributeValue, processor: &mut T)
        ensures
            walked(*old(processor), old(value)@, *final(processor), final(value)@),
    {
        mutating::markup::visit_lux_attribute_value(value, processor)
    }
}

/// The walker that walks as `NodeVisitorMut` says.
pub struct DefaultVisitorMut<T> {
    _phantom: PhantomData<T>,
}

impl<T: NodeProcessorMut> NodeVisitorMut<T> for DefaultVisitorMut<T> {
}

} // verus!
