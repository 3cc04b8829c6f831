//! What a walker hands each node to: the two kinds of processor.
use vstd::prelude::*;
use crate::nodes::block::Block;
use crate::nodes::expressions::{
    BinaryExpression, Expression, FieldExpression, FunctionCall, FunctionExpression,
    IndexExpression, NumberExpression, ParentheseExpression, Prefix, StringExpression,
    TableExpression, UnaryExpression,
};
use crate::nodes::local_assign::LocalAssignStatement;
use crate::nodes::lux::{
    LUXAttribute, LUXAttributeValue, LUXChild, LUXElement, LUXExpression, LUXFragment,
    LUXOpenCloseElement, LUXSelfClosingElement,
};
use crate::nodes::statements::{
    AssignStatement, DoStatement, FunctionStatement, GenericForStatement, IfStatement,
    LastStatement, LocalFunctionStatement, NumericForStatement, RepeatStatement, Statement,
    WhileStatement,
};
use crate::nodes::token::Identifier;
use crate::nodes::tree::Tree;

verus! {

/// A processor that reads the nodes it is handed.
///
/// What a processor does with a node is a function of the processor and of
/// the node's model: `after`. A hook that has nothing to do leaves the
/// processor as it is, and `after` says so for the nodes of that kind.
pub trait NodeProcessor: Sized {
    /// The processor as it is once it was handed the node of this model.
    spec fn after(self, node: Tree) -> Self;

    fn process_block(&mut self, block: &Block)
        ensures
            *final(self) == old(self).after(block@),
    ;

    fn process_statement(&mut self, statement: &Statement)
        ensures
            *final(self) == old(self).after(statement@),
    ;

    fn process_function_call(&mut self, call: &FunctionCall)
        ensures
            *final(self) == old(self).after(call@),
    ;

    fn process_assign_statement(&mut self, statement: &AssignStatement)
        ensures
            *final(self) == old(self).after(statement@),
    ;

    fn process_do_statement(&mut self, statement: &DoStatement)
        ensures
            *final(self) == old(self).after(statement@),
    ;

    fn process_function_statement(&mut self, statement: &FunctionStatement)
        ensures
            *final(self) == old(self).after(statement@),
    ;

    fn process_generic_for_statement(&mut self, statement: &GenericForStatement)
        ensures
            *final(self) == old(self).after(statement@),
    ;

    fn process_if_statement(&mut self, statement: &IfStatement)
        ensures
            *final(self) == old(self).after(statement@),
    ;

    fn process_last_statement(&mut self, statement: &LastStatement)
        ensures
            *final(self) == old(self).after(statement@),
    ;

    fn process_local_assign_statement(&mut self, statement: &LocalAssignStatement)
        ensures
            *final(self) == old(self).after(statement@),
    ;

    fn process_local_function_statement(&mut self, statement: &LocalFunctionStatement)
        ensures
            *final(self) == old(self).after(statement@),
    ;

    fn process_numeric_for_statement(&mut self, statement: &NumericForStatement)
        ensures
            *final(self) == old(self).after(statement@),
    ;

    fn process_repeat_statement(&mut self, statement: &RepeatStatement)
        ensures
            *final(self) == old(self).after(statement@),
    ;

    fn process_while_statement(&mut self, statement: &WhileStatement)
        ensures
            *final(self) == old(self).after(statement@),
    ;

    fn process_expression(&mut self, expression: &Expression)
        ensures
            *final(self) == old(self).after(expression@),
    ;

    fn process_binary_expression(&mut self, binary: &BinaryExpression)
        ensures
            *final(self) == old(self).after(binary@),
    ;

    fn process_field_expression(&mut self, field: &FieldExpression)
        ensures
            *final(self) == old(self).after(field@),
    ;

    fn process_function_expression(&mut self, function: &FunctionExpression)
        ensures
            *final(self) == old(self).after(function@),
    ;

    fn process_variable_expression(&mut self, variable: &Identifier)
        ensures
            *final(self) == old(self).after(variable@),
    ;

    fn process_index_expression(&mut self, index: &IndexExpression)
        ensures
            *final(self) == old(self).after(index@),
    ;

    fn process_number_expression(&mut self, number: &NumberExpression)
        ensures
            *final(self) == old(self).after(number@),
    ;

    fn process_prefix_expression(&mut self, prefix: &Prefix)
        ensures
            *final(self) == old(self).after(prefix@),
    ;

    fn process_parenthese_expression(&mut self, parenthese: &ParentheseExpression)
        ensures
            *final(self) == old(self).after(parenthese@),
    ;

    fn process_string_expression(&mut self, string: &StringExpression)
        ensures
            *final(self) == old(self).after(string@),
    ;

    fn process_table_expression(&mut self, table: &TableExpression)
        ensures
            *final(self) == old(self).after(table@),
    ;

    fn process_unary_expression(&mut self, unary: &UnaryExpression)
        ensures
            *final(self) == old(self).after(unary@),
    ;

    fn process_lux_expression(&mut self, lux: &LUXExpression)
        ensures
            *final(self) == old(self).after(lux@),
    ;

    fn process_lux_element(&mut self, element: &LUXElement)
        ensures
            *final(self) == old(self).after(element@),
    ;

    fn process_lux_open_close_element(&mut self, element: &LUXOpenCloseElement)
        ensures
            *final(self) == old(self).after(element@),
    ;

    fn process_lux_self_closing_element(&mut self, element: &LUXSelfClosingElement)
        ensures
            *final(self) == old(self).after(element@),
    ;

    fn process_lux_fragment(&mut self, fragment: &LUXFragment)
        ensures
            *final(self) == old(self).after(fragment@),
    ;

    fn process_lux_child(&mut self, child: &LUXChild)
        ensures
            *final(self) == old(self).after(child@),
    ;

    fn process_lux_attribute(&mut self, attribute: &LUXAttribute)
        ensures
            *final(self) == old(self).after(attribute@),
    ;

    fn process_lux_attribute_value(&mut self, value: &LUXAttributeValue)
        ensures
            *final(self) == old(self).after(value@),
    ;
}

/// The processor as it is once it was handed the first `count` of `visits`, in order.
pub open spec fn after_all<P: NodeProcessor>(processor: P, visits: Seq<Tree>, count: nat) -> P
    decreases count,
{
    if count == 0 || count > visits.len() {
        processor
    } else {
        after_all(processor, visits, (count - 1) as nat).after(visits[count - 1])
    }
}

/// Handing over two runs of nodes one after the other is handing over both in a row.
pub proof fn lemma_after_all_concat<P: NodeProcessor>(processor: P, first: Seq<Tree>, second: Seq<Tree>)
    ensures
        after_all(processor, first + second, (first + second).len()) == after_all(
            after_all(processor, first, first.len()),
            second,
            second.len(),
        ),
    decreases second.len(),
{
    lemma_after_all_prefix(processor, first, second, second.len());
}

/// The step of `lemma_after_all_concat`: the same for the first `count` nodes of the second run.
proof fn lemma_after_all_prefix<P: NodeProcessor>(
    processor: P,
    first: Seq<Tree>,
    second: Seq<Tree>,
    count: nat,
)
    requires
        count <= second.len(),
    ensures
        after_all(processor, first + second, first.len() + count) == after_all(
            after_all(processor, first, first.len()),
            second,
            count,
        ),
    decreases count,
{
    if count == 0 {
        lemma_after_all_reads_prefix(processor, first + second, first, first.len());
    } else {
        lemma_after_all_prefix(processor, first, second, (count - 1) as nat);
        assert((first + second)[first.len() + count - 1] == second[count - 1]);
    }
}

/// Only the nodes that are handed over count.
proof fn lemma_after_all_reads_prefix<P: NodeProcessor>(
    processor: P,
    visits: Seq<Tree>,
    others: Seq<Tree>,
    count: nat,
)
    requires
        count <= visits.len(),
        count <= others.len(),
        forall|i: int| 0 <= i < count ==> visits[i] == others[i],
    ensures
        after_all(processor, visits, count) == after_all(processor, others, count),
    decreases count,
{
    if count > 0 {
        lemma_after_all_reads_prefix(processor, visits, others, (count - 1) as nat);
    }
}

/// A processor that may change the nodes it is handed.
///
/// What a processor does with a node is a function of the processor and of
/// the node's model: `rewrite` gives the processor and the node as they are
/// after the hook. A hook may swap the node for another of its type and may
/// change what is below it, but it does not make the node deeper: that is
/// what lets a walk, which goes on into the node as the hook left it, come
/// to an end.
pub trait NodeProcessorMut: Sized {
    /// The processor and the node as they are once the processor was handed the node.
    spec fn rewrite(self, node: Tree) -> (Self, Tree);

    fn process_block(&mut self, block: &mut Block)
        ensures
            (*final(self), final(block)@) == old(self).rewrite(old(block)@),
            final(block)@.depth() <= old(block)@.depth(),
    ;

    fn process_statement(&mut self, statement: &mut Statement)
        ensures
            (*final(self), final(statement)@) == old(self).rewrite(old(statement)@),
            final(statement)@.depth() <= old(statement)@.depth(),
    ;

    fn process_function_call(&mut self, call: &mut FunctionCall)
        ensures
            (*final(self), final(call)@) == old(self).rewrite(old(call)@),
            final(call)@.depth() <= old(call)@.depth(),
    ;

    fn process_assign_statement(&mut self, statement: &mut AssignStatement)
        ensures
            (*final(self), final(statement)@) == old(self).rewrite(old(statement)@),
            final(statement)@.depth() <= old(statement)@.depth(),
    ;

    fn process_do_statement(&mut self, statement: &mut DoStatement)
        ensures
            (*final(self), final(statement)@) == old(self).rewrite(old(statement)@),
            final(statement)@.depth() <= old(statement)@.depth(),
    ;

    fn process_function_statement(&mut self, statement: &mut FunctionStatement)
        ensures
            (*final(self), final(statement)@) == old(self).rewrite(old(statement)@),
            final(statement)@.depth() <= old(statement)@.depth(),
    ;

    fn process_generic_for_statement(&mut self, statement: &mut GenericForStatement)
        ensures
            (*final(self), final(statement)@) == old(self).rewrite(old(statement)@),
            final(statement)@.depth() <= old(statement)@.depth(),
    ;

    fn process_if_statement(&mut self, statement: &mut IfStatement)
        ensures
            (*final(self), final(statement)@) == old(self).rewrite(old(statement)@),
            final(statement)@.depth() <= old(statement)@.depth(),
    ;

    fn process_last_statement(&mut self, statement: &mut LastStatement)
        ensures
            (*final(self), final(statement)@) == old(self).rewrite(old(statement)@),
            final(statement)@.depth() <= old(statement)@.depth(),
    ;

    fn process_local_assign_statement(&mut self, statement: &mut LocalAssignStatement)
        ensures
            (*final(self), final(statement)@) == old(self).rewrite(old(statement)@),
            final(statement)@.depth() <= old(statement)@.depth(),
    ;

    fn process_local_function_statement(&mut self, statement: &mut LocalFunctionStatement)
        ensures
            (*final(self), final(statement)@) == old(self).rewrite(old(statement)@),
            final(statement)@.depth() <= old(statement)@.depth(),
    ;

    fn process_numeric_for_statement(&mut self, statement: &mut NumericForStatement)
        ensures
            (*final(self), final(statement)@) == old(self).rewrite(old(statement)@),
            final(statement)@.depth() <= old(statement)@.depth(),
    ;

    fn process_repeat_statement(&mut self, statement: &mut RepeatStatement)
        ensures
            (*final(self), final(statement)@) == old(self).rewrite(old(statement)@),
            final(statement)@.depth() <= old(statement)@.depth(),
    ;

    fn process_while_statement(&mut self, statement: &mut WhileStatement)
        ensures
            (*final(self), final(statement)@) == old(self).rewrite(old(statement)@),
            final(statement)@.depth() <= old(statement)@.depth(),
    ;

    fn process_expression(&mut self, expression: &mut Expression)
        ensures
            (*final(self), final(expression)@) == old(self).rewrite(old(expression)@),
            final(expression)@.depth() <= old(expression)@.depth(),
    ;

    fn process_binary_expression(&mut self, binary: &mut BinaryExpression)
        ensures
            (*final(self), final(binary)@) == old(self).rewrite(old(binary)@),
            final(binary)@.depth() <= old(binary)@.depth(),
    ;

    fn process_field_expression(&mut self, field: &mut FieldExpression)
        ensures
            (*final(self), final(field)@) == old(self).rewrite(old(field)@),
            final(field)@.depth() <= old(field)@.depth(),
    ;

    fn process_function_expression(&mut self, function: &mut FunctionExpression)
        ensures
            (*final(self), final(function)@) == old(self).rewrite(old(function)@),
            final(function)@.depth() <= old(function)@.depth(),
    ;

    fn process_variable_expression(&mut self, variable: &mut Identifier)
        ensures
            (*final(self), final(variable)@) == old(self).rewrite(old(variable)@),
            final(variable)@.depth() <= old(variable)@.depth(),
    ;

    fn process_index_expression(&mut self, index: &mut IndexExpression)
        ensures
            (*final(self), final(index)@) == old(self).rewrite(old(index)@),
            final(index)@.depth() <= old(index)@.depth(),
    ;

    fn process_number_expression(&mut self, number: &mut NumberExpression)
        ensures
            (*final(self), final(number)@) == old(self).rewrite(old(number)@),
            final(number)@.depth() <= old(number)@.depth(),
    ;

    fn process_prefix_expression(&mut self, prefix: &mut Prefix)
        ensures
            (*final(self), final(prefix)@) == old(self).rewrite(old(prefix)@),
            final(prefix)@.depth() <= old(prefix)@.depth(),
    ;

    fn process_parenthese_expression(&mut self, parenthese: &mut ParentheseExpression)
        ensures
            (*final(self), final(parenthese)@) == old(self).rewrite(old(parenthese)@),
            final(parenthese)@.depth() <= old(parenthese)@.depth(),
    ;

    fn process_string_expression(&mut self, string: &mut StringExpression)
        ensures
            (*final(self), final(string)@) == old(self).rewrite(old(string)@),
            final(string)@.depth() <= old(string)@.depth(),
    ;

    fn process_table_expression(&mut self, table: &mut TableExpression)
        ensures
            (*final(self), final(table)@) == old(self).rewrite(old(table)@),
            final(table)@.depth() <= old(table)@.depth(),
    ;

    fn process_unary_expression(&mut self, unary: &mut UnaryExpression)
        ensures
            (*final(self), final(unary)@) == old(self).rewrite(old(unary)@),
            final(unary)@.depth() <= old(unary)@.depth(),
    ;

    fn process_lux_expression(&mut self, lux: &mut LUXExpression)
        ensures
            (*final(self), final(lux)@) == old(self).rewrite(old(lux)@),
            final(lux)@.depth() <= old(lux)@.depth(),
    ;

    fn process_lux_element(&mut self, element: &mut LUXElement)
        ensures
            (*final(self), final(element)@) == old(self).rewrite(old(element)@),
            final(element)@.depth() <= old(element)@.depth(),
    ;

    fn process_lux_open_close_element(&mut self, element: &mut LUXOpenCloseElement)
        ensures
            (*final(self), final(element)@) == old(self).rewrite(old(element)@),
            final(element)@.depth() <= old(element)@.depth(),
    ;

    fn process_lux_self_closing_element(&mut self, element: &mut LUXSelfClosingElement)
        ensures
            (*final(self), final(element)@) == old(self).rewrite(old(element)@),
            final(element)@.depth() <= old(element)@.depth(),
    ;

    fn process_lux_fragment(&mut self, fragment: &mut LUXFragment)
        ensures
            (*final(self), final(fragment)@) == old(self).rewrite(old(fragment)@),
            final(fragment)@.depth() <= old(fragment)@.depth(),
    ;

    fn process_lux_child(&mut self, child: &mut LUXChild)
        ensures
            (*final(self), final(child)@) == old(self).rewrite(old(child)@),
            final(child)@.depth() <= old(child)@.depth(),
    ;

    fn process_lux_attribute(&mut self, attribute: &mut LUXAttribute)
        ensures
            (*final(self), final(attribute)@) == old(self).rewrite(old(attribute)@),
            final(attribute)@.depth() <= old(attribute)@.depth(),
    ;

    fn process_lux_attribute_value(&mut self, value: &mut LUXAttributeValue)
        ensures
            (*final(self), final(value)@) == old(self).rewrite(old(value)@),
            final(value)@.depth() <= old(value)@.depth(),
    ;
}

} // verus!
