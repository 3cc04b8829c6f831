//! A processor that counts the nodes it is handed, kind by kind.
use vstd::prelude::*;
use crate::nodes::block::Block;
use crate::nodes::expressions::{
    BinaryExpression, Expression, FieldExpression, FunctionCall, FunctionExpression,
    IndexExpression, NumberExpression, ParentheseExpression, Prefix, StringExpression,
    TableExpression, UnaryExpression,
};
use crate::nodes::local_assign::LocalAssignStatement;
use crate::nodes::lux::{
    LUXAttribute, LUXAttributeValue, LUXChild, LUXElement, LUXExpression, LUXFragment,
    LUXOpenCloseElement, LUXSelfClosingElement,
};
use crate::nodes::statements::{
    AssignStatement, DoStatement, FunctionStatement, GenericForStatement, IfStatement,
    LastStatement, LocalFunctionStatement, NumericForStatement, RepeatStatement, Statement,
    WhileStatement,
};
use crate::nodes::token::Identifier;
use crate::nodes::tree::{Kind, Tree};
use crate::nodes::unfold::{
    lemma_assign_tree, lemma_binary_tree, lemma_block_tree, lemma_call_tree, lemma_do_tree,
    lemma_expression_tree, lemma_field_tree, lemma_function_expression_tree,
    lemma_function_statement_tree, lemma_generic_for_tree, lemma_if_tree, lemma_index_tree,
    lemma_last_statement_tree, lemma_local_assign_tree, lemma_local_function_tree,
    lemma_lux_attribute_tree, lemma_lux_attribute_value_tree, lemma_lux_child_tree,
    lemma_lux_element_tree, lemma_lux_expression_tree, lemma_lux_fragment_tree,
    lemma_lux_open_close_tree, lemma_lux_self_closing_tree, lemma_numeric_for_tree,
    lemma_parenthese_tree, lemma_prefix_tree, lemma_repeat_tree, lemma_statement_tree,
    lemma_table_tree, lemma_unary_tree, lemma_while_tree,
};
use crate::process::node_processor::NodeProcessor;

verus! {

/// One more, up to the greatest number there is: a count that is full stays full.
pub open spec fn one_more(count: usize) -> usize {
    if count < usize::MAX {
        (count + 1) as usize
    } else {
        count
    }
}

fn increment(count: usize) -> (next: usize)
    ensures
        next == one_more(count),
{
    if count < usize::MAX {
        count + 1
    } else {
        count
    }
}

/// How many nodes of some kinds a walk has met.
#[derive(Clone, Copy, Debug, Default, PartialEq, Eq)]
pub struct NodeCounter {
    pub block_count: usize,
    pub function_call_count: usize,
    pub assign_count: usize,
    pub do_count: usize,
    pub function_count: usize,
    pub generic_for_count: usize,
    pub if_count: usize,
    pub local_assign_count: usize,
    pub local_function_count: usize,
    pub numeric_for_count: usize,
    pub repeat_count: usize,
    pub while_count: usize,
    pub expression_count: usize,
    pub variable_count: usize,
}

impl NodeCounter {
    /// A counter that has met nothing.
    pub fn new() -> (counter: Self)
        ensures
            counter == Self::zero(),
    {
        Self {
            block_count: 0,
            function_call_count: 0,
            assign_count: 0,
            do_count: 0,
            function_count: 0,
            generic_for_count: 0,
            if_count: 0,
            local_assign_count: 0,
            local_function_count: 0,
            numeric_for_count: 0,
            repeat_count: 0,
            while_count: 0,
            expression_count: 0,
            variable_count: 0,
        }
    }

    /// The counter that has met nothing.
    pub open spec fn zero() -> Self {
        NodeCounter {
            block_count: 0,
            function_call_count: 0,
            assign_count: 0,
            do_count: 0,
            function_count: 0,
            generic_for_count: 0,
            if_count: 0,
            local_assign_count: 0,
            local_function_count: 0,
            numeric_for_count: 0,
            repeat_count: 0,
            while_count: 0,
            expression_count: 0,
            variable_count: 0,
        }
    }
}

impl NodeProcessor for NodeCounter {
    open spec fn after(self, node: Tree) -> Self {
        match node.kind {
            Kind::Block => NodeCounter { block_count: one_more(self.block_count), ..self },
            Kind::FunctionCall => NodeCounter { function_call_count: one_more(self.function_call_count), ..self },
            Kind::Assign => NodeCounter { assign_count: one_more(self.assign_count), ..self },
            Kind::Do => NodeCounter { do_count: one_more(self.do_count), ..self },
            Kind::FunctionStatement => NodeCounter { function_count: one_more(self.function_count), ..self },
            Kind::GenericFor => NodeCounter { generic_for_count: one_more(self.generic_for_count), ..self },
            Kind::If => NodeCounter { if_count: one_more(self.if_count), ..self },
            Kind::LocalAssign => NodeCounter { local_assign_count: one_more(self.local_assign_count), ..self },
            Kind::LocalFunction => NodeCounter { local_function_count: one_more(self.local_function_count), ..self },
            Kind::NumericFor => NodeCounter { numeric_for_count: one_more(self.numeric_for_count), ..self },
            Kind::Repeat => NodeCounter { repeat_count: one_more(self.repeat_count), ..self },
            Kind::While => NodeCounter { while_count: one_more(self.while_count), ..self },
            Kind::Expression => NodeCounter { expression_count: one_more(self.expression_count), ..self },
            Kind::Identifier => NodeCounter { variable_count: one_more(self.variable_count), ..self },
            _ => self,
        }
    }

    fn process_block(&mut self, block: &Block) {
        proof {
            lemma_block_tree(*block);
        }
        self.block_count = increment(self.block_count);
    }

    fn process_statement(&mut self, statement: &Statement) {
        proof {
            lemma_statement_tree(*statement);
        }
    }

    fn process_function_call(&mut self, call: &FunctionCall) {
        proof {
            lemma_call_tree(*call);
        }
        self.function_call_count = increment(self.function_call_count);
    }

    fn process_assign_statement(&mut self, statement: &AssignStatement) {
        proof {
            lemma_assign_tree(*statement);
        }
        self.assign_count = increment(self.assign_count);
    }

    fn process_do_statement(&mut self, statement: &DoStatement) {
        proof {
            lemma_do_tree(*statement);
        }
        self.do_count = increment(self.do_count);
    }

    fn process_function_statement(&mut self, statement: &FunctionStatement) {
        proof {
            lemma_function_statement_tree(*statement);
        }
        self.function_count = increment(self.function_count);
    }

    fn process_generic_for_statement(&mut self, statement: &GenericForStatement) {
        proof {
            lemma_generic_for_tree(*statement);
        }
        self.generic_for_count = increment(self.generic_for_count);
    }

    fn process_if_statement(&mut self, statement: &IfStatement) {
        proof {
            lemma_if_tree(*statement);
        }
        self.if_count = increment(self.if_count);
    }

    fn process_last_statement(&mut self, statement: &LastStatement) {
        proof {
            lemma_last_statement_tree(*statement);
        }
    }

    fn process_local_assign_statement(&mut self, statement: &LocalAssignStatement) {
        proof {
            lemma_local_assign_tree(*statement);
        }
        self.local_assign_count = increment(self.local_assign_count);
    }

    fn process_local_function_statement(&mut self, statement: &LocalFunctionStatement) {
        proof {
            lemma_local_function_tree(*statement);
        }
        self.local_function_count = increment(self.local_function_count);
    }

    fn process_numeric_for_statement(&mut self, statement: &NumericForStatement) {
        proof {
            lemma_numeric_for_tree(*statement);
        }
        self.numeric_for_count = increment(self.numeric_for_count);
    }

    fn process_repeat_statement(&mut self, statement: &RepeatStatement) {
        proof {
            lemma_repeat_tree(*statement);
        }
        self.repeat_count = increment(self.repeat_count);
    }

    fn process_while_statement(&mut self, statement: &WhileStatement) {
        proof {
            lemma_while_tree(*statement);
        }
        self.while_count = increment(self.while_count);
    }

    fn process_expression(&mut self, expression: &Expression) {
        proof {
            lemma_expression_tree(*expression);
        }
        self.expression_count = increment(self.expression_count);
    }

    fn process_binary_expression(&mut self, binary: &BinaryExpression) {
        proof {
            lemma_binary_tree(*binary);
        }
    }

    fn process_field_expression(&mut self, field: &FieldExpression) {
        proof {
            lemma_field_tree(*field);
        }
    }

    fn process_function_expression(&mut self, function: &FunctionExpression) {
        proof {
            lemma_function_expression_tree(*function);
        }
    }

    fn process_variable_expression(&mut self, variable: &Identifier) {
        self.variable_count = increment(self.variable_count);
    }

    fn process_index_expression(&mut self, index: &IndexExpression) {
        proof {
            lemma_index_tree(*index);
        }
    }

    fn process_number_expression(&mut self, number: &NumberExpression) {
    }

    fn process_prefix_expression(&mut self, prefix: &Prefix) {
        proof {
            lemma_prefix_tree(*prefix);
        }
    }

    fn process_parenthese_expression(&mut self, parenthese: &ParentheseExpression) {
        proof {
            lemma_parenthese_tree(*parenthese);
        }
    }

    fn process_string_expression(&mut self, string: &StringExpression) {
    }

    fn process_table_expression(&mut self, table: &TableExpression) {
        proof {
            lemma_table_tree(*table);
        }
    }

    fn process_unary_expression(&mut self, unary: &UnaryExpression) {
        proof {
            lemma_unary_tree(*unary);
        }
    }

    fn process_lux_expression(&mut self, lux: &LUXExpression) {
        proof {
            lemma_lux_expression_tree(*lux);
        }
    }

    fn process_lux_element(&mut self, element: &LUXElement) {
        proof {
            lemma_lux_element_tree(*element);
        }
    }

    fn process_lux_open_close_element(&mut self, element: &LUXOpenCloseElement) {
        proof {
            lemma_lux_open_close_tree(*element);
        }
    }

    fn process_lux_self_closing_element(&mut self, element: &LUXSelfClosingElement) {
        proof {
            lemma_lux_self_closing_tree(*element);
        }
    }

    fn process_lux_fragment(&mut self, fragment: &LUXFragment) {
        proof {
            lemma_lux_fragment_tree(*fragment);
        }
    }

    fn process_lux_child(&mut self, child: &LUXChild) {
        proof {
            lemma_lux_child_tree(*child);
        }
    }

    fn process_lux_attribute(&mut self, attribute: &LUXAttribute) {
        proof {
            lemma_lux_attribute_tree(*attribute);
        }
    }

    fn process_lux_attribute_value(&mut self, value: &LUXAttributeValue) {
        proof {
            lemma_lux_attribute_value_tree(*value);
        }
    }
}

} // verus!
