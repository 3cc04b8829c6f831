//! The model of each node, one level down.
use vstd::prelude::*;
use crate::nodes::block::Block;
use crate::nodes::expressions::{
    Arguments, BinaryExpression, Expression, FieldExpression, FunctionCall, FunctionExpression,
    IndexExpression, ParentheseExpression, Prefix, TableEntry, TableExpression, UnaryExpression,
};
use crate::nodes::local_assign::LocalAssignStatement;
use crate::nodes::lux::{
    LUXAttribute, LUXAttributeValue, LUXChild, LUXElement, LUXExpression, LUXFragment,
    LUXNamedAttribute, LUXOpenCloseElement, LUXSelfClosingElement,
};
use crate::nodes::model::{
    arguments_tree, assign_tree, binary_operator_number, binary_tree, block_tree, branch_tree,
    branch_trees, call_tree, do_tree, entry_tree, entry_trees, expression_tree, expression_trees,
    field_tree, flag, function_expression_tree, function_name_tree, function_statement_tree,
    generic_for_tree, if_tree, index_tree, last_statement_tree, list_tree, local_assign_tree,
    local_function_tree, lux_attribute_tree, lux_attribute_trees, lux_attribute_value_tree,
    lux_child_tree, lux_child_trees, lux_element_tree, lux_expression_tree, lux_fragment_tree,
    lux_named_attribute_tree, lux_open_close_tree, lux_self_closing_tree, numeric_for_tree,
    optional_block_tree, optional_expression_tree, optional_last_statement_tree,
    optional_lux_attribute_value_tree, optional_text, parenthese_tree, prefix_tree, repeat_tree, statement_tree,
    statement_trees, table_tree, texts_of, unary_operator_number, unary_tree, variable_tree,
    variable_trees, while_tree,
};
use crate::nodes::statements::{
    AssignStatement, DoStatement, FunctionStatement, GenericForStatement, IfBranch, IfStatement,
    LastStatement, LocalFunctionStatement, NumericForStatement, RepeatStatement, Statement,
    Variable, WhileStatement,
};
use crate::nodes::token::Identifier;
use crate::nodes::tree::{Kind, Tree};

verus! {

/// What `block_tree` is, one level down.
pub proof fn lemma_block_tree(block: Block)
    ensures
        block_tree(block) == ({
            Tree::node(
                Kind::Block,
                0,
                Seq::empty(),
                seq![
                    list_tree(statement_trees(block.statements@)),
                    optional_last_statement_tree(block.last_statement),
                ],
            )
        }),
{
    reveal(block_tree);
    reveal(optional_last_statement_tree);
    reveal(statement_trees);
}

/// What `last_statement_tree` is, one level down.
pub proof fn lemma_last_statement_tree(last: LastStatement)
    ensures
        last_statement_tree(last) == ({
            match last {
                LastStatement::Break => Tree::node(Kind::LastStatement, 0, Seq::empty(), Seq::empty()),
                LastStatement::Return(values) => Tree::node(
                    Kind::LastStatement,
                    1,
                    Seq::empty(),
                    seq![list_tree(expression_trees(values@))],
                ),
            }
        }),
{
    reveal(last_statement_tree);
    reveal(expression_trees);
}

/// What `statement_tree` is, one level down.
pub proof fn lemma_statement_tree(statement: Statement)
    ensures
        statement_tree(statement) == ({
            match statement {
                Statement::Assign(inner) => Tree::node(Kind::Statement, 0, Seq::empty(), seq![assign_tree(inner)]),
                Statement::Do(inner) => Tree::node(Kind::Statement, 1, Seq::empty(), seq![do_tree(inner)]),
                Statement::Call(inner) => Tree::node(Kind::Statement, 2, Seq::empty(), seq![call_tree(inner)]),
                Statement::Function(inner) => Tree::node(
                    Kind::Statement,
                    3,
                    Seq::empty(),
                    seq![function_statement_tree(inner)],
                ),
                Statement::GenericFor(inner) => Tree::node(
                    Kind::Statement,
                    4,
                    Seq::empty(),
                    seq![generic_for_tree(inner)],
                ),
                Statement::If(inner) => Tree::node(Kind::Statement, 5, Seq::empty(), seq![if_tree(inner)]),
                Statement::LocalAssign(inner) => Tree::node(
                    Kind::Statement,
                    6,
                    Seq::empty(),
                    seq![local_assign_tree(inner)],
                ),
                Statement::LocalFunction(inner) => Tree::node(
                    Kind::Statement,
                    7,
                    Seq::empty(),
                    seq![local_function_tree(inner)],
                ),
                Statement::NumericFor(inner) => Tree::node(
                    Kind::Statement,
                    8,
                    Seq::empty(),
                    seq![numeric_for_tree(inner)],
                ),
                Statement::Repeat(inner) => Tree::node(Kind::Statement, 9, Seq::empty(), seq![repeat_tree(inner)]),
                Statement::While(inner) => Tree::node(Kind::Statement, 10, Seq::empty(), seq![while_tree(inner)]),
            }
        }),
{
    reveal(statement_tree);
    reveal(assign_tree);
    reveal(call_tree);
    reveal(do_tree);
    reveal(function_statement_tree);
    reveal(generic_for_tree);
    reveal(if_tree);
    reveal(local_assign_tree);
    reveal(local_function_tree);
    reveal(numeric_for_tree);
    reveal(repeat_tree);
    reveal(while_tree);
}

/// What `assign_tree` is, one level down.
pub proof fn lemma_assign_tree(statement: AssignStatement)
    ensures
        assign_tree(statement) == ({
            Tree::node(
                Kind::Assign,
                0,
                Seq::empty(),
                seq![
                    list_tree(variable_trees(statement.variables@)),
                    list_tree(expression_trees(statement.values@)),
                ],
            )
        }),
{
    reveal(assign_tree);
    reveal(expression_trees);
    reveal(variable_trees);
}

/// What `variable_tree` is, one level down.
pub proof fn lemma_variable_tree(variable: Variable)
    ensures
        variable_tree(variable) == ({
            match variable {
                Variable::Identifier(identifier) => Tree::node(Kind::Variable, 0, Seq::empty(), seq![identifier@]),
                Variable::Field(field) => Tree::node(Kind::Variable, 1, Seq::empty(), seq![field_tree(field)]),
                Variable::Index(index) => Tree::node(Kind::Variable, 2, Seq::empty(), seq![index_tree(index)]),
            }
        }),
{
    reveal(variable_tree);
    reveal(field_tree);
    reveal(index_tree);
}

/// What `do_tree` is, one level down.
pub proof fn lemma_do_tree(statement: DoStatement)
    ensures
        do_tree(statement) == ({
            Tree::node(Kind::Do, 0, Seq::empty(), seq![block_tree(statement.block)])
        }),
{
    reveal(do_tree);
    reveal(block_tree);
}

/// What `call_tree` is, one level down.
pub proof fn lemma_call_tree(call: FunctionCall)
    ensures
        call_tree(call) == ({
            Tree::node(
                Kind::FunctionCall,
                flag(call.method is Some),
                optional_text(call.method),
                seq![prefix_tree(call.prefix), arguments_tree(call.arguments)],
            )
        }),
{
    reveal(call_tree);
    reveal(arguments_tree);
    reveal(prefix_tree);
}

/// What `function_statement_tree` is, one level down.
pub proof fn lemma_function_statement_tree(statement: FunctionStatement)
    ensures
        function_statement_tree(statement) == ({
            Tree::node(
                Kind::FunctionStatement,
                flag(statement.is_variadic),
                texts_of(statement.parameters@),
                seq![function_name_tree(statement.name), block_tree(statement.block)],
            )
        }),
{
    reveal(function_statement_tree);
    reveal(block_tree);
}

/// What `generic_for_tree` is, one level down.
pub proof fn lemma_generic_for_tree(statement: GenericForStatement)
    ensures
        generic_for_tree(statement) == ({
            Tree::node(
                Kind::GenericFor,
                0,
                texts_of(statement.identifiers@),
                seq![list_tree(expression_trees(statement.expressions@)), block_tree(statement.block)],
            )
        }),
{
    reveal(generic_for_tree);
    reveal(block_tree);
    reveal(expression_trees);
}

/// What `branch_tree` is, one level down.
pub proof fn lemma_branch_tree(branch: IfBranch)
    ensures
        branch_tree(branch) == ({
            Tree::node(
                Kind::IfBranch,
                0,
                Seq::empty(),
                seq![expression_tree(branch.condition), block_tree(branch.block)],
            )
        }),
{
    reveal(branch_tree);
    reveal(block_tree);
    reveal(expression_tree);
}

/// What `if_tree` is, one level down.
pub proof fn lemma_if_tree(statement: IfStatement)
    ensures
        if_tree(statement) == ({
            Tree::node(
                Kind::If,
                0,
                Seq::empty(),
                seq![
                    list_tree(branch_trees(statement.branches@)),
                    optional_block_tree(statement.else_block),
                ],
            )
        }),
{
    reveal(if_tree);
    reveal(branch_trees);
    reveal(optional_block_tree);
}

/// What `local_assign_tree` is, one level down.
pub proof fn lemma_local_assign_tree(statement: LocalAssignStatement)
    ensures
        local_assign_tree(statement) == ({
            Tree {
                kind: Kind::LocalAssign,
                variant: statement.variables@.len(),
                texts: Seq::empty(),
                details: statement.variables@.map_values(|variable: Identifier| variable@) + match statement.tokens {
                    Some(tokens) => seq![tokens@],
                    None => Seq::empty(),
                },
                children: seq![list_tree(expression_trees(statement.values@))],
            }
        }),
{
    reveal(local_assign_tree);
    reveal(expression_trees);
}

/// What `local_function_tree` is, one level down.
pub proof fn lemma_local_function_tree(statement: LocalFunctionStatement)
    ensures
        local_function_tree(statement) == ({
            Tree::node(
                Kind::LocalFunction,
                flag(statement.is_variadic),
                seq![statement.identifier@] + texts_of(statement.parameters@),
                seq![block_tree(statement.block)],
            )
        }),
{
    reveal(local_function_tree);
    reveal(block_tree);
}

/// What `numeric_for_tree` is, one level down.
pub proof fn lemma_numeric_for_tree(statement: NumericForStatement)
    ensures
        numeric_for_tree(statement) == ({
            Tree::node(
                Kind::NumericFor,
                0,
                seq![statement.identifier@],
                seq![
                    expression_tree(statement.start),
                    expression_tree(statement.end),
                    optional_expression_tree(statement.step),
                    block_tree(statement.block),
                ],
            )
        }),
{
    reveal(numeric_for_tree);
    reveal(block_tree);
    reveal(expression_tree);
    reveal(optional_expression_tree);
}

/// What `repeat_tree` is, one level down.
pub proof fn lemma_repeat_tree(statement: RepeatStatement)
    ensures
        repeat_tree(statement) == ({
            Tree::node(
                Kind::Repeat,
                0,
                Seq::empty(),
                seq![expression_tree(statement.condition), block_tree(statement.block)],
            )
        }),
{
    reveal(repeat_tree);
    reveal(block_tree);
    reveal(expression_tree);
}

/// What `while_tree` is, one level down.
pub proof fn lemma_while_tree(statement: WhileStatement)
    ensures
        while_tree(statement) == ({
            Tree::node(
                Kind::While,
                0,
                Seq::empty(),
                seq![expression_tree(statement.condition), block_tree(statement.block)],
            )
        }),
{
    reveal(while_tree);
    reveal(block_tree);
    reveal(expression_tree);
}

/// What `expression_tree` is, one level down.
pub proof fn lemma_expression_tree(expression: Expression)
    ensures
        expression_tree(expression) == ({
            match expression {
                Expression::Nil => Tree::node(Kind::Expression, 0, Seq::empty(), Seq::empty()),
                Expression::True => Tree::node(Kind::Expression, 1, Seq::empty(), Seq::empty()),
                Expression::False => Tree::node(Kind::Expression, 2, Seq::empty(), Seq::empty()),
                Expression::VariableArguments => Tree::node(Kind::Expression, 3, Seq::empty(), Seq::empty()),
                Expression::Number(number) => Tree::node(Kind::Expression, 4, Seq::empty(), seq![number@]),
                Expression::String(string) => Tree::node(Kind::Expression, 5, Seq::empty(), seq![string@]),
                Expression::Identifier(identifier) => Tree::node(
                    Kind::Expression,
                    6,
                    Seq::empty(),
                    seq![identifier@],
                ),
                Expression::Binary(binary) => Tree::node(Kind::Expression, 7, Seq::empty(), seq![binary_tree(*binary)]),
                Expression::Unary(unary) => Tree::node(Kind::Expression, 8, Seq::empty(), seq![unary_tree(*unary)]),
                Expression::Parenthese(inner) => Tree::node(
                    Kind::Expression,
                    9,
                    Seq::empty(),
                    seq![parenthese_tree(*inner)],
                ),
                Expression::Function(function) => Tree::node(
                    Kind::Expression,
                    10,
                    Seq::empty(),
                    seq![function_expression_tree(function)],
                ),
                Expression::Call(call) => Tree::node(Kind::Expression, 11, Seq::empty(), seq![call_tree(*call)]),
                Expression::Field(field) => Tree::node(Kind::Expression, 12, Seq::empty(), seq![field_tree(*field)]),
                Expression::Index(index) => Tree::node(Kind::Expression, 13, Seq::empty(), seq![index_tree(*index)]),
                Expression::Table(table) => Tree::node(Kind::Expression, 14, Seq::empty(), seq![table_tree(table)]),
                Expression::LUX(lux) => Tree::node(
                    Kind::Expression,
                    15,
                    Seq::empty(),
                    seq![lux_expression_tree(*lux)],
                ),
            }
        }),
{
    reveal(expression_tree);
    reveal(binary_tree);
    reveal(call_tree);
    reveal(field_tree);
    reveal(function_expression_tree);
    reveal(index_tree);
    reveal(lux_expression_tree);
    reveal(parenthese_tree);
    reveal(table_tree);
    reveal(unary_tree);
}

/// What `binary_tree` is, one level down.
pub proof fn lemma_binary_tree(binary: BinaryExpression)
    ensures
        binary_tree(binary) == ({
            Tree::node(
                Kind::Binary,
                binary_operator_number(binary.operator),
                Seq::empty(),
                seq![expression_tree(binary.left), expression_tree(binary.right)],
            )
        }),
{
    reveal(binary_tree);
    reveal(expression_tree);
}

/// What `unary_tree` is, one level down.
pub proof fn lemma_unary_tree(unary: UnaryExpression)
    ensures
        unary_tree(unary) == ({
            Tree::node(
                Kind::Unary,
                unary_operator_number(unary.operator),
                Seq::empty(),
                seq![expression_tree(unary.expression)],
            )
        }),
{
    reveal(unary_tree);
    reveal(expression_tree);
}

/// What `parenthese_tree` is, one level down.
pub proof fn lemma_parenthese_tree(parenthese: ParentheseExpression)
    ensures
        parenthese_tree(parenthese) == ({
            Tree::node(Kind::Parenthese, 0, Seq::empty(), seq![expression_tree(parenthese.expression)])
        }),
{
    reveal(parenthese_tree);
    reveal(expression_tree);
}

/// What `field_tree` is, one level down.
pub proof fn lemma_field_tree(field: FieldExpression)
    ensures
        field_tree(field) == ({
            Tree::node(Kind::Field, 0, seq![field.field@], seq![prefix_tree(field.prefix)])
        }),
{
    reveal(field_tree);
    reveal(prefix_tree);
}

/// What `index_tree` is, one level down.
pub proof fn lemma_index_tree(index: IndexExpression)
    ensures
        index_tree(index) == ({
            Tree::node(
                Kind::Index,
                0,
                Seq::empty(),
                seq![prefix_tree(index.prefix), expression_tree(index.index)],
            )
        }),
{
    reveal(index_tree);
    reveal(expression_tree);
    reveal(prefix_tree);
}

/// What `entry_tree` is, one level down.
pub proof fn lemma_entry_tree(entry: TableEntry)
    ensures
        entry_tree(entry) == ({
            match entry {
                TableEntry::Field(name, value) => Tree::node(
                    Kind::TableEntry,
                    0,
                    seq![name@],
                    seq![expression_tree(value)],
                ),
                TableEntry::Index(key, value) => Tree::node(
                    Kind::TableEntry,
                    1,
                    Seq::empty(),
                    seq![expression_tree(key), expression_tree(value)],
                ),
                TableEntry::Value(value) => Tree::node(Kind::TableEntry, 2, Seq::empty(), seq![expression_tree(value)]),
            }
        }),
{
    reveal(entry_tree);
    reveal(expression_tree);
}

/// What `table_tree` is, one level down.
pub proof fn lemma_table_tree(table: TableExpression)
    ensures
        table_tree(table) == ({
            Tree::node(Kind::Table, 0, Seq::empty(), seq![list_tree(entry_trees(table.entries@))])
        }),
{
    reveal(table_tree);
    reveal(entry_trees);
}

/// What `function_expression_tree` is, one level down.
pub proof fn lemma_function_expression_tree(function: FunctionExpression)
    ensures
        function_expression_tree(function) == ({
            Tree::node(
                Kind::FunctionExpression,
                flag(function.is_variadic),
                texts_of(function.parameters@),
                seq![block_tree(function.block)],
            )
        }),
{
    reveal(function_expression_tree);
    reveal(block_tree);
}

/// What `prefix_tree` is, one level down.
pub proof fn lemma_prefix_tree(prefix: Prefix)
    ensures
        prefix_tree(prefix) == ({
            match prefix {
                Prefix::Call(call) => Tree::node(Kind::Prefix, 0, Seq::empty(), seq![call_tree(*call)]),
                Prefix::Field(field) => Tree::node(Kind::Prefix, 1, Seq::empty(), seq![field_tree(*field)]),
                Prefix::Identifier(identifier) => Tree::node(Kind::Prefix, 2, Seq::empty(), seq![identifier@]),
                Prefix::Index(index) => Tree::node(Kind::Prefix, 3, Seq::empty(), seq![index_tree(*index)]),
                Prefix::Parenthese(inner) => Tree::node(Kind::Prefix, 4, Seq::empty(), seq![parenthese_tree(*inner)]),
            }
        }),
{
    reveal(prefix_tree);
    reveal(call_tree);
    reveal(field_tree);
    reveal(index_tree);
    reveal(parenthese_tree);
}

/// What `arguments_tree` is, one level down.
pub proof fn lemma_arguments_tree(arguments: Arguments)
    ensures
        arguments_tree(arguments) == ({
            match arguments {
                Arguments::Tuple(values) => Tree::node(
                    Kind::Arguments,
                    0,
                    Seq::empty(),
                    seq![list_tree(expression_trees(values@))],
                ),
                Arguments::String(string) => Tree::node(Kind::Arguments, 1, Seq::empty(), seq![string@]),
                Arguments::Table(table) => Tree::node(Kind::Arguments, 2, Seq::empty(), seq![table_tree(table)]),
            }
        }),
{
    reveal(arguments_tree);
    reveal(expression_trees);
    reveal(table_tree);
}

/// What `lux_expression_tree` is, one level down.
pub proof fn lemma_lux_expression_tree(lux: LUXExpression)
    ensures
        lux_expression_tree(lux) == ({
            match lux {
                LUXExpression::LUXElement(element) => Tree::node(
                    Kind::LuxExpression,
                    0,
                    Seq::empty(),
                    seq![lux_element_tree(element)],
                ),
                LUXExpression::LUXFragment(fragment) => Tree::node(
                    Kind::LuxExpression,
                    1,
                    Seq::empty(),
                    seq![lux_fragment_tree(fragment)],
                ),
            }
        }),
{
    reveal(lux_expression_tree);
    reveal(lux_element_tree);
    reveal(lux_fragment_tree);
}

/// What `lux_element_tree` is, one level down.
pub proof fn lemma_lux_element_tree(element: LUXElement)
    ensures
        lux_element_tree(element) == ({
            match element {
                LUXElement::Element(inner) => Tree::node(
                    Kind::LuxElement,
                    0,
                    Seq::empty(),
                    seq![lux_open_close_tree(inner)],
                ),
                LUXElement::SelfClosingElement(inner) => Tree::node(
                    Kind::LuxElement,
                    1,
                    Seq::empty(),
                    seq![lux_self_closing_tree(inner)],
                ),
            }
        }),
{
    reveal(lux_element_tree);
    reveal(lux_open_close_tree);
    reveal(lux_self_closing_tree);
}

/// What `lux_open_close_tree` is, one level down.
pub proof fn lemma_lux_open_close_tree(element: LUXOpenCloseElement)
    ensures
        lux_open_close_tree(element) == ({
            Tree::node(
                Kind::LuxOpenCloseElement,
                0,
                seq![element.name@],
                seq![
                    list_tree(lux_attribute_trees(element.attributes@)),
                    list_tree(lux_child_trees(element.children@)),
                ],
            )
        }),
{
    reveal(lux_open_close_tree);
    reveal(lux_attribute_trees);
    reveal(lux_child_trees);
}

/// What `lux_self_closing_tree` is, one level down.
pub proof fn lemma_lux_self_closing_tree(element: LUXSelfClosingElement)
    ensures
        lux_self_closing_tree(element) == ({
            Tree::node(
                Kind::LuxSelfClosingElement,
                0,
                seq![element.name@],
                seq![list_tree(lux_attribute_trees(element.attributes@))],
            )
        }),
{
    reveal(lux_self_closing_tree);
    reveal(lux_attribute_trees);
}

/// What `lux_fragment_tree` is, one level down.
pub proof fn lemma_lux_fragment_tree(fragment: LUXFragment)
    ensures
        lux_fragment_tree(fragment) == ({
            Tree::node(Kind::LuxFragment, 0, Seq::empty(), seq![list_tree(lux_child_trees(fragment.children@))])
        }),
{
    reveal(lux_fragment_tree);
    reveal(lux_child_trees);
}

/// What `lux_child_tree` is, one level down.
pub proof fn lemma_lux_child_tree(child: LUXChild)
    ensures
        lux_child_tree(child) == ({
            match child {
                LUXChild::LUXElement(element) => Tree::node(
                    Kind::LuxChild,
                    0,
                    Seq::empty(),
                    seq![lux_element_tree(element)],
                ),
                LUXChild::LUXFragment(fragment) => Tree::node(
                    Kind::LuxChild,
                    1,
                    Seq::empty(),
                    seq![lux_fragment_tree(fragment)],
                ),
                LUXChild::Expression(Some(expression)) => Tree::node(
                    Kind::LuxChild,
                    2,
                    Seq::empty(),
                    seq![expression_tree(expression)],
                ),
                LUXChild::Expression(None) => Tree::node(Kind::LuxChild, 3, Seq::empty(), Seq::empty()),
                LUXChild::ExpandedExpression(expression) => Tree::node(
                    Kind::LuxChild,
                    4,
                    Seq::empty(),
                    seq![expression_tree(expression)],
                ),
            }
        }),
{
    reveal(lux_child_tree);
    reveal(expression_tree);
    reveal(lux_element_tree);
    reveal(lux_fragment_tree);
}

/// What `lux_attribute_tree` is, one level down.
pub proof fn lemma_lux_attribute_tree(attribute: LUXAttribute)
    ensures
        lux_attribute_tree(attribute) == ({
            match attribute {
                LUXAttribute::Named(named) => Tree::node(
                    Kind::LuxAttribute,
                    0,
                    Seq::empty(),
                    seq![lux_named_attribute_tree(named)],
                ),
                LUXAttribute::Spread(expression) => Tree::node(
                    Kind::LuxAttribute,
                    1,
                    Seq::empty(),
                    seq![expression_tree(expression)],
                ),
            }
        }),
{
    reveal(lux_attribute_tree);
    reveal(expression_tree);
    reveal(lux_named_attribute_tree);
}

/// What `lux_named_attribute_tree` is, one level down.
pub proof fn lemma_lux_named_attribute_tree(named: LUXNamedAttribute)
    ensures
        lux_named_attribute_tree(named) == ({
            Tree::node(
                Kind::LuxNamedAttribute,
                0,
                seq![named.name@],
                seq![optional_lux_attribute_value_tree(named.value)],
            )
        }),
{
    reveal(lux_named_attribute_tree);
    reveal(optional_lux_attribute_value_tree);
}

/// What `lux_attribute_value_tree` is, one level down.
pub proof fn lemma_lux_attribute_value_tree(value: LUXAttributeValue)
    ensures
        lux_attribute_value_tree(value) == ({
            match value {
                LUXAttributeValue::DoubleQuoteString(text) => Tree::node(
                    Kind::LuxAttributeValue,
                    0,
                    seq![text@],
                    Seq::empty(),
                ),
                LUXAttributeValue::SingleQuoteString(text) => Tree::node(
                    Kind::LuxAttributeValue,
                    1,
                    seq![text@],
                    Seq::empty(),
                ),
                LUXAttributeValue::LuaExpression(expression) => Tree::node(
                    Kind::LuxAttributeValue,
                    2,
                    Seq::empty(),
                    seq![expression_tree(expression)],
                ),
                LUXAttributeValue::LUXElement(element) => Tree::node(
                    Kind::LuxAttributeValue,
                    3,
                    Seq::empty(),
                    seq![lux_element_tree(element)],
                ),
                LUXAttributeValue::LUXFragment(fragment) => Tree::node(
                    Kind::LuxAttributeValue,
                    4,
                    Seq::empty(),
                    seq![lux_fragment_tree(fragment)],
                ),
            }
        }),
{
    reveal(lux_attribute_value_tree);
    reveal(expression_tree);
    reveal(lux_element_tree);
    reveal(lux_fragment_tree);
}

/// What `statement_trees` is: the model of each item, in its place.
#[verifier::spinoff_prover]
pub proof fn lemma_statement_trees(list: Seq<Statement>)
    ensures
        statement_trees(list).len() == list.len(),
        forall|i: int| 0 <= i < list.len() ==> (#[trigger] statement_trees(list)[i]) == statement_tree(list[i]),
{
    reveal(statement_trees);
    assert forall|i: int| 0 <= i < list.len() implies (#[trigger] statement_trees(list)[i]) == statement_tree(list[i]) by {
        reveal(statement_tree);
    }
}

/// What `expression_trees` is: the model of each item, in its place.
#[verifier::spinoff_prover]
pub proof fn lemma_expression_trees(list: Seq<Expression>)
    ensures
        expression_trees(list).len() == list.len(),
        forall|i: int| 0 <= i < list.len() ==> (#[trigger] expression_trees(list)[i]) == expression_tree(list[i]),
{
    reveal(expression_trees);
    assert forall|i: int| 0 <= i < list.len() implies (#[trigger] expression_trees(list)[i]) == expression_tree(list[i]) by {
        reveal(expression_tree);
    }
}

/// What `variable_trees` is: the model of each item, in its place.
#[verifier::spinoff_prover]
pub proof fn lemma_variable_trees(list: Seq<Variable>)
    ensures
        variable_trees(list).len() == list.len(),
        forall|i: int| 0 <= i < list.len() ==> (#[trigger] variable_trees(list)[i]) == variable_tree(list[i]),
{
    reveal(variable_trees);
    assert forall|i: int| 0 <= i < list.len() implies (#[trigger] variable_trees(list)[i]) == variable_tree(list[i]) by {
        reveal(variable_tree);
    }
}

/// What `branch_trees` is: the model of each item, in its place.
#[verifier::spinoff_prover]
pub proof fn lemma_branch_trees(list: Seq<IfBranch>)
    ensures
        branch_trees(list).len() == list.len(),
        forall|i: int| 0 <= i < list.len() ==> (#[trigger] branch_trees(list)[i]) == branch_tree(list[i]),
{
    reveal(branch_trees);
    assert forall|i: int| 0 <= i < list.len() implies (#[trigger] branch_trees(list)[i]) == branch_tree(list[i]) by {
        reveal(branch_tree);
    }
}

/// What `entry_trees` is: the model of each item, in its place.
#[verifier::spinoff_prover]
pub proof fn lemma_entry_trees(list: Seq<TableEntry>)
    ensures
        entry_trees(list).len() == list.len(),
        forall|i: int| 0 <= i < list.len() ==> (#[trigger] entry_trees(list)[i]) == entry_tree(list[i]),
{
    reveal(entry_trees);
    assert forall|i: int| 0 <= i < list.len() implies (#[trigger] entry_trees(list)[i]) == entry_tree(list[i]) by {
        reveal(entry_tree);
    }
}

/// What `lux_attribute_trees` is: the model of each item, in its place.
#[verifier::spinoff_prover]
pub proof fn lemma_lux_attribute_trees(list: Seq<LUXAttribute>)
    ensures
        lux_attribute_trees(list).len() == list.len(),
        forall|i: int| 0 <= i < list.len() ==> (#[trigger] lux_attribute_trees(list)[i]) == lux_attribute_tree(list[i]),
{
    reveal(lux_attribute_trees);
    assert forall|i: int| 0 <= i < list.len() implies (#[trigger] lux_attribute_trees(list)[i]) == lux_attribute_tree(list[i]) by {
        reveal(lux_attribute_tree);
    }
}

/// What `lux_child_trees` is: the model of each item, in its place.
#[verifier::spinoff_prover]
pub proof fn lemma_lux_child_trees(list: Seq<LUXChild>)
    ensures
        lux_child_trees(list).len() == list.len(),
        forall|i: int| 0 <= i < list.len() ==> (#[trigger] lux_child_trees(list)[i]) == lux_child_tree(list[i]),
{
    reveal(lux_child_trees);
    assert forall|i: int| 0 <= i < list.len() implies (#[trigger] lux_child_trees(list)[i]) == lux_child_tree(list[i]) by {
        reveal(lux_child_tree);
    }
}

/// What `optional_last_statement_tree` is, one level down.
pub proof fn lemma_optional_last_statement_tree(part: Option<LastStatement>)
    ensures
        optional_last_statement_tree(part) == ({
            match part {
                Some(part) => Tree::node(Kind::Optional, 1, Seq::empty(), seq![last_statement_tree(part)]),
                None => Tree::node(Kind::Optional, 0, Seq::empty(), Seq::empty()),
            }
        }),
{
    reveal(optional_last_statement_tree);
    reveal(last_statement_tree);
}

/// What `optional_block_tree` is, one level down.
pub proof fn lemma_optional_block_tree(part: Option<Block>)
    ensures
        optional_block_tree(part) == ({
            match part {
                Some(part) => Tree::node(Kind::Optional, 1, Seq::empty(), seq![block_tree(part)]),
                None => Tree::node(Kind::Optional, 0, Seq::empty(), Seq::empty()),
            }
        }),
{
    reveal(optional_block_tree);
    reveal(block_tree);
}

/// What `optional_expression_tree` is, one level down.
pub proof fn lemma_optional_expression_tree(part: Option<Expression>)
    ensures
        optional_expression_tree(part) == ({
            match part {
                Some(part) => Tree::node(Kind::Optional, 1, Seq::empty(), seq![expression_tree(part)]),
                None => Tree::node(Kind::Optional, 0, Seq::empty(), Seq::empty()),
            }
        }),
{
    reveal(optional_expression_tree);
    reveal(expression_tree);
}

/// What `optional_lux_attribute_value_tree` is, one level down.
pub proof fn lemma_optional_lux_attribute_value_tree(part: Option<LUXAttributeValue>)
    ensures
        optional_lux_attribute_value_tree(part) == ({
            match part {
                Some(part) => Tree::node(Kind::Optional, 1, Seq::empty(), seq![lux_attribute_value_tree(part)]),
                None => Tree::node(Kind::Optional, 0, Seq::empty(), Seq::empty()),
            }
        }),
{
    reveal(optional_lux_attribute_value_tree);
    reveal(lux_attribute_value_tree);
}

} // verus!
