//! The model of each node: which tree it stands for.
//!
//! Two nodes with the same model are the same piece of program, trivia
//! included. The children of a model are the parts that a walker visits, in
//! the order of the visit; a list of nodes and a part that may be absent
//! each stand under a node of their own.
use vstd::prelude::*;
use crate::nodes::block::Block;
use crate::nodes::expressions::{
    Arguments, BinaryExpression, BinaryOperator, Expression, FieldExpression, FunctionCall,
    FunctionExpression, IndexExpression, NumberExpression, ParentheseExpression, Prefix,
    StringExpression, TableEntry, TableExpression, UnaryExpression, UnaryOperator,
};
use crate::nodes::local_assign::{LocalAssignStatement, LocalAssignTokens};
use crate::nodes::lux::{
    LUXAttribute, LUXAttributeValue, LUXChild, LUXElement, LUXExpression, LUXFragment,
    LUXNamedAttribute, LUXOpenCloseElement, LUXSelfClosingElement,
};
use crate::nodes::statements::{
    AssignStatement, DoStatement, FunctionName, FunctionStatement, GenericForStatement, IfBranch,
    IfStatement, LastStatement, LocalFunctionStatement, NumericForStatement, RepeatStatement,
    Statement, Variable, WhileStatement,
};
use crate::nodes::token::{Identifier, Token};
use crate::nodes::tree::{Kind, Tree};

verus! {

/// The contents of a list of strings.
pub open spec fn texts_of(list: Seq<String>) -> Seq<Seq<char>> {
    list.map_values(|text: String| text@)
}

/// The content of a string that may be absent.
pub open spec fn optional_text(text: Option<String>) -> Seq<Seq<char>> {
    match text {
        Some(text) => seq![text@],
        None => Seq::empty(),
    }
}

/// 1 where the flag is set, 0 where it is not.
pub open spec fn flag(set: bool) -> nat {
    if set {
        1
    } else {
        0
    }
}

/// The model of a list: a node that holds the models of the items, in their order.
pub open spec fn list_tree(items: Seq<Tree>) -> Tree {
    Tree::node(Kind::List, 0, Seq::empty(), items)
}

pub open spec fn binary_operator_number(operator: BinaryOperator) -> nat {
    match operator {
        BinaryOperator::And => 0,
        BinaryOperator::Or => 1,
        BinaryOperator::Equal => 2,
        BinaryOperator::NotEqual => 3,
        BinaryOperator::LowerThan => 4,
        BinaryOperator::LowerOrEqualThan => 5,
        BinaryOperator::GreaterThan => 6,
        BinaryOperator::GreaterOrEqualThan => 7,
        BinaryOperator::Plus => 8,
        BinaryOperator::Minus => 9,
        BinaryOperator::Asterisk => 10,
        BinaryOperator::Slash => 11,
        BinaryOperator::Percent => 12,
        BinaryOperator::Caret => 13,
        BinaryOperator::Concat => 14,
    }
}

pub open spec fn unary_operator_number(operator: UnaryOperator) -> nat {
    match operator {
        UnaryOperator::Length => 0,
        UnaryOperator::Minus => 1,
        UnaryOperator::Not => 2,
    }
}

#[verifier::opaque]
pub open spec fn block_tree(block: Block) -> Tree
    decreases block,
{
    Tree::node(
        Kind::Block,
        0,
        Seq::empty(),
        seq![
            list_tree(statement_trees(block.statements@)),
            optional_last_statement_tree(block.last_statement),
        ],
    )
}

#[verifier::opaque]
pub open spec fn last_statement_tree(last: LastStatement) -> Tree
    decreases last,
{
    match last {
        LastStatement::Break => Tree::node(Kind::LastStatement, 0, Seq::empty(), Seq::empty()),
        LastStatement::Return(values) => Tree::node(
            Kind::LastStatement,
            1,
            Seq::empty(),
            seq![list_tree(expression_trees(values@))],
        ),
    }
}

#[verifier::opaque]
pub open spec fn statement_tree(statement: Statement) -> Tree
    decreases statement,
{
    match statement {
        Statement::Assign(inner) => Tree::node(Kind::Statement, 0, Seq::empty(), seq![assign_tree(inner)]),
        Statement::Do(inner) => Tree::node(Kind::Statement, 1, Seq::empty(), seq![do_tree(inner)]),
        Statement::Call(inner) => Tree::node(Kind::Statement, 2, Seq::empty(), seq![call_tree(inner)]),
        Statement::Function(inner) => Tree::node(
            Kind::Statement,
            3,
            Seq::empty(),
            seq![function_statement_tree(inner)],
        ),
        Statement::GenericFor(inner) => Tree::node(
            Kind::Statement,
            4,
            Seq::empty(),
            seq![generic_for_tree(inner)],
        ),
        Statement::If(inner) => Tree::node(Kind::Statement, 5, Seq::empty(), seq![if_tree(inner)]),
        Statement::LocalAssign(inner) => Tree::node(
            Kind::Statement,
            6,
            Seq::empty(),
            seq![local_assign_tree(inner)],
        ),
        Statement::LocalFunction(inner) => Tree::node(
            Kind::Statement,
            7,
            Seq::empty(),
            seq![local_function_tree(inner)],
        ),
        Statement::NumericFor(inner) => Tree::node(
            Kind::Statement,
            8,
            Seq::empty(),
            seq![numeric_for_tree(inner)],
        ),
        Statement::Repeat(inner) => Tree::node(Kind::Statement, 9, Seq::empty(), seq![repeat_tree(inner)]),
        Statement::While(inner) => Tree::node(Kind::Statement, 10, Seq::empty(), seq![while_tree(inner)]),
    }
}

#[verifier::opaque]
pub open spec fn assign_tree(statement: AssignStatement) -> Tree
    decreases statement,
{
    Tree::node(
        Kind::Assign,
        0,
        Seq::empty(),
        seq![
            list_tree(variable_trees(statement.variables@)),
            list_tree(expression_trees(statement.values@)),
        ],
    )
}

#[verifier::opaque]
pub open spec fn variable_tree(variable: Variable) -> Tree
    decreases variable,
{
    match variable {
        Variable::Identifier(identifier) => Tree::node(Kind::Variable, 0, Seq::empty(), seq![identifier@]),
        Variable::Field(field) => Tree::node(Kind::Variable, 1, Seq::empty(), seq![field_tree(field)]),
        Variable::Index(index) => Tree::node(Kind::Variable, 2, Seq::empty(), seq![index_tree(index)]),
    }
}

#[verifier::opaque]
pub open spec fn do_tree(statement: DoStatement) -> Tree
    decreases statement,
{
    Tree::node(Kind::Do, 0, Seq::empty(), seq![block_tree(statement.block)])
}

#[verifier::opaque]
pub open spec fn call_tree(call: FunctionCall) -> Tree
    decreases call,
{
    Tree::node(
        Kind::FunctionCall,
        flag(call.method is Some),
        optional_text(call.method),
        seq![prefix_tree(call.prefix), arguments_tree(call.arguments)],
    )
}

pub open spec fn function_name_tree(name: FunctionName) -> Tree {
    Tree::node(
        Kind::FunctionName,
        flag(name.method is Some),
        texts_of(name.field_names@) + optional_text(name.method),
        seq![name.name@],
    )
}

#[verifier::opaque]
pub open spec fn function_statement_tree(statement: FunctionStatement) -> Tree
    decreases statement,
{
    Tree::node(
        Kind::FunctionStatement,
        flag(statement.is_variadic),
        texts_of(statement.parameters@),
        seq![function_name_tree(statement.name), block_tree(statement.block)],
    )
}

#[verifier::opaque]
pub open spec fn generic_for_tree(statement: GenericForStatement) -> Tree
    decreases statement,
{
    Tree::node(
        Kind::GenericFor,
        0,
        texts_of(statement.identifiers@),
        seq![list_tree(expression_trees(statement.expressions@)), block_tree(statement.block)],
    )
}

#[verifier::opaque]
pub open spec fn branch_tree(branch: IfBranch) -> Tree
    decreases branch,
{
    Tree::node(
        Kind::IfBranch,
        0,
        Seq::empty(),
        seq![expression_tree(branch.condition), block_tree(branch.block)],
    )
}

#[verifier::opaque]
pub open spec fn if_tree(statement: IfStatement) -> Tree
    decreases statement,
{
    Tree::node(
        Kind::If,
        0,
        Seq::empty(),
        seq![
            list_tree(branch_trees(statement.branches@)),
            optional_block_tree(statement.else_block),
        ],
    )
}

#[verifier::opaque]
pub open spec fn local_assign_tree(statement: LocalAssignStatement) -> Tree
    decreases statement,
{
    Tree {
        kind: Kind::LocalAssign,
        variant: statement.variables@.len(),
        texts: Seq::empty(),
        details: statement.variables@.map_values(|variable: Identifier| variable@) + match statement.tokens {
            Some(tokens) => seq![tokens@],
            None => Seq::empty(),
        },
        children: seq![list_tree(expression_trees(statement.values@))],
    }
}

#[verifier::opaque]
pub open spec fn local_function_tree(statement: LocalFunctionStatement) -> Tree
    decreases statement,
{
    Tree::node(
        Kind::LocalFunction,
        flag(statement.is_variadic),
        seq![statement.identifier@] + texts_of(statement.parameters@),
        seq![block_tree(statement.block)],
    )
}

#[verifier::opaque]
pub open spec fn numeric_for_tree(statement: NumericForStatement) -> Tree
    decreases statement,
{
    Tree::node(
        Kind::NumericFor,
        0,
        seq![statement.identifier@],
        seq![
            expression_tree(statement.start),
            expression_tree(statement.end),
            optional_expression_tree(statement.step),
            block_tree(statement.block),
        ],
    )
}

#[verifier::opaque]
pub open spec fn repeat_tree(statement: RepeatStatement) -> Tree
    decreases statement,
{
    Tree::node(
        Kind::Repeat,
        0,
        Seq::empty(),
        seq![expression_tree(statement.condition), block_tree(statement.block)],
    )
}

#[verifier::opaque]
pub open spec fn while_tree(statement: WhileStatement) -> Tree
    decreases statement,
{
    Tree::node(
        Kind::While,
        0,
        Seq::empty(),
        seq![expression_tree(statement.condition), block_tree(statement.block)],
    )
}

#[verifier::opaque]
pub open spec fn expression_tree(expression: Expression) -> Tree
    decreases expression,
{
    match expression {
        Expression::Nil => Tree::node(Kind::Expression, 0, Seq::empty(), Seq::empty()),
        Expression::True => Tree::node(Kind::Expression, 1, Seq::empty(), Seq::empty()),
        Expression::False => Tree::node(Kind::Expression, 2, Seq::empty(), Seq::empty()),
        Expression::VariableArguments => Tree::node(Kind::Expression, 3, Seq::empty(), Seq::empty()),
        Expression::Number(number) => Tree::node(Kind::Expression, 4, Seq::empty(), seq![number@]),
        Expression::String(string) => Tree::node(Kind::Expression, 5, Seq::empty(), seq![string@]),
        Expression::Identifier(identifier) => Tree::node(
            Kind::Expression,
            6,
            Seq::empty(),
            seq![identifier@],
        ),
        Expression::Binary(binary) => Tree::node(Kind::Expression, 7, Seq::empty(), seq![binary_tree(*binary)]),
        Expression::Unary(unary) => Tree::node(Kind::Expression, 8, Seq::empty(), seq![unary_tree(*unary)]),
        Expression::Parenthese(inner) => Tree::node(
            Kind::Expression,
            9,
            Seq::empty(),
            seq![parenthese_tree(*inner)],
        ),
        Expression::Function(function) => Tree::node(
            Kind::Expression,
            10,
            Seq::empty(),
            seq![function_expression_tree(function)],
        ),
        Expression::Call(call) => Tree::node(Kind::Expression, 11, Seq::empty(), seq![call_tree(*call)]),
        Expression::Field(field) => Tree::node(Kind::Expression, 12, Seq::empty(), seq![field_tree(*field)]),
        Expression::Index(index) => Tree::node(Kind::Expression, 13, Seq::empty(), seq![index_tree(*index)]),
        Expression::Table(table) => Tree::node(Kind::Expression, 14, Seq::empty(), seq![table_tree(table)]),
        Expression::LUX(lux) => Tree::node(
            Kind::Expression,
            15,
            Seq::empty(),
            seq![lux_expression_tree(*lux)],
        ),
    }
}

#[verifier::opaque]
pub open spec fn binary_tree(binary: BinaryExpression) -> Tree
    decreases binary,
{
    Tree::node(
        Kind::Binary,
        binary_operator_number(binary.operator),
        Seq::empty(),
        seq![expression_tree(binary.left), expression_tree(binary.right)],
    )
}

#[verifier::opaque]
pub open spec fn unary_tree(unary: UnaryExpression) -> Tree
    decreases unary,
{
    Tree::node(
        Kind::Unary,
        unary_operator_number(unary.operator),
        Seq::empty(),
        seq![expression_tree(unary.expression)],
    )
}

#[verifier::opaque]
pub open spec fn parenthese_tree(parenthese: ParentheseExpression) -> Tree
    decreases parenthese,
{
    Tree::node(Kind::Parenthese, 0, Seq::empty(), seq![expression_tree(parenthese.expression)])
}

#[verifier::opaque]
pub open spec fn field_tree(field: FieldExpression) -> Tree
    decreases field,
{
    Tree::node(Kind::Field, 0, seq![field.field@], seq![prefix_tree(field.prefix)])
}

#[verifier::opaque]
pub open spec fn index_tree(index: IndexExpression) -> Tree
    decreases index,
{
    Tree::node(
        Kind::Index,
        0,
        Seq::empty(),
        seq![prefix_tree(index.prefix), expression_tree(index.index)],
    )
}

#[verifier::opaque]
pub open spec fn entry_tree(entry: TableEntry) -> Tree
    decreases entry,
{
    match entry {
        TableEntry::Field(name, value) => Tree::node(
            Kind::TableEntry,
            0,
            seq![name@],
            seq![expression_tree(value)],
        ),
        TableEntry::Index(key, value) => Tree::node(
            Kind::TableEntry,
            1,
            Seq::empty(),
            seq![expression_tree(key), expression_tree(value)],
        ),
        TableEntry::Value(value) => Tree::node(Kind::TableEntry, 2, Seq::empty(), seq![expression_tree(value)]),
    }
}

#[verifier::opaque]
pub open spec fn table_tree(table: TableExpression) -> Tree
    decreases table,
{
    Tree::node(Kind::Table, 0, Seq::empty(), seq![list_tree(entry_trees(table.entries@))])
}

#[verifier::opaque]
pub open spec fn function_expression_tree(function: FunctionExpression) -> Tree
    decreases function,
{
    Tree::node(
        Kind::FunctionExpression,
        flag(function.is_variadic),
        texts_of(function.parameters@),
        seq![block_tree(function.block)],
    )
}

#[verifier::opaque]
pub open spec fn prefix_tree(prefix: Prefix) -> Tree
    decreases prefix,
{
    match prefix {
        Prefix::Call(call) => Tree::node(Kind::Prefix, 0, Seq::empty(), seq![call_tree(*call)]),
        Prefix::Field(field) => Tree::node(Kind::Prefix, 1, Seq::empty(), seq![field_tree(*field)]),
        Prefix::Identifier(identifier) => Tree::node(Kind::Prefix, 2, Seq::empty(), seq![identifier@]),
        Prefix::Index(index) => Tree::node(Kind::Prefix, 3, Seq::empty(), seq![index_tree(*index)]),
        Prefix::Parenthese(inner) => Tree::node(Kind::Prefix, 4, Seq::empty(), seq![parenthese_tree(*inner)]),
    }
}

#[verifier::opaque]
pub open spec fn arguments_tree(arguments: Arguments) -> Tree
    decreases arguments,
{
    match arguments {
        Arguments::Tuple(values) => Tree::node(
            Kind::Arguments,
            0,
            Seq::empty(),
            seq![list_tree(expression_trees(values@))],
        ),
        Arguments::String(string) => Tree::node(Kind::Arguments, 1, Seq::empty(), seq![string@]),
        Arguments::Table(table) => Tree::node(Kind::Arguments, 2, Seq::empty(), seq![table_tree(table)]),
    }
}

#[verifier::opaque]
pub open spec fn lux_expression_tree(lux: LUXExpression) -> Tree
    decreases lux,
{
    match lux {
        LUXExpression::LUXElement(element) => Tree::node(
            Kind::LuxExpression,
            0,
            Seq::empty(),
            seq![lux_element_tree(element)],
        ),
        LUXExpression::LUXFragment(fragment) => Tree::node(
            Kind::LuxExpression,
            1,
            Seq::empty(),
            seq![lux_fragment_tree(fragment)],
        ),
    }
}

#[verifier::opaque]
pub open spec fn lux_element_tree(element: LUXElement) -> Tree
    decreases element,
{
    match element {
        LUXElement::Element(inner) => Tree::node(
            Kind::LuxElement,
            0,
            Seq::empty(),
            seq![lux_open_close_tree(inner)],
        ),
        LUXElement::SelfClosingElement(inner) => Tree::node(
            Kind::LuxElement,
            1,
            Seq::empty(),
            seq![lux_self_closing_tree(inner)],
        ),
    }
}

#[verifier::opaque]
pub open spec fn lux_open_close_tree(element: LUXOpenCloseElement) -> Tree
    decreases element,
{
    Tree::node(
        Kind::LuxOpenCloseElement,
        0,
        seq![element.name@],
        seq![
            list_tree(lux_attribute_trees(element.attributes@)),
            list_tree(lux_child_trees(element.children@)),
        ],
    )
}

#[verifier::opaque]
pub open spec fn lux_self_closing_tree(element: LUXSelfClosingElement) -> Tree
    decreases element,
{
    Tree::node(
        Kind::LuxSelfClosingElement,
        0,
        seq![element.name@],
        seq![list_tree(lux_attribute_trees(element.attributes@))],
    )
}

#[verifier::opaque]
pub open spec fn lux_fragment_tree(fragment: LUXFragment) -> Tree
    decreases fragment,
{
    Tree::node(Kind::LuxFragment, 0, Seq::empty(), seq![list_tree(lux_child_trees(fragment.children@))])
}

#[verifier::opaque]
pub open spec fn lux_child_tree(child: LUXChild) -> Tree
    decreases child,
{
    match child {
        LUXChild::LUXElement(element) => Tree::node(
            Kind::LuxChild,
            0,
            Seq::empty(),
            seq![lux_element_tree(element)],
        ),
        LUXChild::LUXFragment(fragment) => Tree::node(
            Kind::LuxChild,
            1,
            Seq::empty(),
            seq![lux_fragment_tree(fragment)],
        ),
        LUXChild::Expression(Some(expression)) => Tree::node(
            Kind::LuxChild,
            2,
            Seq::empty(),
            seq![expression_tree(expression)],
        ),
        LUXChild::Expression(None) => Tree::node(Kind::LuxChild, 3, Seq::empty(), Seq::empty()),
        LUXChild::ExpandedExpression(expression) => Tree::node(
            Kind::LuxChild,
            4,
            Seq::empty(),
            seq![expression_tree(expression)],
        ),
    }
}

#[verifier::opaque]
pub open spec fn lux_attribute_tree(attribute: LUXAttribute) -> Tree
    decreases attribute,
{
    match attribute {
        LUXAttribute::Named(named) => Tree::node(
            Kind::LuxAttribute,
            0,
            Seq::empty(),
            seq![lux_named_attribute_tree(named)],
        ),
        LUXAttribute::Spread(expression) => Tree::node(
            Kind::LuxAttribute,
            1,
            Seq::empty(),
            seq![expression_tree(expression)],
        ),
    }
}

#[verifier::opaque]
pub open spec fn lux_named_attribute_tree(named: LUXNamedAttribute) -> Tree
    decreases named,
{
    Tree::node(
        Kind::LuxNamedAttribute,
        0,
        seq![named.name@],
        seq![optional_lux_attribute_value_tree(named.value)],
    )
}

#[verifier::opaque]
pub open spec fn lux_attribute_value_tree(value: LUXAttributeValue) -> Tree
    decreases value,
{
    match value {
        LUXAttributeValue::DoubleQuoteString(text) => Tree::node(
            Kind::LuxAttributeValue,
            0,
            seq![text@],
            Seq::empty(),
        ),
        LUXAttributeValue::SingleQuoteString(text) => Tree::node(
            Kind::LuxAttributeValue,
            1,
            seq![text@],
            Seq::empty(),
        ),
        LUXAttributeValue::LuaExpression(expression) => Tree::node(
            Kind::LuxAttributeValue,
            2,
            Seq::empty(),
            seq![expression_tree(expression)],
        ),
        LUXAttributeValue::LUXElement(element) => Tree::node(
            Kind::LuxAttributeValue,
            3,
            Seq::empty(),
            seq![lux_element_tree(element)],
        ),
        LUXAttributeValue::LUXFragment(fragment) => Tree::node(
            Kind::LuxAttributeValue,
            4,
            Seq::empty(),
            seq![lux_fragment_tree(fragment)],
        ),
    }
}

/// The models of the items of a list, in their order.
#[verifier::opaque]
pub open spec fn statement_trees(list: Seq<Statement>) -> Seq<Tree>
    decreases list,
{
    Seq::new(
        list.len(),
        |i: int|
            if 0 <= i < list.len() {
                statement_tree(list[i])
            } else {
                arbitrary()
            },
    )
}

/// The models of the items of a list, in their order.
#[verifier::opaque]
pub open spec fn expression_trees(list: Seq<Expression>) -> Seq<Tree>
    decreases list,
{
    Seq::new(
        list.len(),
        |i: int|
            if 0 <= i < list.len() {
                expression_tree(list[i])
            } else {
                arbitrary()
            },
    )
}

/// The models of the items of a list, in their order.
#[verifier::opaque]
pub open spec fn variable_trees(list: Seq<Variable>) -> Seq<Tree>
    decreases list,
{
    Seq::new(
        list.len(),
        |i: int|
            if 0 <= i < list.len() {
                variable_tree(list[i])
            } else {
                arbitrary()
            },
    )
}

/// The models of the items of a list, in their order.
#[verifier::opaque]
pub open spec fn branch_trees(list: Seq<IfBranch>) -> Seq<Tree>
    decreases list,
{
    Seq::new(
        list.len(),
        |i: int|
            if 0 <= i < list.len() {
                branch_tree(list[i])
            } else {
                arbitrary()
            },
    )
}

/// The models of the items of a list, in their order.
#[verifier::opaque]
pub open spec fn entry_trees(list: Seq<TableEntry>) -> Seq<Tree>
    decreases list,
{
    Seq::new(
        list.len(),
        |i: int|
            if 0 <= i < list.len() {
                entry_tree(list[i])
            } else {
                arbitrary()
            },
    )
}

/// The models of the items of a list, in their order.
#[verifier::opaque]
pub open spec fn lux_attribute_trees(list: Seq<LUXAttribute>) -> Seq<Tree>
    decreases list,
{
    Seq::new(
        list.len(),
        |i: int|
            if 0 <= i < list.len() {
                lux_attribute_tree(list[i])
            } else {
                arbitrary()
            },
    )
}

/// The models of the items of a list, in their order.
#[verifier::opaque]
pub open spec fn lux_child_trees(list: Seq<LUXChild>) -> Seq<Tree>
    decreases list,
{
    Seq::new(
        list.len(),
        |i: int|
            if 0 <= i < list.len() {
                lux_child_tree(list[i])
            } else {
                arbitrary()
            },
    )
}

/// The model of a last statement that may be absent: a node that holds its model, or nothing.
#[verifier::opaque]
pub open spec fn optional_last_statement_tree(part: Option<LastStatement>) -> Tree
    decreases part,
{
    match part {
        Some(part) => Tree::node(Kind::Optional, 1, Seq::empty(), seq![last_statement_tree(part)]),
        None => Tree::node(Kind::Optional, 0, Seq::empty(), Seq::empty()),
    }
}

/// The model of a block that may be absent: a node that holds its model, or nothing.
#[verifier::opaque]
pub open spec fn optional_block_tree(part: Option<Block>) -> Tree
    decreases part,
{
    match part {
        Some(part) => Tree::node(Kind::Optional, 1, Seq::empty(), seq![block_tree(part)]),
        None => Tree::node(Kind::Optional, 0, Seq::empty(), Seq::empty()),
    }
}

/// The model of an expression that may be absent: a node that holds its model, or nothing.
#[verifier::opaque]
pub open spec fn optional_expression_tree(part: Option<Expression>) -> Tree
    decreases part,
{
    match part {
        Some(part) => Tree::node(Kind::Optional, 1, Seq::empty(), seq![expression_tree(part)]),
        None => Tree::node(Kind::Optional, 0, Seq::empty(), Seq::empty()),
    }
}

/// The model of the value of an attribute that may be absent: a node that holds its model, or nothing.
#[verifier::opaque]
pub open spec fn optional_lux_attribute_value_tree(part: Option<LUXAttributeValue>) -> Tree
    decreases part,
{
    match part {
        Some(part) => Tree::node(Kind::Optional, 1, Seq::empty(), seq![lux_attribute_value_tree(part)]),
        None => Tree::node(Kind::Optional, 0, Seq::empty(), Seq::empty()),
    }
}

impl View for NumberExpression {
    type V = Tree;

    open spec fn view(&self) -> Tree {
        Tree::node(Kind::Number, 0, seq![self.literal@], Seq::empty())
    }
}

impl View for StringExpression {
    type V = Tree;

    open spec fn view(&self) -> Tree {
        Tree::node(Kind::String, 0, seq![self.value@], Seq::empty())
    }
}

impl View for LocalAssignTokens {
    type V = Tree;

    open spec fn view(&self) -> Tree {
        Tree {
            kind: Kind::LocalAssignTokens,
            variant: 2 * self.variable_commas@.len() + flag(self.equal is Some),
            texts: Seq::empty(),
            details: seq![self.local@] + match self.equal {
                Some(equal) => seq![equal@],
                None => Seq::empty(),
            } + self.variable_commas@.map_values(|token: Token| token@) + self.value_commas@.map_values(
                |token: Token| token@,
            ),
            children: Seq::empty(),
        }
    }
}

impl View for Block {
    type V = Tree;

    open spec fn view(&self) -> Tree {
        block_tree(*self)
    }
}

impl View for LastStatement {
    type V = Tree;

    open spec fn view(&self) -> Tree {
        last_statement_tree(*self)
    }
}

impl View for Statement {
    type V = Tree;

    open spec fn view(&self) -> Tree {
        statement_tree(*self)
    }
}

impl View for AssignStatement {
    type V = Tree;

    open spec fn view(&self) -> Tree {
        assign_tree(*self)
    }
}

impl View for Variable {
    type V = Tree;

    open spec fn view(&self) -> Tree {
        variable_tree(*self)
    }
}

impl View for DoStatement {
    type V = Tree;

    open spec fn view(&self) -> Tree {
        do_tree(*self)
    }
}

impl View for FunctionCall {
    type V = Tree;

    open spec fn view(&self) -> Tree {
        call_tree(*self)
    }
}

impl View for FunctionName {
    type V = Tree;

    open spec fn view(&self) -> Tree {
        function_name_tree(*self)
    }
}

impl View for FunctionStatement {
    type V = Tree;

    open spec fn view(&self) -> Tree {
        function_statement_tree(*self)
    }
}

impl View for GenericForStatement {
    type V = Tree;

    open spec fn view(&self) -> Tree {
        generic_for_tree(*self)
    }
}

impl View for IfBranch {
    type V = Tree;

    open spec fn view(&self) -> Tree {
        branch_tree(*self)
    }
}

impl View for IfStatement {
    type V = Tree;

    open spec fn view(&self) -> Tree {
        if_tree(*self)
    }
}

impl View for LocalAssignStatement {
    type V = Tree;

    open spec fn view(&self) -> Tree {
        local_assign_tree(*self)
    }
}

impl View for LocalFunctionStatement {
    type V = Tree;

    open spec fn view(&self) -> Tree {
        local_function_tree(*self)
    }
}

impl View for NumericForStatement {
    type V = Tree;

    open spec fn view(&self) -> Tree {
        numeric_for_tree(*self)
    }
}

impl View for RepeatStatement {
    type V = Tree;

    open spec fn view(&self) -> Tree {
        repeat_tree(*self)
    }
}

impl View for WhileStatement {
    type V = Tree;

    open spec fn view(&self) -> Tree {
        while_tree(*self)
    }
}

impl View for Expression {
    type V = Tree;

    open spec fn view(&self) -> Tree {
        expression_tree(*self)
    }
}

impl View for BinaryExpression {
    type V = Tree;

    open spec fn view(&self) -> Tree {
        binary_tree(*self)
    }
}

impl View for UnaryExpression {
    type V = Tree;

    open spec fn view(&self) -> Tree {
        unary_tree(*self)
    }
}

impl View for ParentheseExpression {
    type V = Tree;

    open spec fn view(&self) -> Tree {
        parenthese_tree(*self)
    }
}

impl View for FieldExpression {
    type V = Tree;

    open spec fn view(&self) -> Tree {
        field_tree(*self)
    }
}

impl View for IndexExpression {
    type V = Tree;

    open spec fn view(&self) -> Tree {
        index_tree(*self)
    }
}

impl View for TableEntry {
    type V = Tree;

    open spec fn view(&self) -> Tree {
        entry_tree(*self)
    }
}

impl View for TableExpression {
    type V = Tree;

    open spec fn view(&self) -> Tree {
        table_tree(*self)
    }
}

impl View for FunctionExpression {
    type V = Tree;

    open spec fn view(&self) -> Tree {
        function_expression_tree(*self)
    }
}

impl View for Prefix {
    type V = Tree;

    open spec fn view(&self) -> Tree {
        prefix_tree(*self)
    }
}

impl View for Arguments {
    type V = Tree;

    open spec fn view(&self) -> Tree {
        arguments_tree(*self)
    }
}

impl View for LUXExpression {
    type V = Tree;

    open spec fn view(&self) -> Tree {
        lux_expression_tree(*self)
    }
}

impl View for LUXElement {
    type V = Tree;

    open spec fn view(&self) -> Tree {
        lux_element_tree(*self)
    }
}

impl View for LUXOpenCloseElement {
    type V = Tree;

    open spec fn view(&self) -> Tree {
        lux_open_close_tree(*self)
    }
}

impl View for LUXSelfClosingElement {
    type V = Tree;

    open spec fn view(&self) -> Tree {
        lux_self_closing_tree(*self)
    }
}

impl View for LUXFragment {
    type V = Tree;

    open spec fn view(&self) -> Tree {
        lux_fragment_tree(*self)
    }
}

impl View for LUXChild {
    type V = Tree;

    open spec fn view(&self) -> Tree {
        lux_child_tree(*self)
    }
}

impl View for LUXAttribute {
    type V = Tree;

    open spec fn view(&self) -> Tree {
        lux_attribute_tree(*self)
    }
}

impl View for LUXNamedAttribute {
    type V = Tree;

    open spec fn view(&self) -> Tree {
        lux_named_attribute_tree(*self)
    }
}

impl View for LUXAttributeValue {
    type V = Tree;

    open spec fn view(&self) -> Tree {
        lux_attribute_value_tree(*self)
    }
}

} // verus!
