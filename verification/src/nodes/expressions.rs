//! Expressions, and the prefixes, arguments and calls made of them.
use vstd::prelude::*;
use crate::nodes::block::Block;
use crate::nodes::lux::LUXExpression;
use crate::nodes::token::Identifier;

verus! {

#[derive(Clone, Copy, Debug, PartialEq, Eq, Structural)]
pub enum BinaryOperator {
    And,
    Or,
    Equal,
    NotEqual,
    LowerThan,
    LowerOrEqualThan,
    GreaterThan,
    GreaterOrEqualThan,
    Plus,
    Minus,
    Asterisk,
    Slash,
    Percent,
    Caret,
    Concat,
}

#[derive(Clone, Copy, Debug, PartialEq, Eq, Structural)]
pub enum UnaryOperator {
    Length,
    Minus,
    Not,
}

#[derive(Debug, PartialEq, Eq)]
pub struct BinaryExpression {
    pub operator: BinaryOperator,
    pub left: Expression,
    pub right: Expression,
}

impl BinaryExpression {
    pub fn new(operator: BinaryOperator, left: Expression, right: Expression) -> (expression: Self)
        ensures
            expression.operator == operator,
            expression.left == left,
            expression.right == right,
    {
        Self { operator, left, right }
    }
}

#[derive(Debug, PartialEq, Eq)]
pub struct UnaryExpression {
    pub operator: UnaryOperator,
    pub expression: Expression,
}

impl UnaryExpression {
    pub fn new(operator: UnaryOperator, expression: Expression) -> (unary: Self)
        ensures
            unary.operator == operator,
            unary.expression == expression,
    {
        Self { operator, expression }
    }
}

/// An expression between parentheses.
#[derive(Debug, PartialEq, Eq)]
pub struct ParentheseExpression {
    pub expression: Expression,
}

impl ParentheseExpression {
    pub fn new(expression: Expression) -> (parenthese: Self)
        ensures
            parenthese.expression == expression,
    {
        Self { expression }
    }
}

/// `prefix.field`
#[derive(Debug, PartialEq, Eq)]
pub struct FieldExpression {
    pub prefix: Prefix,
    pub field: String,
}

impl FieldExpression {
    pub fn new(prefix: Prefix, field: String) -> (expression: Self)
        ensures
            expression.prefix == prefix,
            expression.field == field,
    {
        Self { prefix, field }
    }
}

/// `prefix[index]`
#[derive(Debug, PartialEq, Eq)]
pub struct IndexExpression {
    pub prefix: Prefix,
    pub index: Expression,
}

impl IndexExpression {
    pub fn new(prefix: Prefix, index: Expression) -> (expression: Self)
        ensures
            expression.prefix == prefix,
            expression.index == index,
    {
        Self { prefix, index }
    }
}

/// A number, kept as it is written in the source.
#[derive(Debug, PartialEq, Eq)]
pub struct NumberExpression {
    pub literal: String,
}

impl NumberExpression {
    pub fn new(literal: String) -> (number: Self)
        ensures
            number.literal == literal,
    {
        Self { literal }
    }
}

/// A string, by its content.
#[derive(Debug, PartialEq, Eq)]
pub struct StringExpression {
    pub value: String,
}

impl StringExpression {
    pub fn new(value: String) -> (string: Self)
        ensures
            string.value == value,
    {
        Self { value }
    }

    /// The string without content.
    pub fn empty() -> (string: Self)
        ensures
            string.value@.len() == 0,
    {
        Self { value: String::new() }
    }

    pub fn get_value(&self) -> (value: &String)
        ensures
            *value == self.value,
    {
        &self.value
    }
}

#[derive(Debug, PartialEq, Eq)]
pub enum TableEntry {
    Field(String, Expression),
    Index(Expression, Expression),
    Value(Expression),
}

#[derive(Debug, PartialEq, Eq)]
pub struct TableExpression {
    pub entries: Vec<TableEntry>,
}

impl TableExpression {
    pub fn new(entries: Vec<TableEntry>) -> (table: Self)
        ensures
            table.entries == entries,
    {
        Self { entries }
    }

    pub fn is_empty(&self) -> (empty: bool)
        ensures
            empty == (self.entries@.len() == 0),
    {
        self.entries.len() == 0
    }
}

impl Default for TableExpression {
    fn default() -> (table: Self)
        ensures
            table.entries@.len() == 0,
    {
        Self { entries: Vec::new() }
    }
}

/// An anonymous function.
#[derive(Debug, PartialEq, Eq)]
pub struct FunctionExpression {
    pub block: Block,
    pub parameters: Vec<String>,
    pub is_variadic: bool,
}

impl FunctionExpression {
    pub fn new(block: Block, parameters: Vec<String>, is_variadic: bool) -> (function: Self)
        ensures
            function.block == block,
            function.parameters == parameters,
            function.is_variadic == is_variadic,
    {
        Self { block, parameters, is_variadic }
    }
}

impl Default for FunctionExpression {
    fn default() -> (function: Self)
        ensures
            function.block.is_empty(),
            function.parameters@.len() == 0,
            !function.is_variadic,
    {
        Self { block: Block::default(), parameters: Vec::new(), is_variadic: false }
    }
}

/// What may stand before a field, an index or the arguments of a call.
#[derive(Debug, PartialEq, Eq)]
pub enum Prefix {
    Call(Box<FunctionCall>),
    Field(Box<FieldExpression>),
    Identifier(Identifier),
    Index(Box<IndexExpression>),
    Parenthese(Box<ParentheseExpression>),
}

impl Prefix {
    pub fn from_name(name: String) -> (prefix: Self)
        ensures
            prefix == Prefix::Identifier(Identifier { name, token: None }),
    {
        Prefix::Identifier(Identifier::new(name))
    }
}

/// The arguments of a call: a list between parentheses, or a lone string or table.
#[derive(Debug, PartialEq, Eq)]
pub enum Arguments {
    Tuple(Vec<Expression>),
    String(StringExpression),
    Table(TableExpression),
}

impl Default for Arguments {
    fn default() -> (arguments: Self)
        ensures
            arguments matches Arguments::Tuple(list) && list@.len() == 0,
    {
        Arguments::Tuple(Vec::new())
    }
}

/// A call, which is an expression and a statement.
#[derive(Debug, PartialEq, Eq)]
pub struct FunctionCall {
    pub prefix: Prefix,
    pub arguments: Arguments,
    pub method: Option<String>,
}

impl FunctionCall {
    pub fn new(prefix: Prefix, arguments: Arguments, method: Option<String>) -> (call: Self)
        ensures
            call.prefix == prefix,
            call.arguments == arguments,
            call.method == method,
    {
        Self { prefix, arguments, method }
    }

    /// A call of the function of that name, without arguments.
    pub fn from_name(name: String) -> (call: Self)
        ensures
            call.prefix == Prefix::Identifier(Identifier { name, token: None }),
            call.arguments matches Arguments::Tuple(list) && list@.len() == 0,
            call.method is None,
    {
        Self { prefix: Prefix::from_name(name), arguments: Arguments::default(), method: None }
    }

    pub fn with_arguments(self, arguments: Arguments) -> (call: Self)
        ensures
            call.prefix == self.prefix,
            call.arguments == arguments,
            call.method == self.method,
    {
        let mut call = self;
        call.arguments = arguments;
        call
    }

    pub fn get_arguments(&self) -> (arguments: &Arguments)
        ensures
            *arguments == self.arguments,
    {
        &self.arguments
    }

    pub fn get_prefix(&self) -> (prefix: &Prefix)
        ensures
            *prefix == self.prefix,
    {
        &self.prefix
    }

    /// Puts other arguments in the place of the present ones, which are handed back.
    pub fn replace_arguments(&mut self, arguments: Arguments) -> (previous: Arguments)
        ensures
            previous == old(self).arguments,
            final(self).arguments == arguments,
            final(self).prefix == old(self).prefix,
            final(self).method == old(self).method,
    {
        let mut given = arguments;
        std::mem::swap(&mut self.arguments, &mut given);
        given
    }
}

#[derive(Debug, PartialEq, Eq)]
pub enum Expression {
    Nil,
    True,
    False,
    VariableArguments,
    Number(NumberExpression),
    String(StringExpression),
    Identifier(Identifier),
    Binary(Box<BinaryExpression>),
    Unary(Box<UnaryExpression>),
    Parenthese(Box<ParentheseExpression>),
    Function(FunctionExpression),
    Call(Box<FunctionCall>),
    Field(Box<FieldExpression>),
    Index(Box<IndexExpression>),
    Table(TableExpression),
    LUX(Box<LUXExpression>),
}

impl Expression {
    pub fn identifier(name: String) -> (expression: Self)
        ensures
            expression == Expression::Identifier(Identifier { name, token: None }),
    {
        Expression::Identifier(Identifier::new(name))
    }
}

} // verus!
