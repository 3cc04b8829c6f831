//! Statements, and the statement that may end a block.
use vstd::prelude::*;
use vstd::std_specs::convert::FromSpecImpl;
use crate::nodes::block::Block;
use crate::nodes::expressions::{Expression, FieldExpression, FunctionCall, IndexExpression};
use crate::nodes::local_assign::LocalAssignStatement;
use crate::nodes::token::Identifier;

verus! {

/// What an assignment may write to.
#[derive(Debug, PartialEq, Eq)]
pub enum Variable {
    Identifier(Identifier),
    Field(FieldExpression),
    Index(IndexExpression),
}

/// `variables = values`, with at least one of each.
#[derive(Debug, PartialEq, Eq)]
pub struct AssignStatement {
    pub variables: Vec<Variable>,
    pub values: Vec<Expression>,
}

impl AssignStatement {
    /// An assignment has a variable and a value.
    pub open spec fn well_formed(self) -> bool {
        self.variables@.len() >= 1 && self.values@.len() >= 1
    }

    pub fn new(variables: Vec<Variable>, values: Vec<Expression>) -> (statement: Self)
        ensures
            statement.variables == variables,
            statement.values == values,
    {
        Self { variables, values }
    }

    /// The assignment of one value to one variable.
    pub fn from_variable(variable: Variable, value: Expression) -> (statement: Self)
        ensures
            statement.variables@ == seq![variable],
            statement.values@ == seq![value],
            statement.well_formed(),
    {
        let mut variables = Vec::new();
        variables.push(variable);
        let mut values = Vec::new();
        values.push(value);
        Self { variables, values }
    }
}

/// `do block end`
#[derive(Debug, PartialEq, Eq)]
pub struct DoStatement {
    pub block: Block,
}

impl DoStatement {
    pub fn new(block: Block) -> (statement: Self)
        ensures
            statement.block == block,
    {
        Self { block }
    }

    pub fn get_block(&self) -> (block: &Block)
        ensures
            *block == self.block,
    {
        &self.block
    }
}

impl Default for DoStatement {
    fn default() -> (statement: Self)
        ensures
            statement.block.is_empty(),
    {
        Self { block: Block::default() }
    }
}

/// The name under which a function statement defines its function: `name.field.field:method`.
#[derive(Debug, PartialEq, Eq)]
pub struct FunctionName {
    pub name: Identifier,
    pub field_names: Vec<String>,
    pub method: Option<String>,
}

impl FunctionName {
    pub fn new(name: Identifier, field_names: Vec<String>, method: Option<String>) -> (function_name: Self)
        ensures
            function_name.name == name,
            function_name.field_names == field_names,
            function_name.method == method,
    {
        Self { name, field_names, method }
    }

    pub fn from_name(name: String) -> (function_name: Self)
        ensures
            function_name.name == (Identifier { name, token: None }),
            function_name.field_names@.len() == 0,
            function_name.method is None,
    {
        Self { name: Identifier::new(name), field_names: Vec::new(), method: None }
    }
}

/// `function name(parameters) block end`
#[derive(Debug, PartialEq, Eq)]
pub struct FunctionStatement {
    pub name: FunctionName,
    pub block: Block,
    pub parameters: Vec<String>,
    pub is_variadic: bool,
}

impl FunctionStatement {
    pub fn new(name: FunctionName, block: Block, parameters: Vec<String>, is_variadic: bool) -> (statement: Self)
        ensures
            statement.name == name,
            statement.block == block,
            statement.parameters == parameters,
            statement.is_variadic == is_variadic,
    {
        Self { name, block, parameters, is_variadic }
    }
}

/// `for identifiers in expressions do block end`, with at least one of each.
#[derive(Debug, PartialEq, Eq)]
pub struct GenericForStatement {
    pub identifiers: Vec<String>,
    pub expressions: Vec<Expression>,
    pub block: Block,
}

impl GenericForStatement {
    /// The loop names a variable and has something to iterate on.
    pub open spec fn well_formed(self) -> bool {
        self.identifiers@.len() >= 1 && self.expressions@.len() >= 1
    }

    pub fn new(identifiers: Vec<String>, expressions: Vec<Expression>, block: Block) -> (statement: Self)
        ensures
            statement.identifiers == identifiers,
            statement.expressions == expressions,
            statement.block == block,
    {
        Self { identifiers, expressions, block }
    }
}

/// A condition and the block that runs where it holds.
#[derive(Debug, PartialEq, Eq)]
pub struct IfBranch {
    pub condition: Expression,
    pub block: Block,
}

impl IfBranch {
    pub fn new(condition: Expression, block: Block) -> (branch: Self)
        ensures
            branch.condition == condition,
            branch.block == block,
    {
        Self { condition, block }
    }
}

/// `if .. then .. elseif .. then .. else .. end`, with at least one branch.
#[derive(Debug, PartialEq, Eq)]
pub struct IfStatement {
    pub branches: Vec<IfBranch>,
    pub else_block: Option<Block>,
}

impl IfStatement {
    /// The statement has its first branch.
    pub open spec fn well_formed(self) -> bool {
        self.branches@.len() >= 1
    }

    pub fn new(branches: Vec<IfBranch>, else_block: Option<Block>) -> (statement: Self)
        ensures
            statement.branches == branches,
            statement.else_block == else_block,
    {
        Self { branches, else_block }
    }

    /// The statement of one branch and no else block.
    pub fn create(condition: Expression, block: Block) -> (statement: Self)
        ensures
            statement.branches@ == seq![IfBranch { condition, block }],
            statement.else_block is None,
            statement.well_formed(),
    {
        let mut branches = Vec::new();
        branches.push(IfBranch::new(condition, block));
        Self { branches, else_block: None }
    }

    pub fn with_branch(self, condition: Expression, block: Block) -> (statement: Self)
        ensures
            statement.branches@ == self.branches@.push(IfBranch { condition, block }),
            statement.else_block == self.else_block,
    {
        let mut statement = self;
        statement.branches.push(IfBranch::new(condition, block));
        statement
    }

    pub fn with_else_block(self, block: Block) -> (statement: Self)
        ensures
            statement.branches == self.branches,
            statement.else_block == Some(block),
    {
        let mut statement = self;
        statement.else_block = Some(block);
        statement
    }

    pub fn branch_count(&self) -> (count: usize)
        ensures
            count == self.branches@.len(),
    {
        self.branches.len()
    }
}

/// `local function identifier(parameters) block end`
#[derive(Debug, PartialEq, Eq)]
pub struct LocalFunctionStatement {
    pub identifier: String,
    pub block: Block,
    pub parameters: Vec<String>,
    pub is_variadic: bool,
}

impl LocalFunctionStatement {
    pub fn new(identifier: String, block: Block, parameters: Vec<String>, is_variadic: bool) -> (statement: Self)
        ensures
            statement.identifier == identifier,
            statement.block == block,
            statement.parameters == parameters,
            statement.is_variadic == is_variadic,
    {
        Self { identifier, block, parameters, is_variadic }
    }

    /// The function of that name, without parameters.
    pub fn from_name(identifier: String, block: Block) -> (statement: Self)
        ensures
            statement.identifier == identifier,
            statement.block == block,
            statement.parameters@.len() == 0,
            !statement.is_variadic,
    {
        Self { identifier, block, parameters: Vec::new(), is_variadic: false }
    }
}

/// `for identifier = start, end, step do block end`
#[derive(Debug, PartialEq, Eq)]
pub struct NumericForStatement {
    pub identifier: String,
    pub start: Expression,
    pub end: Expression,
    pub step: Option<Expression>,
    pub block: Block,
}

impl NumericForStatement {
    pub fn new(
        identifier: String,
        start: Expression,
        end: Expression,
        step: Option<Expression>,
        block: Block,
    ) -> (statement: Self)
        ensures
            statement.identifier == identifier,
            statement.start == start,
            statement.end == end,
            statement.step == step,
            statement.block == block,
    {
        Self { identifier, start, end, step, block }
    }
}

/// `repeat block until condition`
#[derive(Debug, PartialEq, Eq)]
pub struct RepeatStatement {
    pub block: Block,
    pub condition: Expression,
}

impl RepeatStatement {
    pub fn new(block: Block, condition: Expression) -> (statement: Self)
        ensures
            statement.block == block,
            statement.condition == condition,
    {
        Self { block, condition }
    }
}

/// `while condition do block end`
#[derive(Debug, PartialEq, Eq)]
pub struct WhileStatement {
    pub block: Block,
    pub condition: Expression,
}

impl WhileStatement {
    pub fn new(block: Block, condition: Expression) -> (statement: Self)
        ensures
            statement.block == block,
            statement.condition == condition,
    {
        Self { block, condition }
    }
}

#[derive(Debug, PartialEq, Eq)]
pub enum Statement {
    Assign(AssignStatement),
    Do(DoStatement),
    Call(FunctionCall),
    Function(FunctionStatement),
    GenericFor(GenericForStatement),
    If(IfStatement),
    LocalAssign(LocalAssignStatement),
    LocalFunction(LocalFunctionStatement),
    NumericFor(NumericForStatement),
    Repeat(RepeatStatement),
    While(WhileStatement),
}

/// The statement after which nothing of its block runs.
#[derive(Debug, PartialEq, Eq)]
pub enum LastStatement {
    Break,
    Return(Vec<Expression>),
}

impl From<AssignStatement> for Statement {
    fn from(statement: AssignStatement) -> (wrapped: Statement) {
        Statement::Assign(statement)
    }
}

impl FromSpecImpl<AssignStatement> for Statement {
    open spec fn obeys_from_spec() -> bool {
        true
    }

    open spec fn from_spec(statement: AssignStatement) -> Statement {
        Statement::Assign(statement)
    }
}

impl From<DoStatement> for Statement {
    fn from(statement: DoStatement) -> (wrapped: Statement) {
        Statement::Do(statement)
    }
}

impl FromSpecImpl<DoStatement> for Statement {
    open spec fn obeys_from_spec() -> bool {
        true
    }

    open spec fn from_spec(statement: DoStatement) -> Statement {
        Statement::Do(statement)
    }
}

impl From<FunctionCall> for Statement {
    fn from(statement: FunctionCall) -> (wrapped: Statement) {
        Statement::Call(statement)
    }
}

impl FromSpecImpl<FunctionCall> for Statement {
    open spec fn obeys_from_spec() -> bool {
        true
    }

    open spec fn from_spec(statement: FunctionCall) -> Statement {
        Statement::Call(statement)
    }
}

impl From<FunctionStatement> for Statement {
    fn from(statement: FunctionStatement) -> (wrapped: Statement) {
        Statement::Function(statement)
    }
}

impl FromSpecImpl<FunctionStatement> for Statement {
    open spec fn obeys_from_spec() -> bool {
        true
    }

    open spec fn from_spec(statement: FunctionStatement) -> Statement {
        Statement::Function(statement)
    }
}

impl From<GenericForStatement> for Statement {
    fn from(statement: GenericForStatement) -> (wrapped: Statement) {
        Statement::GenericFor(statement)
    }
}

impl FromSpecImpl<GenericForStatement> for Statement {
    open spec fn obeys_from_spec() -> bool {
        true
    }

    open spec fn from_spec(statement: GenericForStatement) -> Statement {
        Statement::GenericFor(statement)
    }
}

impl From<IfStatement> for Statement {
    fn from(statement: IfStatement) -> (wrapped: Statement) {
        Statement::If(statement)
    }
}

impl FromSpecImpl<IfStatement> for Statement {
    open spec fn obeys_from_spec() -> bool {
        true
    }

    open spec fn from_spec(statement: IfStatement) -> Statement {
        Statement::If(statement)
    }
}

impl From<LocalAssignStatement> for Statement {
    fn from(statement: LocalAssignStatement) -> (wrapped: Statement) {
        Statement::LocalAssign(statement)
    }
}

impl FromSpecImpl<LocalAssignStatement> for Statement {
    open spec fn obeys_from_spec() -> bool {
        true
    }

    open spec fn from_spec(statement: LocalAssignStatement) -> Statement {
        Statement::LocalAssign(statement)
    }
}

impl From<LocalFunctionStatement> for Statement {
    fn from(statement: LocalFunctionStatement) -> (wrapped: Statement) {
        Statement::LocalFunction(statement)
    }
}

impl FromSpecImpl<LocalFunctionStatement> for Statement {
    open spec fn obeys_from_spec() -> bool {
        true
    }

    open spec fn from_spec(statement: LocalFunctionStatement) -> Statement {
        Statement::LocalFunction(statement)
    }
}

impl From<NumericForStatement> for Statement {
    fn from(statement: NumericForStatement) -> (wrapped: Statement) {
        Statement::NumericFor(statement)
    }
}

impl FromSpecImpl<NumericForStatement> for Statement {
    open spec fn obeys_from_spec() -> bool {
        true
    }

    open spec fn from_spec(statement: NumericForStatement) -> Statement {
        Statement::NumericFor(statement)
    }
}

impl From<RepeatStatement> for Statement {
    fn from(statement: RepeatStatement) -> (wrapped: Statement) {
        Statement::Repeat(statement)
    }
}

impl FromSpecImpl<RepeatStatement> for Statement {
    open spec fn obeys_from_spec() -> bool {
        true
    }

    open spec fn from_spec(statement: RepeatStatement) -> Statement {
        Statement::Repeat(statement)
    }
}

impl From<WhileStatement> for Statement {
    fn from(statement: WhileStatement) -> (wrapped: Statement) {
        Statement::While(statement)
    }
}

impl FromSpecImpl<WhileStatement> for Statement {
    open spec fn obeys_from_spec() -> bool {
        true
    }

    open spec fn from_spec(statement: WhileStatement) -> Statement {
        Statement::While(statement)
    }
}

} // verus!
