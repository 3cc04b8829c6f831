use darklua::nodes::block::Block;
use darklua::nodes::expressions::{
    Arguments, BinaryExpression, BinaryOperator, Expression, FieldExpression, FunctionCall,
    FunctionExpression, IndexExpression, NumberExpression, ParentheseExpression, Prefix,
    StringExpression, TableEntry, TableExpression, UnaryExpression, UnaryOperator,
};
use darklua::nodes::local_assign::LocalAssignStatement;
use darklua::nodes::lux::{
    LUXAttribute, LUXAttributeValue, LUXChild, LUXElement, LUXExpression, LUXFragment,
    LUXNamedAttribute, LUXOpenCloseElement, LUXSelfClosingElement,
};
use darklua::nodes::statements::{
    AssignStatement, DoStatement, FunctionName, FunctionStatement, GenericForStatement,
    IfStatement, LastStatement, LocalFunctionStatement, NumericForStatement, RepeatStatement,
    Statement, Variable, WhileStatement,
};
use darklua::nodes::token::Identifier;
use darklua::nodes::tree::Tree;
use darklua::process::node_counter::NodeCounter;
use darklua::process::node_processor::{NodeProcessor, NodeProcessorMut};
use darklua::process::visitors::{DefaultVisitor, NodeVisitor};
use darklua::process::visitors_mut::{DefaultVisitorMut, NodeVisitorMut};

/// Notes the name of each hook that is called, in order.
#[derive(Default)]
struct Reader {
    calls: Vec<&'static str>,
}

impl NodeProcessor for Reader {
    fn after(self, _: Tree) -> Self {
        self
    }

    fn process_block(&mut self, _: &Block) {
        self.calls.push("process_block");
    }

    fn process_statement(&mut self, _: &Statement) {
        self.calls.push("process_statement");
    }

    fn process_function_call(&mut self, _: &FunctionCall) {
        self.calls.push("process_function_call");
    }

    fn process_assign_statement(&mut self, _: &AssignStatement) {
        self.calls.push("process_assign_statement");
    }

    fn process_do_statement(&mut self, _: &DoStatement) {
        self.calls.push("process_do_statement");
    }

    fn process_function_statement(&mut self, _: &FunctionStatement) {
        self.calls.push("process_function_statement");
    }

    fn process_generic_for_statement(&mut self, _: &GenericForStatement) {
        self.calls.push("process_generic_for_statement");
    }

    fn process_if_statement(&mut self, _: &IfStatement) {
        self.calls.push("process_if_statement");
    }

    fn process_last_statement(&mut self, _: &LastStatement) {
        self.calls.push("process_last_statement");
    }

    fn process_local_assign_statement(&mut self, _: &LocalAssignStatement) {
        self.calls.push("process_local_assign_statement");
    }

    fn process_local_function_statement(&mut self, _: &LocalFunctionStatement) {
        self.calls.push("process_local_function_statement");
    }

    fn process_numeric_for_statement(&mut self, _: &NumericForStatement) {
        self.calls.push("process_numeric_for_statement");
    }

    fn process_repeat_statement(&mut self, _: &RepeatStatement) {
        self.calls.push("process_repeat_statement");
    }

    fn process_while_statement(&mut self, _: &WhileStatement) {
        self.calls.push("process_while_statement");
    }

    fn process_expression(&mut self, _: &Expression) {
        self.calls.push("process_expression");
    }

    fn process_binary_expression(&mut self, _: &BinaryExpression) {
        self.calls.push("process_binary_expression");
    }

    fn process_field_expression(&mut self, _: &FieldExpression) {
        self.calls.push("process_field_expression");
    }

    fn process_function_expression(&mut self, _: &FunctionExpression) {
        self.calls.push("process_function_expression");
    }

    fn process_variable_expression(&mut self, _: &Identifier) {
        self.calls.push("process_variable_expression");
    }

    fn process_index_expression(&mut self, _: &IndexExpression) {
        self.calls.push("process_index_expression");
    }

    fn process_number_expression(&mut self, _: &NumberExpression) {
        self.calls.push("process_number_expression");
    }

    fn process_prefix_expression(&mut self, _: &Prefix) {
        self.calls.push("process_prefix_expression");
    }

    fn process_parenthese_expression(&mut self, _: &ParentheseExpression) {
        self.calls.push("process_parenthese_expression");
    }

    fn process_string_expression(&mut self, _: &StringExpression) {
        self.calls.push("process_string_expression");
    }

    fn process_table_expression(&mut self, _: &TableExpression) {
        self.calls.push("process_table_expression");
    }

    fn process_unary_expression(&mut self, _: &UnaryExpression) {
        self.calls.push("process_unary_expression");
    }

    fn process_lux_expression(&mut self, _: &LUXExpression) {
        self.calls.push("process_lux_expression");
    }

    fn process_lux_element(&mut self, _: &LUXElement) {
        self.calls.push("process_lux_element");
    }

    fn process_lux_open_close_element(&mut self, _: &LUXOpenCloseElement) {
        self.calls.push("process_lux_open_close_element");
    }

    fn process_lux_self_closing_element(&mut self, _: &LUXSelfClosingElement) {
        self.calls.push("process_lux_self_closing_element");
    }

    fn process_lux_fragment(&mut self, _: &LUXFragment) {
        self.calls.push("process_lux_fragment");
    }

    fn process_lux_child(&mut self, _: &LUXChild) {
        self.calls.push("process_lux_child");
    }

    fn process_lux_attribute(&mut self, _: &LUXAttribute) {
        self.calls.push("process_lux_attribute");
    }

    fn process_lux_attribute_value(&mut self, _: &LUXAttributeValue) {
        self.calls.push("process_lux_attribute_value");
    }
}

/// Notes the name of each hook that is called, in order, and changes nothing.
#[derive(Default)]
struct Watcher {
    calls: Vec<&'static str>,
}

impl NodeProcessorMut for Watcher {
    fn rewrite(self, node: Tree) -> (Self, Tree) {
        (self, node)
    }

    fn process_block(&mut self, _: &mut Block) {
        self.calls.push("process_block");
    }

    fn process_statement(&mut self, _: &mut Statement) {
        self.calls.push("process_statement");
    }

    fn process_function_call(&mut self, _: &mut FunctionCall) {
        self.calls.push("process_function_call");
    }

    fn process_assign_statement(&mut self, _: &mut AssignStatement) {
        self.calls.push("process_assign_statement");
    }

    fn process_do_statement(&mut self, _: &mut DoStatement) {
        self.calls.push("process_do_statement");
    }

    fn process_function_statement(&mut self, _: &mut FunctionStatement) {
        self.calls.push("process_function_statement");
    }

    fn process_generic_for_statement(&mut self, _: &mut GenericForStatement) {
        self.calls.push("process_generic_for_statement");
    }

    fn process_if_statement(&mut self, _: &mut IfStatement) {
        self.calls.push("process_if_statement");
    }

    fn process_last_statement(&mut self, _: &mut LastStatement) {
        self.calls.push("process_last_statement");
    }

    fn process_local_assign_statement(&mut self, _: &mut LocalAssignStatement) {
        self.calls.push("process_local_assign_statement");
    }

    fn process_local_function_statement(&mut self, _: &mut LocalFunctionStatement) {
        self.calls.push("process_local_function_statement");
    }

    fn process_numeric_for_statement(&mut self, _: &mut NumericForStatement) {
        self.calls.push("process_numeric_for_statement");
    }

    fn process_repeat_statement(&mut self, _: &mut RepeatStatement) {
        self.calls.push("process_repeat_statement");
    }

    fn process_while_statement(&mut self, _: &mut WhileStatement) {
        self.calls.push("process_while_statement");
    }

    fn process_expression(&mut self, _: &mut Expression) {
        self.calls.push("process_expression");
    }

    fn process_binary_expression(&mut self, _: &mut BinaryExpression) {
        self.calls.push("process_binary_expression");
    }

    fn process_field_expression(&mut self, _: &mut FieldExpression) {
        self.calls.push("process_field_expression");
    }

    fn process_function_expression(&mut self, _: &mut FunctionExpression) {
        self.calls.push("process_function_expression");
    }

    fn process_variable_expression(&mut self, _: &mut Identifier) {
        self.calls.push("process_variable_expression");
    }

    fn process_index_expression(&mut self, _: &mut IndexExpression) {
        self.calls.push("process_index_expression");
    }

    fn process_number_expression(&mut self, _: &mut NumberExpression) {
        self.calls.push("process_number_expression");
    }

    fn process_prefix_expression(&mut self, _: &mut Prefix) {
        self.calls.push("process_prefix_expression");
    }

    fn process_parenthese_expression(&mut self, _: &mut ParentheseExpression) {
        self.calls.push("process_parenthese_expression");
    }

    fn process_string_expression(&mut self, _: &mut StringExpression) {
        self.calls.push("process_string_expression");
    }

    fn process_table_expression(&mut self, _: &mut TableExpression) {
        self.calls.push("process_table_expression");
    }

    fn process_unary_expression(&mut self, _: &mut UnaryExpression) {
        self.calls.push("process_unary_expression");
    }

    fn process_lux_expression(&mut self, _: &mut LUXExpression) {
        self.calls.push("process_lux_expression");
    }

    fn process_lux_element(&mut self, _: &mut LUXElement) {
        self.calls.push("process_lux_element");
    }

    fn process_lux_open_close_element(&mut self, _: &mut LUXOpenCloseElement) {
        self.calls.push("process_lux_open_close_element");
    }

    fn process_lux_self_closing_element(&mut self, _: &mut LUXSelfClosingElement) {
        self.calls.push("process_lux_self_closing_element");
    }

    fn process_lux_fragment(&mut self, _: &mut LUXFragment) {
        self.calls.push("process_lux_fragment");
    }

    fn process_lux_child(&mut self, _: &mut LUXChild) {
        self.calls.push("process_lux_child");
    }

    fn process_lux_attribute(&mut self, _: &mut LUXAttribute) {
        self.calls.push("process_lux_attribute");
    }

    fn process_lux_attribute_value(&mut self, _: &mut LUXAttributeValue) {
        self.calls.push("process_lux_attribute_value");
    }
}

fn name(text: &str) -> Identifier {
    Identifier::new(text.to_owned())
}

fn number(text: &str) -> Expression {
    Expression::Number(NumberExpression::new(text.to_owned()))
}

fn call(function: &str, arguments: Arguments) -> FunctionCall {
    FunctionCall::from_name(function.to_owned()).with_arguments(arguments)
}

fn markup() -> Expression {
    let attributes = vec![
        LUXAttribute::Named(LUXNamedAttribute::new(
            "size".to_owned(),
            Some(LUXAttributeValue::LuaExpression(number("1"))),
        )),
        LUXAttribute::Named(LUXNamedAttribute::new("visible".to_owned(), None)),
        LUXAttribute::Spread(Expression::identifier("props".to_owned())),
    ];
    let children = vec![
        LUXChild::LUXElement(LUXElement::SelfClosingElement(LUXSelfClosingElement::new(
            "Leaf".to_owned(),
            Vec::new(),
        ))),
        LUXChild::LUXFragment(LUXFragment::new(vec![LUXChild::Expression(None)])),
        LUXChild::Expression(Some(Expression::True)),
        LUXChild::ExpandedExpression(Expression::VariableArguments),
    ];
    Expression::LUX(Box::new(LUXExpression::LUXElement(LUXElement::Element(
        LUXOpenCloseElement::new("Frame".to_owned(), attributes, children),
    ))))
}

/// A block with a node of every kind.
fn every_kind() -> Block {
    let table = TableExpression::new(vec![
        TableEntry::Field("a".to_owned(), Expression::Nil),
        TableEntry::Index(Expression::True, Expression::False),
        TableEntry::Value(number("1")),
    ]);
    let field = FieldExpression::new(Prefix::from_name("t".to_owned()), "x".to_owned());
    let index = IndexExpression::new(
        Prefix::Parenthese(Box::new(ParentheseExpression::new(Expression::Table(table)))),
        Expression::String(StringExpression::new("k".to_owned())),
    );
    let binary = BinaryExpression::new(
        BinaryOperator::Plus,
        Expression::Unary(Box::new(UnaryExpression::new(UnaryOperator::Minus, number("2")))),
        Expression::Parenthese(Box::new(ParentheseExpression::new(Expression::Identifier(name("n"))))),
    );
    let assign = AssignStatement::new(
        vec![
            Variable::Identifier(name("a")),
            Variable::Field(FieldExpression::new(Prefix::from_name("t".to_owned()), "y".to_owned())),
            Variable::Index(IndexExpression::new(Prefix::from_name("t".to_owned()), number("1"))),
        ],
        vec![Expression::Field(Box::new(field)), Expression::Index(Box::new(index))],
    );
    let function = FunctionExpression::new(
        Block::default().with_last_statement(LastStatement::Return(vec![Expression::Binary(Box::new(binary))])),
        vec!["n".to_owned()],
        false,
    );
    let local = LocalAssignStatement::from_variable(name("f"))
        .with_variable(name("g"))
        .with_value(Expression::Function(function));
    let method_call = FunctionCall::new(
        Prefix::Call(Box::new(call("get", Arguments::String(StringExpression::new("it".to_owned()))))),
        Arguments::Table(TableExpression::default()),
        Some("run".to_owned()),
    );
    let if_statement = IfStatement::create(Expression::True, Block::default())
        .with_branch(Expression::False, Block::default().with_last_statement(LastStatement::Break))
        .with_else_block(Block::default());
    Block::default()
        .with_statement(assign)
        .with_statement(local)
        .with_statement(Statement::Call(method_call))
        .with_statement(Statement::Call(call("show", Arguments::Tuple(vec![markup()]))))
        .with_statement(DoStatement::new(Block::default().with_statement(if_statement)))
        .with_statement(FunctionStatement::new(
            FunctionName::new(name("m"), vec!["a".to_owned()], Some("b".to_owned())),
            Block::default(),
            Vec::new(),
            true,
        ))
        .with_statement(GenericForStatement::new(
            vec!["k".to_owned(), "v".to_owned()],
            vec![Expression::Call(Box::new(call("pairs", Arguments::Tuple(vec![Expression::identifier("t".to_owned())]))))],
            Block::default(),
        ))
        .with_statement(LocalFunctionStatement::from_name("h".to_owned(), Block::default()))
        .with_statement(NumericForStatement::new(
            "i".to_owned(),
            number("1"),
            number("10"),
            Some(number("2")),
            Block::default(),
        ))
        .with_statement(RepeatStatement::new(Block::default(), Expression::True))
        .with_statement(WhileStatement::new(Block::default(), Expression::False))
        .with_last_statement(LastStatement::Return(vec![Expression::Nil]))
}

#[test]
fn walk_of_a_small_block_calls_the_hooks_in_order() {
    let block = Block::default()
        .with_statement(WhileStatement::new(
            Block::default().with_last_statement(LastStatement::Break),
            Expression::Parenthese(Box::new(ParentheseExpression::new(Expression::True))),
        ))
        .with_last_statement(LastStatement::Return(vec![number("1")]));
    let mut reader = Reader::default();

    DefaultVisitor::visit_block(&block, &mut reader);

    assert_eq!(
        reader.calls,
        vec![
            "process_block",
            "process_statement",
            "process_while_statement",
            "process_expression",
            "process_parenthese_expression",
            "process_expression",
            "process_block",
            "process_last_statement",
            "process_last_statement",
            "process_expression",
            "process_number_expression",
        ]
    );
}

#[test]
fn walk_of_a_call_visits_prefix_then_arguments() {
    let mut statement = Statement::Call(call(
        "print",
        Arguments::Tuple(vec![Expression::String(StringExpression::new("hi".to_owned()))]),
    ));
    let mut watcher = Watcher::default();

    DefaultVisitorMut::visit_statement(&mut statement, &mut watcher);

    assert_eq!(
        watcher.calls,
        vec![
            "process_statement",
            "process_function_call",
            "process_prefix_expression",
            "process_variable_expression",
            "process_expression",
            "process_string_expression",
        ]
    );
}

#[test]
fn both_walkers_call_the_same_hooks() {
    let mut block = every_kind();
    let mut reader = Reader::default();
    let mut watcher = Watcher::default();

    DefaultVisitor::visit_block(&block, &mut reader);
    DefaultVisitorMut::visit_block(&mut block, &mut watcher);

    assert_eq!(reader.calls, watcher.calls);
    for (hook, _, _) in HOOKS {
        assert!(reader.calls.contains(&hook), "{} was not called", hook);
    }
}

#[test]
fn walk_that_changes_nothing_leaves_the_block() {
    let mut block = every_kind();
    let mut watcher = Watcher::default();

    DefaultVisitorMut::visit_block(&mut block, &mut watcher);

    assert_eq!(block, every_kind());
}

#[test]
fn each_node_is_met_once() {
    let block = every_kind();
    let mut counter = NodeCounter::new();
    let mut reader = Reader::default();

    DefaultVisitor::visit_block(&block, &mut counter);
    DefaultVisitor::visit_block(&block, &mut reader);

    let count = |hook: &str| reader.calls.iter().filter(|call| **call == hook).count();
    assert_eq!(counter.block_count, 12);
    assert_eq!(counter.block_count, count("process_block"));
    assert_eq!(counter.expression_count, count("process_expression"));
    assert_eq!(counter.variable_count, count("process_variable_expression"));
    assert_eq!(counter.function_call_count, 4);
    assert_eq!(counter.assign_count, 1);
    assert_eq!(counter.do_count, 1);
    assert_eq!(counter.function_count, 1);
    assert_eq!(counter.generic_for_count, 1);
    assert_eq!(counter.if_count, 1);
    assert_eq!(counter.local_assign_count, 1);
    assert_eq!(counter.local_function_count, 1);
    assert_eq!(counter.numeric_for_count, 1);
    assert_eq!(counter.repeat_count, 1);
    assert_eq!(counter.while_count, 1);
    assert_eq!(count("process_statement"), 12);
    assert_eq!(count("process_last_statement"), 3);
    assert_eq!(count("process_lux_child"), 5);
    assert_eq!(count("process_lux_attribute"), 3);
    assert_eq!(count("process_parenthese_expression"), 2);
}

#[test]
fn local_assign_variables_are_not_visited() {
    let mut block = Block::default().with_statement(
        LocalAssignStatement::from_variable(name("a"))
            .with_variable(name("b"))
            .with_value(Expression::True),
    );
    let mut watcher = Watcher::default();

    DefaultVisitorMut::visit_block(&mut block, &mut watcher);

    assert_eq!(
        watcher.calls,
        vec![
            "process_block",
            "process_statement",
            "process_local_assign_statement",
            "process_expression",
        ]
    );
}

const HOOKS: [(&str, &str, &str); 34] = [
    ("process_block", "Block", "block"),
    ("process_statement", "Statement", "statement"),
    ("process_function_call", "FunctionCall", "call"),
    ("process_assign_statement", "AssignStatement", "statement"),
    ("process_do_statement", "DoStatement", "statement"),
    ("process_function_statement", "FunctionStatement", "statement"),
    ("process_generic_for_statement", "GenericForStatement", "statement"),
    ("process_if_statement", "IfStatement", "statement"),
    ("process_last_statement", "LastStatement", "statement"),
    ("process_local_assign_statement", "LocalAssignStatement", "statement"),
    ("process_local_function_statement", "LocalFunctionStatement", "statement"),
    ("process_numeric_for_statement", "NumericForStatement", "statement"),
    ("process_repeat_statement", "RepeatStatement", "statement"),
    ("process_while_statement", "WhileStatement", "statement"),
    ("process_expression", "Expression", "expression"),
    ("process_binary_expression", "BinaryExpression", "binary"),
    ("process_field_expression", "FieldExpression", "field"),
    ("process_function_expression", "FunctionExpression", "function"),
    ("process_variable_expression", "Identifier", "variable"),
    ("process_index_expression", "IndexExpression", "index"),
    ("process_number_expression", "NumberExpression", "number"),
    ("process_prefix_expression", "Prefix", "prefix"),
    ("process_parenthese_expression", "ParentheseExpression", "parenthese"),
    ("process_string_expression", "StringExpression", "string"),
    ("process_table_expression", "TableExpression", "table"),
    ("process_unary_expression", "UnaryExpression", "unary"),
    ("process_lux_expression", "LUXExpression", "lux"),
    ("process_lux_element", "LUXElement", "element"),
    ("process_lux_open_close_element", "LUXOpenCloseElement", "element"),
    ("process_lux_self_closing_element", "LUXSelfClosingElement", "element"),
    ("process_lux_fragment", "LUXFragment", "fragment"),
    ("process_lux_child", "LUXChild", "child"),
    ("process_lux_attribute", "LUXAttribute", "attribute"),
    ("process_lux_attribute_value", "LUXAttributeValue", "value"),
];
