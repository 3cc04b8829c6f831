use darklua::nodes::block::Block;
use darklua::nodes::expressions::{
    Arguments, Expression, FunctionCall, StringExpression, TableExpression,
};
use darklua::nodes::local_assign::LocalAssignStatement;
use darklua::nodes::statements::{DoStatement, LastStatement, Statement};
use darklua::nodes::token::Identifier;
use darklua::rules::call_parens::RemoveFunctionCallParens;
use darklua::rules::configuration_error::RuleConfigurationError;
use darklua::rules::configured::ConfiguredRule;
use darklua::rules::empty_do::RemoveEmptyDo;
use darklua::rules::registry::{get_default_rules, KnownRule};
use darklua::rules::rule_property::{RuleProperties, RulePropertyValue};
use darklua::rules::serialization::{
    deserialize_rule, rule_from_name, serialize_rule, RuleObjectReader, RuleReadError,
    SerializedRule,
};
use darklua::rules::sorted::sort_by_name;
use darklua::rules::{
    verify_no_rule_properties, Context, FlawlessRule, Rule, RuleConfiguration,
};

fn string(text: &str) -> Expression {
    Expression::String(StringExpression::new(text.to_owned()))
}

fn call_with(arguments: Arguments) -> Statement {
    Statement::Call(FunctionCall::from_name("print".to_owned()).with_arguments(arguments))
}

fn arguments_of(block: &Block, index: usize) -> &Arguments {
    match &block.get_statements()[index] {
        Statement::Call(call) => call.get_arguments(),
        other => panic!("unexpected statement {:?}", other),
    }
}

#[test]
fn verify_no_rule_properties_is_ok_when_empty() {
    let empty_properties = RuleProperties::default();

    assert_eq!(verify_no_rule_properties(&empty_properties), Ok(()));
}

#[test]
fn verify_no_rule_properties_is_unexpected_rule_err() {
    let mut properties = RuleProperties::default();
    let some_rule_name = "rule name";
    properties.insert(some_rule_name.to_owned(), RulePropertyValue::Nothing);

    assert_eq!(
        verify_no_rule_properties(&properties),
        Err(RuleConfigurationError::UnexpectedProperty(
            some_rule_name.to_owned()
        ))
    );
}

#[test]
fn serialize_default_rule() {
    let rule = RemoveFunctionCallParens::default();

    assert_eq!(
        serialize_rule(&rule),
        SerializedRule::Name("remove_function_call_parens".to_owned())
    );
}

#[test]
fn snapshot_default_rules() {
    let rules = get_default_rules();
    let names: Vec<SerializedRule> = rules
        .into_iter()
        .map(|rule| serialize_rule(&ConfiguredRule::new(rule)))
        .collect();
    let expected: Vec<SerializedRule> = [
        "remove_spaces",
        "remove_comments",
        "compute_expression",
        "remove_unused_if_branch",
        "remove_unused_while",
        "remove_empty_do",
        "remove_method_definition",
        "convert_index_to_field",
        "convert_local_function_to_assign",
        "group_local_assignment",
        "rename_variables",
        "remove_function_call_parens",
    ]
    .iter()
    .map(|name| SerializedRule::Name(name.to_string()))
    .collect();

    assert_eq!(names, expected);
}

#[test]
fn call_with_one_string_loses_its_parentheses() {
    let mut block = Block::default().with_statement(call_with(Arguments::Tuple(vec![string("hi")])));

    RemoveFunctionCallParens::default().flawless_process(&mut block, &mut Context::default());

    assert_eq!(
        arguments_of(&block, 0),
        &Arguments::String(StringExpression::new("hi".to_owned()))
    );
}

#[test]
fn call_with_one_table_loses_its_parentheses() {
    let mut block = Block::default().with_statement(call_with(Arguments::Tuple(vec![
        Expression::Table(TableExpression::default()),
    ])));

    RemoveFunctionCallParens::default().flawless_process(&mut block, &mut Context::default());

    assert_eq!(arguments_of(&block, 0), &Arguments::Table(TableExpression::default()));
}

#[test]
fn call_with_other_arguments_keeps_its_parentheses() {
    let mut block = Block::default()
        .with_statement(call_with(Arguments::Tuple(vec![string("a"), string("b")])))
        .with_statement(call_with(Arguments::Tuple(vec![Expression::True])))
        .with_statement(call_with(Arguments::Tuple(Vec::new())));

    RemoveFunctionCallParens::default().flawless_process(&mut block, &mut Context::default());

    assert_eq!(arguments_of(&block, 0), &Arguments::Tuple(vec![string("a"), string("b")]));
    assert_eq!(arguments_of(&block, 1), &Arguments::Tuple(vec![Expression::True]));
    assert_eq!(arguments_of(&block, 2), &Arguments::Tuple(Vec::new()));
}

#[test]
fn nested_call_loses_its_parentheses() {
    let inner = FunctionCall::from_name("f".to_owned())
        .with_arguments(Arguments::Tuple(vec![string("x")]));
    let mut block = Block::default().with_statement(call_with(Arguments::Tuple(vec![
        Expression::Call(Box::new(inner)),
        Expression::Nil,
    ])));

    RemoveFunctionCallParens::default().flawless_process(&mut block, &mut Context::default());

    let expected_inner = FunctionCall::from_name("f".to_owned())
        .with_arguments(Arguments::String(StringExpression::new("x".to_owned())));
    assert_eq!(
        arguments_of(&block, 0),
        &Arguments::Tuple(vec![Expression::Call(Box::new(expected_inner)), Expression::Nil])
    );
}

#[test]
fn process_of_a_flawless_rule_is_ok() {
    let mut block = Block::default().with_statement(call_with(Arguments::Tuple(vec![string("hi")])));

    let result = RemoveFunctionCallParens::default().process(&mut block, &mut Context::default());

    assert_eq!(result, Ok(()));
    assert_eq!(
        arguments_of(&block, 0),
        &Arguments::String(StringExpression::new("hi".to_owned()))
    );
}

#[test]
fn empty_do_is_removed() {
    let mut block = Block::default().with_statement(DoStatement::default());

    RemoveEmptyDo::default().flawless_process(&mut block, &mut Context::default());

    assert!(block.is_empty());
}

#[test]
fn do_with_statements_stays() {
    let inner = Block::default().with_statement(call_with(Arguments::Tuple(Vec::new())));
    let mut block = Block::default()
        .with_statement(DoStatement::default())
        .with_statement(DoStatement::new(inner))
        .with_statement(DoStatement::default())
        .with_last_statement(LastStatement::Break);

    RemoveEmptyDo::default().flawless_process(&mut block, &mut Context::default());

    let expected_inner = Block::default().with_statement(call_with(Arguments::Tuple(Vec::new())));
    let expected = Block::default()
        .with_statement(DoStatement::new(expected_inner))
        .with_last_statement(LastStatement::Break);
    assert_eq!(block, expected);
}

#[test]
fn do_that_only_returns_stays() {
    let inner = Block::default().with_last_statement(LastStatement::Return(Vec::new()));
    let mut block = Block::default().with_statement(DoStatement::new(inner));

    RemoveEmptyDo::default().flawless_process(&mut block, &mut Context::default());

    assert_eq!(block.get_statements().len(), 1);
}

#[test]
fn empty_do_in_a_nested_block_is_removed() {
    let inner = Block::default()
        .with_statement(DoStatement::default())
        .with_statement(call_with(Arguments::Tuple(Vec::new())));
    let mut block = Block::default().with_statement(DoStatement::new(inner));

    RemoveEmptyDo::default().flawless_process(&mut block, &mut Context::default());

    let expected_inner = Block::default().with_statement(call_with(Arguments::Tuple(Vec::new())));
    assert_eq!(block, Block::default().with_statement(DoStatement::new(expected_inner)));
}

#[test]
fn do_that_holds_only_empty_do_is_removed() {
    let innermost = Block::default().with_statement(DoStatement::default());
    let inner = Block::default().with_statement(DoStatement::new(innermost));
    let mut block = Block::default()
        .with_statement(DoStatement::new(inner))
        .with_statement(call_with(Arguments::Tuple(Vec::new())));

    RemoveEmptyDo::default().flawless_process(&mut block, &mut Context::default());

    assert_eq!(
        block,
        Block::default().with_statement(call_with(Arguments::Tuple(Vec::new())))
    );
}

#[test]
fn second_pass_changes_nothing() {
    let nested = Block::default()
        .with_statement(DoStatement::new(Block::default().with_statement(DoStatement::default())))
        .with_statement(call_with(Arguments::Tuple(vec![string("hi")])));
    let mut block = Block::default()
        .with_statement(DoStatement::new(nested))
        .with_statement(call_with(Arguments::Tuple(vec![Expression::Call(Box::new(
            FunctionCall::from_name("f".to_owned())
                .with_arguments(Arguments::Tuple(vec![Expression::Table(TableExpression::default())])),
        ))])));
    let mut context = Context::default();
    RemoveEmptyDo::default().flawless_process(&mut block, &mut context);
    RemoveFunctionCallParens::default().flawless_process(&mut block, &mut context);

    let mut again = Block::default()
        .with_statement(DoStatement::new(
            Block::default().with_statement(call_with(Arguments::String(StringExpression::new(
                "hi".to_owned(),
            )))),
        ))
        .with_statement(call_with(Arguments::Tuple(vec![Expression::Call(Box::new(
            FunctionCall::from_name("f".to_owned()).with_arguments(Arguments::Table(TableExpression::default())),
        ))])));
    assert_eq!(block, again);
    RemoveEmptyDo::default().flawless_process(&mut again, &mut context);
    RemoveFunctionCallParens::default().flawless_process(&mut again, &mut context);

    assert_eq!(block, again);
}

#[test]
fn rules_keep_an_empty_block_empty() {
    let mut block = Block::default();

    RemoveEmptyDo::default().flawless_process(&mut block, &mut Context::default());
    RemoveFunctionCallParens::default().flawless_process(&mut block, &mut Context::default());

    assert!(block.is_empty());
}

#[test]
fn rules_keep_a_lone_break() {
    let mut block = Block::default().with_last_statement(LastStatement::Break);

    RemoveEmptyDo::default().flawless_process(&mut block, &mut Context::default());
    RemoveFunctionCallParens::default().flawless_process(&mut block, &mut Context::default());

    assert_eq!(block, Block::default().with_last_statement(LastStatement::Break));
}

#[test]
fn rules_keep_the_values_of_a_local_assign() {
    let fewer_values = LocalAssignStatement::from_variable(Identifier::new("a".to_owned()))
        .with_variable(Identifier::new("b".to_owned()))
        .with_value(Expression::True);
    let more_values = LocalAssignStatement::from_variable(Identifier::new("c".to_owned()))
        .with_value(Expression::True)
        .with_value(string("extra"))
        .with_value(Expression::Nil);
    let mut block = Block::default()
        .with_statement(fewer_values)
        .with_statement(more_values);

    RemoveEmptyDo::default().flawless_process(&mut block, &mut Context::default());
    RemoveFunctionCallParens::default().flawless_process(&mut block, &mut Context::default());

    match (&block.get_statements()[0], &block.get_statements()[1]) {
        (Statement::LocalAssign(first), Statement::LocalAssign(second)) => {
            assert_eq!(first.variable_count(), 2);
            assert_eq!(first.value_count(), 1);
            assert_eq!(second.variable_count(), 1);
            assert_eq!(second.value_count(), 3);
            assert_eq!(second.get_values()[1], string("extra"));
        }
        other => panic!("unexpected statements {:?}", other),
    }
}

#[test]
fn rule_names() {
    assert_eq!(RemoveFunctionCallParens::default().get_name(), "remove_function_call_parens");
    assert_eq!(RemoveEmptyDo::default().get_name(), "remove_empty_do");
    assert!(!RemoveEmptyDo::default().has_properties());
    assert_eq!(KnownRule::from_name("rename_variables"), Ok(KnownRule::RenameVariables));
    assert_eq!(KnownRule::from_name("virtual_execution"), Ok(KnownRule::VirtualExecution));
    assert_eq!(KnownRule::from_name("inject_global_value"), Ok(KnownRule::InjectGlobalValue));
    assert_eq!(KnownRule::from_name("oops"), Err("oops".to_owned()));
    for rule in get_default_rules() {
        assert_eq!(KnownRule::from_name(rule.get_name()), Ok(rule));
    }
}

#[test]
fn rule_without_properties_refuses_any() {
    let mut rule = RemoveEmptyDo::default();
    let mut properties = RuleProperties::new();
    properties.insert("globals".to_owned(), RulePropertyValue::Bool(true));

    assert_eq!(
        rule.configure(properties),
        Err(RuleConfigurationError::UnexpectedProperty("globals".to_owned()))
    );
    assert_eq!(rule.configure(RuleProperties::new()), Ok(()));
}

#[test]
fn configuration_with_two_rules() {
    let first = deserialize_rule(SerializedRule::Name("remove_empty_do".to_owned())).unwrap();
    let second = deserialize_rule(SerializedRule::Object {
        rule: "rename_variables".to_owned(),
        properties: vec![(
            "globals".to_owned(),
            RulePropertyValue::StringList(vec!["_G".to_owned()]),
        )],
    })
    .unwrap();

    assert_eq!(first.rule, KnownRule::RemoveEmptyDo);
    assert!(!first.has_properties());
    assert_eq!(second.rule, KnownRule::RenameVariables);
    assert!(second.has_properties());
    assert_eq!(
        serialize_rule(&first),
        SerializedRule::Name("remove_empty_do".to_owned())
    );
    assert_eq!(
        serialize_rule(&second),
        SerializedRule::Object {
            rule: "rename_variables".to_owned(),
            properties: vec![(
                "globals".to_owned(),
                RulePropertyValue::StringList(vec!["_G".to_owned()]),
            )],
        }
    );
}

#[test]
fn written_then_read_is_the_same_rule() {
    let mut properties = RuleProperties::new();
    properties.insert("value".to_owned(), RulePropertyValue::Usize(3));
    properties.insert("identifier".to_owned(), RulePropertyValue::String("DEBUG".to_owned()));
    let mut rule = ConfiguredRule::new(KnownRule::InjectGlobalValue);
    assert_eq!(rule.configure(properties), Ok(()));

    let serialized = serialize_rule(&rule);
    assert_eq!(
        serialized,
        SerializedRule::Object {
            rule: "inject_global_value".to_owned(),
            properties: vec![
                ("identifier".to_owned(), RulePropertyValue::String("DEBUG".to_owned())),
                ("value".to_owned(), RulePropertyValue::Usize(3)),
            ],
        }
    );
    let read = deserialize_rule(serialized).unwrap();

    assert_eq!(read.rule, KnownRule::InjectGlobalValue);
    assert_eq!(
        read.get_properties().get("identifier"),
        Some(&RulePropertyValue::String("DEBUG".to_owned()))
    );
    assert_eq!(read.get_properties().get("value"), Some(&RulePropertyValue::Usize(3)));
    assert_eq!(read.get_properties().len(), 2);
}

#[test]
fn reading_reports_what_is_wrong() {
    assert_eq!(
        rule_from_name("nope"),
        Err(RuleReadError::InvalidRuleName("nope".to_owned()))
    );
    assert_eq!(
        rule_from_name("inject_global_value"),
        Err(RuleReadError::Configuration(RuleConfigurationError::MissingProperty(
            "identifier".to_owned()
        )))
    );
    assert_eq!(
        deserialize_rule(SerializedRule::Object {
            rule: "rename_variables".to_owned(),
            properties: vec![("globals".to_owned(), RulePropertyValue::Bool(true))],
        }),
        Err(RuleReadError::Configuration(RuleConfigurationError::StringListExpected(
            "globals".to_owned()
        )))
    );
    assert_eq!(
        deserialize_rule(SerializedRule::Object {
            rule: "inject_global_value".to_owned(),
            properties: vec![("identifier".to_owned(), RulePropertyValue::Usize(1))],
        }),
        Err(RuleReadError::Configuration(RuleConfigurationError::StringExpected(
            "identifier".to_owned()
        )))
    );
    assert_eq!(
        deserialize_rule(SerializedRule::Object {
            rule: "inject_global_value".to_owned(),
            properties: vec![
                ("identifier".to_owned(), RulePropertyValue::String("a".to_owned())),
                ("value".to_owned(), RulePropertyValue::StringList(Vec::new())),
            ],
        }),
        Err(RuleReadError::Configuration(RuleConfigurationError::UnexpectedValueType(
            "value".to_owned()
        )))
    );
    assert_eq!(
        deserialize_rule(SerializedRule::Object {
            rule: "remove_spaces".to_owned(),
            properties: vec![("width".to_owned(), RulePropertyValue::Usize(1))],
        }),
        Err(RuleReadError::Configuration(RuleConfigurationError::UnexpectedProperty(
            "width".to_owned()
        )))
    );
    assert_eq!(
        deserialize_rule(SerializedRule::Object {
            rule: "rename_variables".to_owned(),
            properties: vec![
                ("globals".to_owned(), RulePropertyValue::StringList(Vec::new())),
                ("globals".to_owned(), RulePropertyValue::StringList(Vec::new())),
            ],
        }),
        Err(RuleReadError::DuplicateProperty("globals".to_owned()))
    );
}

#[test]
fn reader_takes_the_rule_key_once() {
    let mut reader = RuleObjectReader::new();
    assert!(RuleObjectReader::is_rule_key("rule"));
    assert!(!RuleObjectReader::is_rule_key("rules"));

    assert_eq!(reader.read_rule_name("remove_empty_do".to_owned()), Ok(()));
    assert_eq!(
        reader.read_rule_name("remove_spaces".to_owned()),
        Err(RuleReadError::DuplicateField("rule".to_owned()))
    );
    assert_eq!(reader.finish().map(|rule| rule.rule), Ok(KnownRule::RemoveEmptyDo));
}

#[test]
fn reader_without_rule_key_misses_it() {
    let mut reader = RuleObjectReader::new();
    assert_eq!(
        reader.read_property("globals".to_owned(), RulePropertyValue::Nothing),
        Ok(())
    );

    assert_eq!(
        reader.finish(),
        Err(RuleReadError::MissingField("rule".to_owned()))
    );
}

#[test]
fn properties_hold_one_value_by_name() {
    let mut properties = RuleProperties::new();
    assert!(properties.is_empty());
    assert_eq!(properties.insert("a".to_owned(), RulePropertyValue::Usize(1)), None);
    assert_eq!(properties.insert("b".to_owned(), RulePropertyValue::Bool(false)), None);
    assert_eq!(
        properties.insert("a".to_owned(), RulePropertyValue::Usize(2)),
        Some(RulePropertyValue::Usize(1))
    );

    assert_eq!(properties.len(), 2);
    assert_eq!(properties.get("a"), Some(&RulePropertyValue::Usize(2)));
    assert_eq!(properties.get("c"), None);
    assert!(properties.contains_key("b"));
    assert_eq!(properties.duplicate(), properties);
}

#[test]
fn entries_are_sorted_by_name() {
    let entries = vec![
        ("b".to_owned(), RulePropertyValue::Usize(2)),
        ("ab".to_owned(), RulePropertyValue::Usize(1)),
        ("a".to_owned(), RulePropertyValue::Usize(0)),
        ("c".to_owned(), RulePropertyValue::Usize(3)),
    ];

    let names: Vec<String> = sort_by_name(entries).into_iter().map(|entry| entry.0).collect();

    assert_eq!(names, vec!["a", "ab", "b", "c"]);
}

#[test]
fn context_holds_the_path() {
    assert_eq!(Context::new("src/init.lua".to_owned()).get_current_path(), "src/init.lua");
    assert_eq!(Context::default().get_current_path(), "");
}
