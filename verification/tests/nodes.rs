use darklua::nodes::block::Block;
use darklua::nodes::expressions::Expression;
use darklua::nodes::local_assign::{LocalAssignStatement, LocalAssignTokens};
use darklua::nodes::statements::{DoStatement, LastStatement, Statement, WhileStatement};
use darklua::nodes::token::{Identifier, Token, Trivia, TriviaKind};

fn comment(text: &str) -> Trivia {
    Trivia::new(TriviaKind::Comment, text.to_owned())
}

fn space(text: &str) -> Trivia {
    Trivia::new(TriviaKind::Whitespace, text.to_owned())
}

fn token(content: &str) -> Token {
    Token::from_content(content.to_owned())
        .with_leading_trivia(space(" "))
        .with_leading_trivia(comment("--a"))
        .with_leading_trivia(space("\n"))
        .with_trailing_trivia(comment("--b"))
        .with_trailing_trivia(space(" "))
}

fn name(text: &str) -> Identifier {
    Identifier::new(text.to_owned())
}

#[test]
fn token_without_comments_keeps_whitespace() {
    let mut cleared = token("local");
    cleared.clear_comments();

    assert_eq!(
        cleared,
        Token::from_content("local".to_owned())
            .with_leading_trivia(space(" "))
            .with_leading_trivia(space("\n"))
            .with_trailing_trivia(space(" "))
    );
}

#[test]
fn token_without_whitespace_keeps_comments() {
    let mut cleared = token("local");
    cleared.clear_whitespaces();

    assert_eq!(
        cleared,
        Token::from_content("local".to_owned())
            .with_leading_trivia(comment("--a"))
            .with_trailing_trivia(comment("--b"))
    );
}

#[test]
fn local_assign_clears_all_its_tokens() {
    let tokens = LocalAssignTokens {
        local: token("local"),
        equal: Some(token("=")),
        variable_commas: vec![token(",")],
        value_commas: vec![token(","), token(",")],
    };
    let mut statement = LocalAssignStatement::from_variable(name("a").with_token(token("a")))
        .with_variable(name("b"))
        .with_value(Expression::True)
        .with_tokens(tokens);

    statement.clear_comments();
    statement.clear_whitespaces();

    let bare = |content: &str| Token::from_content(content.to_owned());
    assert_eq!(
        statement.get_tokens(),
        Some(&LocalAssignTokens {
            local: bare("local"),
            equal: Some(bare("=")),
            variable_commas: vec![bare(",")],
            value_commas: vec![bare(","), bare(",")],
        })
    );
    assert_eq!(statement.get_variable(0), Some(&name("a").with_token(bare("a"))));
    assert_eq!(statement.get_variable(1), Some(&name("b")));
    assert_eq!(statement.get_variable(2), None);
    assert_eq!(statement.value_count(), 1);
}

#[test]
fn local_assign_pairs_variables_with_values() {
    let mut statement = LocalAssignStatement::new(vec![name("a"), name("b")], vec![Expression::True]);

    assert!(statement.has_values());
    assert_eq!(statement.variable_count(), 2);
    assert_eq!(statement.get_assignment(0), Some((&name("a"), Some(&Expression::True))));
    assert_eq!(statement.get_assignment(1), Some((&name("b"), None)));
    assert_eq!(statement.get_assignment(2), None);

    statement.append_assignment(name("c"), Expression::False);
    statement.extend_values(vec![Expression::Nil]);
    let mut more_variables = vec![name("d")];
    let mut more_values = vec![Expression::VariableArguments];
    statement.append_variables(&mut more_variables);
    statement.append_values(&mut more_values);
    statement.mutate_values().push(Expression::Nil);

    assert!(more_variables.is_empty());
    assert!(more_values.is_empty());
    assert_eq!(statement.get_variables(), &vec![name("a"), name("b"), name("c"), name("d")]);
    assert_eq!(
        statement.into_assignments().1,
        vec![
            Expression::True,
            Expression::False,
            Expression::Nil,
            Expression::VariableArguments,
            Expression::Nil,
        ]
    );
}

#[test]
fn local_assign_without_values() {
    let mut statement = LocalAssignStatement::from_variable(name("a"));

    assert!(!statement.has_values());
    assert_eq!(statement.value_count(), 0);
    assert_eq!(statement.get_tokens(), None);

    statement.set_tokens(LocalAssignTokens {
        local: Token::from_content("local".to_owned()),
        equal: None,
        variable_commas: Vec::new(),
        value_commas: Vec::new(),
    });
    assert!(statement.get_tokens().is_some());
}

#[test]
fn filter_keeps_the_accepted_statements_in_order() {
    let mut block = Block::default()
        .with_statement(DoStatement::default())
        .with_statement(WhileStatement::new(Block::default(), Expression::True))
        .with_statement(DoStatement::default())
        .with_statement(WhileStatement::new(Block::default(), Expression::False))
        .with_last_statement(LastStatement::Break);

    block.filter_statements(|statement| !matches!(statement, Statement::Do(_)));

    assert_eq!(
        block,
        Block::default()
            .with_statement(WhileStatement::new(Block::default(), Expression::True))
            .with_statement(WhileStatement::new(Block::default(), Expression::False))
            .with_last_statement(LastStatement::Break)
    );
}

#[test]
fn filter_that_accepts_nothing_empties_the_statements() {
    let mut block = Block::default()
        .with_statement(DoStatement::default())
        .with_statement(DoStatement::default());

    block.filter_statements(|_| false);

    assert!(block.is_empty());
}

#[test]
fn block_parts_can_be_changed() {
    let mut block = Block::default().with_statement(DoStatement::default());

    block.mutate_statements().push(Statement::Do(DoStatement::default()));
    *block.mutate_last_statement() = Some(LastStatement::Break);
    assert_eq!(block.get_statements().len(), 2);
    assert_eq!(block.get_last_statement(), Some(&LastStatement::Break));

    let (statements, last_statement) = block.mutate_all_statements();
    statements.clear();
    *last_statement = None;
    assert!(block.is_empty());
}
