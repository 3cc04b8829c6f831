use darklua::nodes::block::Block;
use darklua::nodes::expressions::Expression;
use darklua::nodes::statements::{
    DoStatement, GenericForStatement, IfStatement, NumericForStatement, RepeatStatement,
    WhileStatement,
};
use darklua::process::node_counter::NodeCounter;
use darklua::process::visitors::{DefaultVisitor, NodeVisitor};

#[test]
fn visit_do_statement() {
    let mut counter = NodeCounter::new();
    let mut block = Block::default().with_statement(DoStatement::default());

    DefaultVisitor::visit_block(&mut block, &mut counter);

    assert_eq!(counter.block_count, 2);
    assert_eq!(counter.do_count, 1);
}

#[test]
fn visit_numeric_for_statement() {
    let mut counter = NodeCounter::new();
    let mut block = Block::default().with_statement(NumericForStatement::new(
        "i".to_owned(),
        Expression::True,
        Expression::True,
        None,
        Block::default(),
    ));

    DefaultVisitor::visit_block(&mut block, &mut counter);

    assert_eq!(counter.block_count, 2);
    assert_eq!(counter.expression_count, 2);
    assert_eq!(counter.numeric_for_count, 1);
}

#[test]
fn visit_generic_for_statement() {
    let mut counter = NodeCounter::new();
    let mut block = Block::default().with_statement(GenericForStatement::new(
        vec!["k".to_owned()],
        vec![Expression::True],
        Block::default(),
    ));

    DefaultVisitor::visit_block(&mut block, &mut counter);

    assert_eq!(counter.block_count, 2);
    assert_eq!(counter.expression_count, 1);
    assert_eq!(counter.generic_for_count, 1);
}

#[test]
fn visit_repeat_statement() {
    let mut counter = NodeCounter::new();
    let mut block =
        Block::default().with_statement(RepeatStatement::new(Block::default(), Expression::True));

    DefaultVisitor::visit_block(&mut block, &mut counter);

    assert_eq!(counter.block_count, 2);
    assert_eq!(counter.expression_count, 1);
    assert_eq!(counter.repeat_count, 1);
}

#[test]
fn visit_while_statement() {
    let mut counter = NodeCounter::new();
    let mut block =
        Block::default().with_statement(WhileStatement::new(Block::default(), Expression::True));

    DefaultVisitor::visit_block(&mut block, &mut counter);

    assert_eq!(counter.block_count, 2);
    assert_eq!(counter.expression_count, 1);
    assert_eq!(counter.while_count, 1);
}

#[test]
fn visit_if_statement() {
    let mut counter = NodeCounter::new();
    let mut block =
        Block::default().with_statement(IfStatement::create(Expression::True, Block::default()));

    DefaultVisitor::visit_block(&mut block, &mut counter);

    assert_eq!(counter.block_count, 2);
    assert_eq!(counter.expression_count, 1);
    assert_eq!(counter.if_count, 1);
}

#[test]
fn visit_if_statement_with_else() {
    let mut counter = NodeCounter::new();
    let if_statement =
        IfStatement::create(Expression::True, Block::default()).with_else_block(Block::default());

    let mut block = Block::default().with_statement(if_statement);

    DefaultVisitor::visit_block(&mut block, &mut counter);

    assert_eq!(counter.block_count, 3);
    assert_eq!(counter.expression_count, 1);
    assert_eq!(counter.if_count, 1);
}

#[test]
fn visit_if_statement_with_elseif_and_else() {
    let mut counter = NodeCounter::new();
    let if_statement = IfStatement::create(Expression::True, Block::default())
        .with_branch(Expression::False, Block::default())
        .with_else_block(Block::default());

    let mut block = Block::default().with_statement(if_statement);

    DefaultVisitor::visit_block(&mut block, &mut counter);

    assert_eq!(counter.block_count, 4);
    assert_eq!(counter.expression_count, 2);
    assert_eq!(counter.if_count, 1);
}
