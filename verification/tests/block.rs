use darklua::nodes::block::Block;
use darklua::nodes::statements::{DoStatement, LastStatement};

#[test]
fn default_block_is_empty() {
    let block = Block::default();

    assert!(block.is_empty());
}

#[test]
fn is_empty_is_true_when_block_has_no_statements_or_last_statement() {
    let block = Block::new(Vec::new(), None);

    assert!(block.is_empty());
}

#[test]
fn is_empty_is_false_when_block_has_a_last_statement() {
    let block = Block::default().with_last_statement(LastStatement::Break);

    assert!(!block.is_empty());
}

#[test]
fn is_empty_is_false_when_block_a_statement() {
    let block = Block::default().with_statement(DoStatement::default());

    assert!(!block.is_empty());
}

#[test]
fn clear_removes_statements() {
    let mut block = Block::default().with_statement(DoStatement::default());
    block.clear();

    assert!(block.is_empty());
}

#[test]
fn clear_removes_last_statement() {
    let mut block = Block::default().with_last_statement(LastStatement::Break);
    block.clear();

    assert!(block.is_empty());
}
