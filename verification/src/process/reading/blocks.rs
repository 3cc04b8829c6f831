//! Blocks, and the statements in them.
use vstd::prelude::*;
use crate::nodes::block::Block;
use crate::nodes::statements::{LastStatement, Statement};
use crate::nodes::model::{
    expression_trees, list_tree, optional_last_statement_tree, statement_trees,
};
use crate::nodes::tree::lemma_child_is_shallower;
use crate::nodes::unfold::{lemma_block_tree, lemma_last_statement_tree, lemma_statement_tree};
use crate::process::node_processor::NodeProcessor;
use crate::process::reading::expressions::visit_function_call;
use crate::process::reading::lists::{
    visit_expressions, visit_optional_last_statement, visit_statements,
};
use crate::process::reading::statements::{
    visit_assign_statement, visit_do_statement, visit_function_statement, visit_generic_for,
    visit_if_statement, visit_local_assign, visit_local_function, visit_numeric_for,
    visit_repeat_statement, visit_while_statement,
};
use crate::process::trace::{lemma_seen_1, lemma_seen_2, lemma_seen_leaf, seen};

verus! {

/// Walks a block: the block itself, its statements in order, then its last statement.
pub fn visit_block<P: NodeProcessor>(block: &Block, processor: &mut P)
    ensures
        seen(*old(processor), block@, *final(processor)),
    decreases block@.depth(), 1nat,
{
    let ghost node = block@;
    proof {
        lemma_block_tree(*block);
    }
    processor.process_block(block);
    let ghost handed = *processor;
    proof {
        assert(node.children[0] == list_tree(statement_trees(block.statements@)));
        lemma_child_is_shallower(node, 0);
    }
    visit_statements(&block.statements, processor);
    let ghost after_first = *processor;
    proof {
        assert(node.children[1] == optional_last_statement_tree(block.last_statement));
        lemma_child_is_shallower(node, 1);
    }
    visit_optional_last_statement(&block.last_statement, processor);
    proof {
        lemma_seen_2(*old(processor), node, handed, after_first, *processor);
    }
}

/// Walks a last statement: the statement itself, then the values of a return.
pub fn visit_last_statement<P: NodeProcessor>(statement: &LastStatement, processor: &mut P)
    ensures
        seen(*old(processor), statement@, *final(processor)),
    decreases statement@.depth(), 1nat,
{
    let ghost node = statement@;
    proof {
        lemma_last_statement_tree(*statement);
    }
    processor.process_last_statement(statement);
    let ghost handed = *processor;
    match statement {
        LastStatement::Break => {
            proof {
                lemma_seen_leaf(*old(processor), node, handed);
            }
        },
        LastStatement::Return(values) => {
            proof {
                assert(node.children[0] == list_tree(expression_trees(values@)));
                lemma_child_is_shallower(node, 0);
            }
            visit_expressions(values, processor);
            proof {
                lemma_seen_1(*old(processor), node, handed, *processor);
            }
        },
    }
}

/// Walks a statement: the statement itself, then what it is.
pub fn visit_statement<P: NodeProcessor>(statement: &Statement, processor: &mut P)
    ensures
        seen(*old(processor), statement@, *final(processor)),
    decreases statement@.depth(), 1nat,
{
    let ghost node = statement@;
    proof {
        lemma_statement_tree(*statement);
    }
    processor.process_statement(statement);
    let ghost handed = *processor;
    match statement {
        Statement::Assign(inner) => {
            proof {
                assert(node.children[0] == inner@);
                lemma_child_is_shallower(node, 0);
            }
            visit_assign_statement(inner, processor);
            proof {
                lemma_seen_1(*old(processor), node, handed, *processor);
            }
        },
        Statement::Do(inner) => {
            proof {
                assert(node.children[0] == inner@);
                lemma_child_is_shallower(node, 0);
            }
            visit_do_statement(inner, processor);
            proof {
                lemma_seen_1(*old(processor), node, handed, *processor);
            }
        },
        Statement::Call(inner) => {
            proof {
                assert(node.children[0] == inner@);
                lemma_child_is_shallower(node, 0);
            }
            visit_function_call(inner, processor);
            proof {
                lemma_seen_1(*old(processor), node, handed, *processor);
            }
        },
        Statement::Function(inner) => {
            proof {
                assert(node.children[0] == inner@);
                lemma_child_is_shallower(node, 0);
            }
            visit_function_statement(inner, processor);
            proof {
                lemma_seen_1(*old(processor), node, handed, *processor);
            }
        },
        Statement::GenericFor(inner) => {
            proof {
                assert(node.children[0] == inner@);
                lemma_child_is_shallower(node, 0);
            }
            visit_generic_for(inner, processor);
            proof {
                lemma_seen_1(*old(processor), node, handed, *processor);
            }
        },
        Statement::If(inner) => {
            proof {
                assert(node.children[0] == inner@);
                lemma_child_is_shallower(node, 0);
            }
            visit_if_statement(inner, processor);
            proof {
                lemma_seen_1(*old(processor), node, handed, *processor);
            }
        },
        Statement::LocalAssign(inner) => {
            proof {
                assert(node.children[0] == inner@);
                lemma_child_is_shallower(node, 0);
            }
            visit_local_assign(inner, processor);
            proof {
                lemma_seen_1(*old(processor), node, handed, *processor);
            }
        },
        Statement::LocalFunction(inner) => {
            proof {
                assert(node.children[0] == inner@);
                lemma_child_is_shallower(node, 0);
            }
            visit_local_function(inner, processor);
            proof {
                lemma_seen_1(*old(processor), node, handed, *processor);
            }
        },
        Statement::NumericFor(inner) => {
            proof {
                assert(node.children[0] == inner@);
                lemma_child_is_shallower(node, 0);
            }
            visit_numeric_for(inner, processor);
            proof {
                lemma_seen_1(*old(processor), node, handed, *processor);
            }
        },
        Statement::Repeat(inner) => {
            proof {
                assert(node.children[0] == inner@);
                lemma_child_is_shallower(node, 0);
            }
            visit_repeat_statement(inner, processor);
            proof {
                lemma_seen_1(*old(processor), node, handed, *processor);
            }
        },
        Statement::While(inner) => {
            proof {
                assert(node.children[0] == inner@);
                lemma_child_is_shallower(node, 0);
            }
            visit_while_statement(inner, processor);
            proof {
                lemma_seen_1(*old(processor), node, handed, *processor);
            }
        },
    }
}

} // verus!
