//! Blocks, and the statements in them.
use vstd::prelude::*;
use crate::nodes::block::Block;
use crate::nodes::statements::{LastStatement, Statement};
use crate::nodes::model::{
    expression_trees, list_tree, optional_last_statement_tree, statement_trees,
};
use crate::nodes::tree::lemma_child_is_shallower;
use crate::nodes::unfold::{lemma_block_tree, lemma_last_statement_tree, lemma_statement_tree};
use crate::process::node_processor::NodeProcessorMut;
use crate::process::mutating::expressions::visit_function_call;
use crate::process::mutating::lists::{
    visit_expressions, visit_optional_last_statement, visit_statements,
};
use crate::process::mutating::statements::{
    visit_assign_statement, visit_do_statement, visit_function_statement, visit_generic_for,
    visit_if_statement, visit_local_assign, visit_local_function, visit_numeric_for,
    visit_repeat_statement, visit_while_statement,
};
use crate::process::walk::{lemma_walked_1, lemma_walked_2, lemma_walked_leaf, walked};

verus! {

/// Walks a block: the block itself, its statements in order, then its last statement.
pub fn visit_block<P: NodeProcessorMut>(block: &mut Block, processor: &mut P)
    ensures
        walked(*old(processor), old(block)@, *final(processor), final(block)@),
    decreases old(block)@.depth(), 1nat,
{
    proof {
        lemma_block_tree(*block);
    }
    processor.process_block(block);
    let ghost handed = *processor;
    let ghost node = block@;
    proof {
        lemma_block_tree(*block);
        assert(node.children[0] == list_tree(statement_trees(block.statements@)));
        lemma_child_is_shallower(node, 0);
    }
    visit_statements(&mut block.statements, processor);
    let ghost after_first = *processor;
    let ghost first = list_tree(statement_trees(block.statements@));
    proof {
        assert(node.children[1] == optional_last_statement_tree(block.last_statement));
        lemma_child_is_shallower(node, 1);
    }
    visit_optional_last_statement(&mut block.last_statement, processor);
    let ghost after_second = *processor;
    let ghost second = optional_last_statement_tree(block.last_statement);
    proof {
        lemma_block_tree(*block);
        assert(block@ == node.with_children(seq![first, second]));
        lemma_walked_2(*old(processor), old(block)@, handed, node, after_first, first, after_second, second);
    }
}

/// Walks a last statement: the statement itself, then the values of a return.
pub fn visit_last_statement<P: NodeProcessorMut>(statement: &mut LastStatement, processor: &mut P)
    ensures
        walked(*old(processor), old(statement)@, *final(processor), final(statement)@),
    decreases old(statement)@.depth(), 1nat,
{
    proof {
        lemma_last_statement_tree(*statement);
    }
    processor.process_last_statement(statement);
    let ghost handed = *processor;
    let ghost node = statement@;
    proof {
        lemma_last_statement_tree(*statement);
    }
    let ghost mut rebuilt = node;
    match statement {
        LastStatement::Break => {
            proof {
                lemma_walked_leaf(*old(processor), old(statement)@, handed, node);
                rebuilt = node;
            }
        },
        LastStatement::Return(values) => {
            proof {
                assert(node.children[0] == list_tree(expression_trees(values@)));
                lemma_child_is_shallower(node, 0);
            }
            visit_expressions(values, processor);
            let ghost after_first = *processor;
            let ghost first = list_tree(expression_trees(values@));
            proof {
                lemma_walked_1(*old(processor), old(statement)@, handed, node, after_first, first);
                rebuilt = node.with_children(seq![first]);
            }
        },
    }
    proof {
        lemma_last_statement_tree(*statement);
        assert(statement@ == rebuilt);
    }
}

/// Walks a statement: the statement itself, then what it is.
pub fn visit_statement<P: NodeProcessorMut>(statement: &mut Statement, processor: &mut P)
    ensures
        walked(*old(processor), old(statement)@, *final(processor), final(statement)@),
    decreases old(statement)@.depth(), 1nat,
{
    proof {
        lemma_statement_tree(*statement);
    }
    processor.process_statement(statement);
    let ghost handed = *processor;
    let ghost node = statement@;
    proof {
        lemma_statement_tree(*statement);
    }
    let ghost mut rebuilt = node;
    match statement {
        Statement::Assign(inner) => {
            proof {
                assert(node.children[0] == inner@);
                lemma_child_is_shallower(node, 0);
            }
            visit_assign_statement(inner, processor);
            let ghost after_first = *processor;
            let ghost first = inner@;
            proof {
                lemma_walked_1(*old(processor), old(statement)@, handed, node, after_first, first);
                rebuilt = node.with_children(seq![first]);
            }
        },
        Statement::Do(inner) => {
            proof {
                assert(node.children[0] == inner@);
                lemma_child_is_shallower(node, 0);
            }
            visit_do_statement(inner, processor);
            let ghost after_first = *processor;
            let ghost first = inner@;
            proof {
                lemma_walked_1(*old(processor), old(statement)@, handed, node, after_first, first);
                rebuilt = node.with_children(seq![first]);
            }
        },
        Statement::Call(inner) => {
            proof {
                assert(node.children[0] == inner@);
                lemma_child_is_shallower(node, 0);
            }
            visit_function_call(inner, processor);
            let ghost after_first = *processor;
            let ghost first = inner@;
            proof {
                lemma_walked_1(*old(processor), old(statement)@, handed, node, after_first, first);
                rebuilt = node.with_children(seq![first]);
            }
        },
        Statement::Function(inner) => {
            proof {
                assert(node.children[0] == inner@);
                lemma_child_is_shallower(node, 0);
            }
            visit_function_statement(inner, processor);
            let ghost after_first = *processor;
            let ghost first = inner@;
            proof {
                lemma_walked_1(*old(processor), old(statement)@, handed, node, after_first, first);
                rebuilt = node.with_children(seq![first]);
            }
        },
        Statement::GenericFor(inner) => {
            proof {
                assert(node.children[0] == inner@);
                lemma_child_is_shallower(node, 0);
            }
            visit_generic_for(inner, processor);
            let ghost after_first = *processor;
            let ghost first = inner@;
            proof {
                lemma_walked_1(*old(processor), old(statement)@, handed, node, after_first, first);
                rebuilt = node.with_children(seq![first]);
            }
        },
        Statement::If(inner) => {
            proof {
                assert(node.children[0] == inner@);
                lemma_child_is_shallower(node, 0);
            }
            visit_if_statement(inner, processor);
            let ghost after_first = *processor;
            let ghost first = inner@;
            proof {
                lemma_walked_1(*old(processor), old(statement)@, handed, node, after_first, first);
                rebuilt = node.with_children(seq![first]);
            }
        },
        Statement::LocalAssign(inner) => {
            proof {
                assert(node.children[0] == inner@);
                lemma_child_is_shallower(node, 0);
            }
            visit_local_assign(inner, processor);
            let ghost after_first = *processor;
            let ghost first = inner@;
            proof {
                lemma_walked_1(*old(processor), old(statement)@, handed, node, after_first, first);
                rebuilt = node.with_children(seq![first]);
            }
        },
        Statement::LocalFunction(inner) => {
            proof {
                assert(node.children[0] == inner@);
                lemma_child_is_shallower(node, 0);
            }
            visit_local_function(inner, processor);
            let ghost after_first = *processor;
            let ghost first = inner@;
            proof {
                lemma_walked_1(*old(processor), old(statement)@, handed, node, after_first, first);
                rebuilt = node.with_children(seq![first]);
            }
        },
        Statement::NumericFor(inner) => {
            proof {
                assert(node.children[0] == inner@);
                lemma_child_is_shallower(node, 0);
            }
            visit_numeric_for(inner, processor);
            let ghost after_first = *processor;
            let ghost first = inner@;
            proof {
                lemma_walked_1(*old(processor), old(statement)@, handed, node, after_first, first);
                rebuilt = node.with_children(seq![first]);
            }
        },
        Statement::Repeat(inner) => {
            proof {
                assert(node.children[0] == inner@);
                lemma_child_is_shallower(node, 0);
            }
            visit_repeat_statement(inner, processor);
            let ghost after_first = *processor;
            let ghost first = inner@;
            proof {
                lemma_walked_1(*old(processor), old(statement)@, handed, node, after_first, first);
                rebuilt = node.with_children(seq![first]);
            }
        },
        Statement::While(inner) => {
            proof {
                assert(node.children[0] == inner@);
                lemma_child_is_shallower(node, 0);
            }
            visit_while_statement(inner, processor);
            let ghost after_first = *processor;
            let ghost first = inner@;
            proof {
                lemma_walked_1(*old(processor), old(statement)@, handed, node, after_first, first);
                rebuilt = node.with_children(seq![first]);
            }
        },
    }
    proof {
        lemma_statement_tree(*statement);
        assert(statement@ == rebuilt);
    }
}

} // verus!
