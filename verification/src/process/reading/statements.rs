//! Each kind of statement.
use vstd::prelude::*;
use crate::nodes::local_assign::LocalAssignStatement;
use crate::nodes::statements::{
    AssignStatement, DoStatement, FunctionName, FunctionStatement, GenericForStatement, IfBranch,
    IfStatement, LocalFunctionStatement, NumericForStatement, RepeatStatement, Variable,
    WhileStatement,
};
use crate::nodes::token::Identifier;
use crate::nodes::model::{
    branch_trees, expression_trees, list_tree, optional_block_tree, optional_expression_tree,
    variable_trees,
};
use crate::nodes::tree::lemma_child_is_shallower;
use crate::nodes::unfold::{
    lemma_assign_tree, lemma_branch_tree, lemma_do_tree, lemma_function_statement_tree,
    lemma_generic_for_tree, lemma_if_tree, lemma_local_assign_tree, lemma_local_function_tree,
    lemma_numeric_for_tree, lemma_repeat_tree, lemma_variable_tree, lemma_while_tree,
};
use crate::process::node_processor::NodeProcessor;
use crate::process::reading::blocks::visit_block;
use crate::process::reading::expressions::{
    visit_expression, visit_field_expression, visit_index_expression, visit_variable_expression,
};
use crate::process::reading::lists::{
    visit_branches, visit_expressions, visit_optional_block, visit_optional_expression,
    visit_variables,
};
use crate::process::trace::{lemma_seen_1, lemma_seen_2, lemma_seen_4, seen};

verus! {

/// Walks an assignment: the assignment itself, its variables, then its values.
pub fn visit_assign_statement<P: NodeProcessor>(statement: &AssignStatement, processor: &mut P)
    ensures
        seen(*old(processor), statement@, *final(processor)),
    decreases statement@.depth(), 1nat,
{
    let ghost node = statement@;
    proof {
        lemma_assign_tree(*statement);
    }
    processor.process_assign_statement(statement);
    let ghost handed = *processor;
    proof {
        assert(node.children[0] == list_tree(variable_trees(statement.variables@)));
        lemma_child_is_shallower(node, 0);
    }
    visit_variables(&statement.variables, processor);
    let ghost after_first = *processor;
    proof {
        assert(node.children[1] == list_tree(expression_trees(statement.values@)));
        lemma_child_is_shallower(node, 1);
    }
    visit_expressions(&statement.values, processor);
    proof {
        lemma_seen_2(*old(processor), node, handed, after_first, *processor);
    }
}

/// Walks what an assignment writes to.
pub fn visit_variable<P: NodeProcessor>(variable: &Variable, processor: &mut P)
    ensures
        seen(*old(processor), variable@, *final(processor)),
    decreases variable@.depth(), 1nat,
{
    let ghost node = variable@;
    proof {
        lemma_variable_tree(*variable);
    }
    let ghost handed = *processor;
    match variable {
        Variable::Identifier(inner) => {
            proof {
                assert(node.children[0] == inner@);
                lemma_child_is_shallower(node, 0);
            }
            visit_variable_expression(inner, processor);
            proof {
                lemma_seen_1(*old(processor), node, handed, *processor);
            }
        },
        Variable::Field(inner) => {
            proof {
                assert(node.children[0] == inner@);
                lemma_child_is_shallower(node, 0);
            }
            visit_field_expression(inner, processor);
            proof {
                lemma_seen_1(*old(processor), node, handed, *processor);
            }
        },
        Variable::Index(inner) => {
            proof {
                assert(node.children[0] == inner@);
                lemma_child_is_shallower(node, 0);
            }
            visit_index_expression(inner, processor);
            proof {
                lemma_seen_1(*old(processor), node, handed, *processor);
            }
        },
    }
}

/// Walks a do statement: the statement itself, then its block.
pub fn visit_do_statement<P: NodeProcessor>(statement: &DoStatement, processor: &mut P)
    ensures
        seen(*old(processor), statement@, *final(processor)),
    decreases statement@.depth(), 1nat,
{
    let ghost node = statement@;
    proof {
        lemma_do_tree(*statement);
    }
    processor.process_do_statement(statement);
    let ghost handed = *processor;
    proof {
        assert(node.children[0] == statement.block@);
        lemma_child_is_shallower(node, 0);
    }
    visit_block(&statement.block, processor);
    proof {
        lemma_seen_1(*old(processor), node, handed, *processor);
    }
}

/// Walks a function statement: the statement itself, its name, then its block.
pub fn visit_function_statement<P: NodeProcessor>(statement: &FunctionStatement, processor: &mut P)
    ensures
        seen(*old(processor), statement@, *final(processor)),
    decreases statement@.depth(), 1nat,
{
    let ghost node = statement@;
    proof {
        lemma_function_statement_tree(*statement);
    }
    processor.process_function_statement(statement);
    let ghost handed = *processor;
    proof {
        assert(node.children[0] == statement.name@);
        lemma_child_is_shallower(node, 0);
    }
    visit_function_name(&statement.name, processor);
    let ghost after_first = *processor;
    proof {
        assert(node.children[1] == statement.block@);
        lemma_child_is_shallower(node, 1);
    }
    visit_block(&statement.block, processor);
    proof {
        lemma_seen_2(*old(processor), node, handed, after_first, *processor);
    }
}

/// Walks the name of a function statement: its first identifier.
pub fn visit_function_name<P: NodeProcessor>(name: &FunctionName, processor: &mut P)
    ensures
        seen(*old(processor), name@, *final(processor)),
    decreases name@.depth(), 1nat,
{
    let ghost node = name@;
    let ghost handed = *processor;
    proof {
        assert(node.children[0] == name.name@);
        lemma_child_is_shallower(node, 0);
    }
    visit_variable_expression(&name.name, processor);
    proof {
        lemma_seen_1(*old(processor), node, handed, *processor);
    }
}

/// Walks a generic for: the statement itself, its expressions, then its block.
pub fn visit_generic_for<P: NodeProcessor>(statement: &GenericForStatement, processor: &mut P)
    ensures
        seen(*old(processor), statement@, *final(processor)),
    decreases statement@.depth(), 1nat,
{
    let ghost node = statement@;
    proof {
        lemma_generic_for_tree(*statement);
    }
    processor.process_generic_for_statement(statement);
    let ghost handed = *processor;
    proof {
        assert(node.children[0] == list_tree(expression_trees(statement.expressions@)));
        lemma_child_is_shallower(node, 0);
    }
    visit_expressions(&statement.expressions, processor);
    let ghost after_first = *processor;
    proof {
        assert(node.children[1] == statement.block@);
        lemma_child_is_shallower(node, 1);
    }
    visit_block(&statement.block, processor);
    proof {
        lemma_seen_2(*old(processor), node, handed, after_first, *processor);
    }
}

/// Walks an if statement: the statement itself, each branch, then the else block.
pub fn visit_if_statement<P: NodeProcessor>(statement: &IfStatement, processor: &mut P)
    ensures
        seen(*old(processor), statement@, *final(processor)),
    decreases statement@.depth(), 1nat,
{
    let ghost node = statement@;
    proof {
        lemma_if_tree(*statement);
    }
    processor.process_if_statement(statement);
    let ghost handed = *processor;
    proof {
        assert(node.children[0] == list_tree(branch_trees(statement.branches@)));
        lemma_child_is_shallower(node, 0);
    }
    visit_branches(&statement.branches, processor);
    let ghost after_first = *processor;
    proof {
        assert(node.children[1] == optional_block_tree(statement.else_block));
        lemma_child_is_shallower(node, 1);
    }
    visit_optional_block(&statement.else_block, processor);
    proof {
        lemma_seen_2(*old(processor), node, handed, after_first, *processor);
    }
}

/// Walks a branch: its condition, then its block.
pub fn visit_branch<P: NodeProcessor>(branch: &IfBranch, processor: &mut P)
    ensures
        seen(*old(processor), branch@, *final(processor)),
    decreases branch@.depth(), 1nat,
{
    let ghost node = branch@;
    proof {
        lemma_branch_tree(*branch);
    }
    let ghost handed = *processor;
    proof {
        assert(node.children[0] == branch.condition@);
        lemma_child_is_shallower(node, 0);
    }
    visit_expression(&branch.condition, processor);
    let ghost after_first = *processor;
    proof {
        assert(node.children[1] == branch.block@);
        lemma_child_is_shallower(node, 1);
    }
    visit_block(&branch.block, processor);
    proof {
        lemma_seen_2(*old(processor), node, handed, after_first, *processor);
    }
}

/// Walks a local declaration: the statement itself, then its values.
pub fn visit_local_assign<P: NodeProcessor>(statement: &LocalAssignStatement, processor: &mut P)
    ensures
        seen(*old(processor), statement@, *final(processor)),
    decreases statement@.depth(), 1nat,
{
    let ghost node = statement@;
    proof {
        lemma_local_assign_tree(*statement);
    }
    processor.process_local_assign_statement(statement);
    let ghost handed = *processor;
    proof {
        assert(node.children[0] == list_tree(expression_trees(statement.values@)));
        lemma_child_is_shallower(node, 0);
    }
    visit_expressions(&statement.values, processor);
    proof {
        lemma_seen_1(*old(processor), node, handed, *processor);
    }
}

/// Walks a local function: the statement itself, then its block.
pub fn visit_local_function<P: NodeProcessor>(statement: &LocalFunctionStatement, processor: &mut P)
    ensures
        seen(*old(processor), statement@, *final(processor)),
    decreases statement@.depth(), 1nat,
{
    let ghost node = statement@;
    proof {
        lemma_local_function_tree(*statement);
    }
    processor.process_local_function_statement(statement);
    let ghost handed = *processor;
    proof {
        assert(node.children[0] == statement.block@);
        lemma_child_is_shallower(node, 0);
    }
    visit_block(&statement.block, processor);
    proof {
        lemma_seen_1(*old(processor), node, handed, *processor);
    }
}

/// Walks a numeric for: the statement itself, its start, end and step, then its block.
pub fn visit_numeric_for<P: NodeProcessor>(statement: &NumericForStatement, processor: &mut P)
    ensures
        seen(*old(processor), statement@, *final(processor)),
    decreases statement@.depth(), 1nat,
{
    let ghost node = statement@;
    proof {
        lemma_numeric_for_tree(*statement);
    }
    processor.process_numeric_for_statement(statement);
    let ghost handed = *processor;
    proof {
        assert(node.children[0] == statement.start@);
        lemma_child_is_shallower(node, 0);
    }
    visit_expression(&statement.start, processor);
    let ghost after_first = *processor;
    proof {
        assert(node.children[1] == statement.end@);
        lemma_child_is_shallower(node, 1);
    }
    visit_expression(&statement.end, processor);
    let ghost after_second = *processor;
    proof {
        assert(node.children[2] == optional_expression_tree(statement.step));
        lemma_child_is_shallower(node, 2);
    }
    visit_optional_expression(&statement.step, processor);
    let ghost after_third = *processor;
    proof {
        assert(node.children[3] == statement.block@);
        lemma_child_is_shallower(node, 3);
    }
    visit_block(&statement.block, processor);
    proof {
        lemma_seen_4(*old(processor), node, handed, after_first, after_second, after_third, *processor);
    }
}

/// Walks a repeat statement: the statement itself, its condition, then its block.
pub fn visit_repeat_statement<P: NodeProcessor>(statement: &RepeatStatement, processor: &mut P)
    ensures
        seen(*old(processor), statement@, *final(processor)),
    decreases statement@.depth(), 1nat,
{
    let ghost node = statement@;
    proof {
        lemma_repeat_tree(*statement);
    }
    processor.process_repeat_statement(statement);
    let ghost handed = *processor;
    proof {
        assert(node.children[0] == statement.condition@);
        lemma_child_is_shallower(node, 0);
    }
    visit_expression(&statement.condition, processor);
    let ghost after_first = *processor;
    proof {
        assert(node.children[1] == statement.block@);
        lemma_child_is_shallower(node, 1);
    }
    visit_block(&statement.block, processor);
    proof {
        lemma_seen_2(*old(processor), node, handed, after_first, *processor);
    }
}

/// Walks a while statement: the statement itself, its condition, then its block.
pub fn visit_while_statement<P: NodeProcessor>(statement: &WhileStatement, processor: &mut P)
    ensures
        seen(*old(processor), statement@, *final(processor)),
    decreases statement@.depth(), 1nat,
{
    let ghost node = statement@;
    proof {
        lemma_while_tree(*statement);
    }
    processor.process_while_statement(statement);
    let ghost handed = *processor;
    proof {
        assert(node.children[0] == statement.condition@);
        lemma_child_is_shallower(node, 0);
    }
    visit_expression(&statement.condition, processor);
    let ghost after_first = *processor;
    proof {
        assert(node.children[1] == statement.block@);
        lemma_child_is_shallower(node, 1);
    }
    visit_block(&statement.block, processor);
    proof {
        lemma_seen_2(*old(processor), node, handed, after_first, *processor);
    }
}

} // verus!
