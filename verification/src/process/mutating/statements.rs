//! Each kind of statement.
use vstd::prelude::*;
use crate::nodes::local_assign::LocalAssignStatement;
use crate::nodes::statements::{
    AssignStatement, DoStatement, FunctionName, FunctionStatement, GenericForStatement, IfBranch,
    IfStatement, LocalFunctionStatement, NumericForStatement, RepeatStatement, Variable,
    WhileStatement,
};
use crate::nodes::token::Identifier;
use crate::nodes::model::{
    branch_trees, expression_trees, list_tree, optional_block_tree, optional_expression_tree,
    variable_trees,
};
use crate::nodes::tree::lemma_child_is_shallower;
use crate::nodes::unfold::{
    lemma_assign_tree, lemma_branch_tree, lemma_do_tree, lemma_function_statement_tree,
    lemma_generic_for_tree, lemma_if_tree, lemma_local_assign_tree, lemma_local_function_tree,
    lemma_numeric_for_tree, lemma_repeat_tree, lemma_variable_tree, lemma_while_tree,
};
use crate::process::node_processor::NodeProcessorMut;
use crate::process::mutating::blocks::visit_block;
use crate::process::mutating::expressions::{
    visit_expression, visit_field_expression, visit_index_expression, visit_variable_expression,
};
use crate::process::mutating::lists::{
    visit_branches, visit_expressions, visit_optional_block, visit_optional_expression,
    visit_variables,
};
use crate::process::walk::{lemma_walked_1, lemma_walked_2, lemma_walked_4, walked};

verus! {

/// Walks an assignment: the assignment itself, its variables, then its values.
pub fn visit_assign_statement<P: NodeProcessorMut>(statement: &mut AssignStatement, processor: &mut P)
    ensures
        walked(*old(processor), old(statement)@, *final(processor), final(statement)@),
    decreases old(statement)@.depth(), 1nat,
{
    proof {
        lemma_assign_tree(*statement);
    }
    processor.process_assign_statement(statement);
    let ghost handed = *processor;
    let ghost node = statement@;
    proof {
        lemma_assign_tree(*statement);
        assert(node.children[0] == list_tree(variable_trees(statement.variables@)));
        lemma_child_is_shallower(node, 0);
    }
    visit_variables(&mut statement.variables, processor);
    let ghost after_first = *processor;
    let ghost first = list_tree(variable_trees(statement.variables@));
    proof {
        assert(node.children[1] == list_tree(expression_trees(statement.values@)));
        lemma_child_is_shallower(node, 1);
    }
    visit_expressions(&mut statement.values, processor);
    let ghost after_second = *processor;
    let ghost second = list_tree(expression_trees(statement.values@));
    proof {
        lemma_assign_tree(*statement);
        assert(statement@ == node.with_children(seq![first, second]));
        lemma_walked_2(*old(processor), old(statement)@, handed, node, after_first, first, after_second, second);
    }
}

/// Walks what an assignment writes to.
pub fn visit_variable<P: NodeProcessorMut>(variable: &mut Variable, processor: &mut P)
    ensures
        walked(*old(processor), old(variable)@, *final(processor), final(variable)@),
    decreases old(variable)@.depth(), 1nat,
{
    proof {
        lemma_variable_tree(*variable);
    }
    let ghost handed = *processor;
    let ghost node = variable@;
    proof {
        lemma_variable_tree(*variable);
    }
    let ghost mut rebuilt = node;
    match variable {
        Variable::Identifier(inner) => {
            proof {
                assert(node.children[0] == inner@);
                lemma_child_is_shallower(node, 0);
            }
            visit_variable_expression(inner, processor);
            let ghost after_first = *processor;
            let ghost first = inner@;
            proof {
                lemma_walked_1(*old(processor), old(variable)@, handed, node, after_first, first);
                rebuilt = node.with_children(seq![first]);
            }
        },
        Variable::Field(inner) => {
            proof {
                assert(node.children[0] == inner@);
                lemma_child_is_shallower(node, 0);
            }
            visit_field_expression(inner, processor);
            let ghost after_first = *processor;
            let ghost first = inner@;
            proof {
                lemma_walked_1(*old(processor), old(variable)@, handed, node, after_first, first);
                rebuilt = node.with_children(seq![first]);
            }
        },
        Variable::Index(inner) => {
            proof {
                assert(node.children[0] == inner@);
                lemma_child_is_shallower(node, 0);
            }
            visit_index_expression(inner, processor);
            let ghost after_first = *processor;
            let ghost first = inner@;
            proof {
                lemma_walked_1(*old(processor), old(variable)@, handed, node, after_first, first);
                rebuilt = node.with_children(seq![first]);
            }
        },
    }
    proof {
        lemma_variable_tree(*variable);
        assert(variable@ == rebuilt);
    }
}

/// Walks a do statement: the statement itself, then its block.
pub fn visit_do_statement<P: NodeProcessorMut>(statement: &mut DoStatement, processor: &mut P)
    ensures
        walked(*old(processor), old(statement)@, *final(processor), final(statement)@),
    decreases old(statement)@.depth(), 1nat,
{
    proof {
        lemma_do_tree(*statement);
    }
    processor.process_do_statement(statement);
    let ghost handed = *processor;
    let ghost node = statement@;
    proof {
        lemma_do_tree(*statement);
        assert(node.children[0] == statement.block@);
        lemma_child_is_shallower(node, 0);
    }
    visit_block(&mut statement.block, processor);
    let ghost after_first = *processor;
    let ghost first = statement.block@;
    proof {
        lemma_do_tree(*statement);
        assert(statement@ == node.with_children(seq![first]));
        lemma_walked_1(*old(processor), old(statement)@, handed, node, after_first, first);
    }
}

/// Walks a function statement: the statement itself, its name, then its block.
pub fn visit_function_statement<P: NodeProcessorMut>(statement: &mut FunctionStatement, processor: &mut P)
    ensures
        walked(*old(processor), old(statement)@, *final(processor), final(statement)@),
    decreases old(statement)@.depth(), 1nat,
{
    proof {
        lemma_function_statement_tree(*statement);
    }
    processor.process_function_statement(statement);
    let ghost handed = *processor;
    let ghost node = statement@;
    proof {
        lemma_function_statement_tree(*statement);
        assert(node.children[0] == statement.name@);
        lemma_child_is_shallower(node, 0);
    }
    visit_function_name(&mut statement.name, processor);
    let ghost after_first = *processor;
    let ghost first = statement.name@;
    proof {
        assert(node.children[1] == statement.block@);
        lemma_child_is_shallower(node, 1);
    }
    visit_block(&mut statement.block, processor);
    let ghost after_second = *processor;
    let ghost second = statement.block@;
    proof {
        lemma_function_statement_tree(*statement);
        assert(statement@ == node.with_children(seq![first, second]));
        lemma_walked_2(*old(processor), old(statement)@, handed, node, after_first, first, after_second, second);
    }
}

/// Walks the name of a function statement: its first identifier.
pub fn visit_function_name<P: NodeProcessorMut>(name: &mut FunctionName, processor: &mut P)
    ensures
        walked(*old(processor), old(name)@, *final(processor), final(name)@),
    decreases old(name)@.depth(), 1nat,
{
    let ghost handed = *processor;
    let ghost node = name@;
    proof {
        assert(node.children[0] == name.name@);
        lemma_child_is_shallower(node, 0);
    }
    visit_variable_expression(&mut name.name, processor);
    let ghost after_first = *processor;
    let ghost first = name.name@;
    proof {
            assert(name@ == node.with_children(seq![first]));
        lemma_walked_1(*old(processor), old(name)@, handed, node, after_first, first);
    }
}

/// Walks a generic for: the statement itself, its expressions, then its block.
pub fn visit_generic_for<P: NodeProcessorMut>(statement: &mut GenericForStatement, processor: &mut P)
    ensures
        walked(*old(processor), old(statement)@, *final(processor), final(statement)@),
    decreases old(statement)@.depth(), 1nat,
{
    proof {
        lemma_generic_for_tree(*statement);
    }
    processor.process_generic_for_statement(statement);
    let ghost handed = *processor;
    let ghost node = statement@;
    proof {
        lemma_generic_for_tree(*statement);
        assert(node.children[0] == list_tree(expression_trees(statement.expressions@)));
        lemma_child_is_shallower(node, 0);
    }
    visit_expressions(&mut statement.expressions, processor);
    let ghost after_first = *processor;
    let ghost first = list_tree(expression_trees(statement.expressions@));
    proof {
        assert(node.children[1] == statement.block@);
        lemma_child_is_shallower(node, 1);
    }
    visit_block(&mut statement.block, processor);
    let ghost after_second = *processor;
    let ghost second = statement.block@;
    proof {
        lemma_generic_for_tree(*statement);
        assert(statement@ == node.with_children(seq![first, second]));
        lemma_walked_2(*old(processor), old(statement)@, handed, node, after_first, first, after_second, second);
    }
}

/// Walks an if statement: the statement itself, each branch, then the else block.
pub fn visit_if_statement<P: NodeProcessorMut>(statement: &mut IfStatement, processor: &mut P)
    ensures
        walked(*old(processor), old(statement)@, *final(processor), final(statement)@),
    decreases old(statement)@.depth(), 1nat,
{
    proof {
        lemma_if_tree(*statement);
    }
    processor.process_if_statement(statement);
    let ghost handed = *processor;
    let ghost node = statement@;
    proof {
        lemma_if_tree(*statement);
        assert(node.children[0] == list_tree(branch_trees(statement.branches@)));
        lemma_child_is_shallower(node, 0);
    }
    visit_branches(&mut statement.branches, processor);
    let ghost after_first = *processor;
    let ghost first = list_tree(branch_trees(statement.branches@));
    proof {
        assert(node.children[1] == optional_block_tree(statement.else_block));
        lemma_child_is_shallower(node, 1);
    }
    visit_optional_block(&mut statement.else_block, processor);
    let ghost after_second = *processor;
    let ghost second = optional_block_tree(statement.else_block);
    proof {
        lemma_if_tree(*statement);
        assert(statement@ == node.with_children(seq![first, second]));
        lemma_walked_2(*old(processor), old(statement)@, handed, node, after_first, first, after_second, second);
    }
}

/// Walks a branch: its condition, then its block.
pub fn visit_branch<P: NodeProcessorMut>(branch: &mut IfBranch, processor: &mut P)
    ensures
        walked(*old(processor), old(branch)@, *final(processor), final(branch)@),
    decreases old(branch)@.depth(), 1nat,
{
    proof {
        lemma_branch_tree(*branch);
    }
    let ghost handed = *processor;
    let ghost node = branch@;
    proof {
        lemma_branch_tree(*branch);
        assert(node.children[0] == branch.condition@);
        lemma_child_is_shallower(node, 0);
    }
    visit_expression(&mut branch.condition, processor);
    let ghost after_first = *processor;
    let ghost first = branch.condition@;
    proof {
        assert(node.children[1] == branch.block@);
        lemma_child_is_shallower(node, 1);
    }
    visit_block(&mut branch.block, processor);
    let ghost after_second = *processor;
    let ghost second = branch.block@;
    proof {
        lemma_branch_tree(*branch);
        assert(branch@ == node.with_children(seq![first, second]));
        lemma_walked_2(*old(processor), old(branch)@, handed, node, after_first, first, after_second, second);
    }
}

/// Walks a local declaration: the statement itself, then its values.
pub fn visit_local_assign<P: NodeProcessorMut>(statement: &mut LocalAssignStatement, processor: &mut P)
    ensures
        walked(*old(processor), old(statement)@, *final(processor), final(statement)@),
    decreases old(statement)@.depth(), 1nat,
{
    proof {
        lemma_local_assign_tree(*statement);
    }
    processor.process_local_assign_statement(statement);
    let ghost handed = *processor;
    let ghost node = statement@;
    proof {
        lemma_local_assign_tree(*statement);
        assert(node.children[0] == list_tree(expression_trees(statement.values@)));
        lemma_child_is_shallower(node, 0);
    }
    visit_expressions(&mut statement.values, processor);
    let ghost after_first = *processor;
    let ghost first = list_tree(expression_trees(statement.values@));
    proof {
        lemma_local_assign_tree(*statement);
        assert(statement@ == node.with_children(seq![first]));
        lemma_walked_1(*old(processor), old(statement)@, handed, node, after_first, first);
    }
}

/// Walks a local function: the statement itself, then its block.
pub fn visit_local_function<P: NodeProcessorMut>(statement: &mut LocalFunctionStatement, processor: &mut P)
    ensures
        walked(*old(processor), old(statement)@, *final(processor), final(statement)@),
    decreases old(statement)@.depth(), 1nat,
{
    proof {
        lemma_local_function_tree(*statement);
    }
    processor.process_local_function_statement(statement);
    let ghost handed = *processor;
    let ghost node = statement@;
    proof {
        lemma_local_function_tree(*statement);
        assert(node.children[0] == statement.block@);
        lemma_child_is_shallower(node, 0);
    }
    visit_block(&mut statement.block, processor);
    let ghost after_first = *processor;
    let ghost first = statement.block@;
    proof {
        lemma_local_function_tree(*statement);
        assert(statement@ == node.with_children(seq![first]));
        lemma_walked_1(*old(processor), old(statement)@, handed, node, after_first, first);
    }
}

/// Walks a numeric for: the statement itself, its start, end and step, then its block.
pub fn visit_numeric_for<P: NodeProcessorMut>(statement: &mut NumericForStatement, processor: &mut P)
    ensures
        walked(*old(processor), old(statement)@, *final(processor), final(statement)@),
    decreases old(statement)@.depth(), 1nat,
{
    proof {
        lemma_numeric_for_tree(*statement);
    }
    processor.process_numeric_for_statement(statement);
    let ghost handed = *processor;
    let ghost node = statement@;
    proof {
        lemma_numeric_for_tree(*statement);
        assert(node.children[0] == statement.start@);
        lemma_child_is_shallower(node, 0);
    }
    visit_expression(&mut statement.start, processor);
    let ghost after_first = *processor;
    let ghost first = statement.start@;
    proof {
        assert(node.children[1] == statement.end@);
        lemma_child_is_shallower(node, 1);
    }
    visit_expression(&mut statement.end, processor);
    let ghost after_second = *processor;
    let ghost second = statement.end@;
    proof {
        assert(node.children[2] == optional_expression_tree(statement.step));
        lemma_child_is_shallower(node, 2);
    }
    visit_optional_expression(&mut statement.step, processor);
    let ghost after_third = *processor;
    let ghost third = optional_expression_tree(statement.step);
    proof {
        assert(node.children[3] == statement.block@);
        lemma_child_is_shallower(node, 3);
    }
    visit_block(&mut statement.block, processor);
    let ghost after_fourth = *processor;
    let ghost fourth = statement.block@;
    proof {
        lemma_numeric_for_tree(*statement);
        assert(statement@ == node.with_children(seq![first, second, third, fourth]));
        lemma_walked_4(*old(processor), old(statement)@, handed, node, after_first, first, after_second, second, after_third, third, after_fourth, fourth);
    }
}

/// Walks a repeat statement: the statement itself, its condition, then its block.
pub fn visit_repeat_statement<P: NodeProcessorMut>(statement: &mut RepeatStatement, processor: &mut P)
    ensures
        walked(*old(processor), old(statement)@, *final(processor), final(statement)@),
    decreases old(statement)@.depth(), 1nat,
{
    proof {
        lemma_repeat_tree(*statement);
    }
    processor.process_repeat_statement(statement);
    let ghost handed = *processor;
    let ghost node = statement@;
    proof {
        lemma_repeat_tree(*statement);
        assert(node.children[0] == statement.condition@);
        lemma_child_is_shallower(node, 0);
    }
    visit_expression(&mut statement.condition, processor);
    let ghost after_first = *processor;
    let ghost first = statement.condition@;
    proof {
        assert(node.children[1] == statement.block@);
        lemma_child_is_shallower(node, 1);
    }
    visit_block(&mut statement.block, processor);
    let ghost after_second = *processor;
    let ghost second = statement.block@;
    proof {
        lemma_repeat_tree(*statement);
        assert(statement@ == node.with_children(seq![first, second]));
        lemma_walked_2(*old(processor), old(statement)@, handed, node, after_first, first, after_second, second);
    }
}

/// Walks a while statement: the statement itself, its condition, then its block.
pub fn visit_while_statement<P: NodeProcessorMut>(statement: &mut WhileStatement, processor: &mut P)
    ensures
        walked(*old(processor), old(statement)@, *final(processor), final(statement)@),
    decreases old(statement)@.depth(), 1nat,
{
    proof {
        lemma_while_tree(*statement);
    }
    processor.process_while_statement(statement);
    let ghost handed = *processor;
    let ghost node = statement@;
    proof {
        lemma_while_tree(*statement);
        assert(node.children[0] == statement.condition@);
        lemma_child_is_shallower(node, 0);
    }
    visit_expression(&mut statement.condition, processor);
    let ghost after_first = *processor;
    let ghost first = statement.condition@;
    proof {
        assert(node.children[1] == statement.block@);
        lemma_child_is_shallower(node, 1);
    }
    visit_block(&mut statement.block, processor);
    let ghost after_second = *processor;
    let ghost second = statement.block@;
    proof {
        lemma_while_tree(*statement);
        assert(statement@ == node.with_children(seq![first, second]));
        lemma_walked_2(*old(processor), old(statement)@, handed, node, after_first, first, after_second, second);
    }
}

} // verus!
