//! Lists of nodes, walked in order, and nodes that may be absent.
use vstd::prelude::*;
use crate::nodes::block::Block;
use crate::nodes::expressions::{Expression, TableEntry};
use crate::nodes::lux::{LUXAttribute, LUXAttributeValue, LUXChild};
use crate::nodes::statements::{IfBranch, LastStatement, Statement, Variable};
use crate::nodes::model::{
    branch_trees, entry_trees, expression_trees, list_tree, lux_attribute_trees, lux_child_trees,
    optional_block_tree, optional_expression_tree, optional_last_statement_tree,
    optional_lux_attribute_value_tree, statement_trees, variable_trees,
};
use crate::nodes::tree::{lemma_child_is_shallower, Tree};
use crate::nodes::unfold::{
    lemma_branch_trees, lemma_entry_trees, lemma_expression_trees, lemma_lux_attribute_trees,
    lemma_lux_child_trees, lemma_optional_block_tree, lemma_optional_expression_tree,
    lemma_optional_last_statement_tree, lemma_optional_lux_attribute_value_tree,
    lemma_statement_trees, lemma_variable_trees,
};
use crate::process::node_processor::NodeProcessor;
use crate::process::reading::blocks::{visit_block, visit_last_statement, visit_statement};
use crate::process::reading::expressions::{visit_entry, visit_expression};
use crate::process::reading::markup::{
    visit_lux_attribute, visit_lux_attribute_value, visit_lux_child,
};
use crate::process::reading::statements::{visit_branch, visit_variable};
use crate::process::trace::{
    lemma_seen_1, lemma_seen_leaf, lemma_seen_node, lemma_seen_none, lemma_seen_push, seen,
    seen_through,
};

verus! {

/// Walks statements in order.
pub fn visit_statements<P: NodeProcessor>(statements: &Vec<Statement>, processor: &mut P)
    ensures
        seen(*old(processor), list_tree(statement_trees(statements@)), *final(processor)),
    decreases list_tree(statement_trees(statements@)).depth(), 0nat,
{
    let ghost node = list_tree(statement_trees(statements@));
    let ghost given = statement_trees(statements@);
    let count = statements.len();
    let mut i: usize = 0;
    proof {
        lemma_statement_trees(statements@);
        lemma_seen_none(*old(processor));
        assert(given.take(0) =~= Seq::<Tree>::empty());
    }
    while i < count
        invariant
            i <= count,
            statements@.len() == count,
            given.len() == count,
            given == statement_trees(statements@),
            node == list_tree(given),
            forall|k: int| 0 <= k < count ==> statements@[k]@ == #[trigger] given[k],
            seen_through(*old(processor), given.take(i as int), *processor),
        decreases count - i,
    {
        let ghost start = *processor;
        proof {
            assert(node.children[i as int] == statements@[i as int]@);
            lemma_child_is_shallower(node, i as int);
        }
        visit_statement(&statements[i], processor);
        proof {
            lemma_seen_push(*old(processor), given.take(i as int), start, given[i as int], *processor);
            assert(given.take(i + 1) =~= given.take(i as int).push(given[i as int]));
        }
        i += 1;
    }
    proof {
        assert(given.take(count as int) =~= given);
        lemma_seen_node(*old(processor), node, *old(processor), *processor);
    }
}

/// Walks expressions in order.
pub fn visit_expressions<P: NodeProcessor>(expressions: &Vec<Expression>, processor: &mut P)
    ensures
        seen(*old(processor), list_tree(expression_trees(expressions@)), *final(processor)),
    decreases list_tree(expression_trees(expressions@)).depth(), 0nat,
{
    let ghost node = list_tree(expression_trees(expressions@));
    let ghost given = expression_trees(expressions@);
    let count = expressions.len();
    let mut i: usize = 0;
    proof {
        lemma_expression_trees(expressions@);
        lemma_seen_none(*old(processor));
        assert(given.take(0) =~= Seq::<Tree>::empty());
    }
    while i < count
        invariant
            i <= count,
            expressions@.len() == count,
            given.len() == count,
            given == expression_trees(expressions@),
            node == list_tree(given),
            forall|k: int| 0 <= k < count ==> expressions@[k]@ == #[trigger] given[k],
            seen_through(*old(processor), given.take(i as int), *processor),
        decreases count - i,
    {
        let ghost start = *processor;
        proof {
            assert(node.children[i as int] == expressions@[i as int]@);
            lemma_child_is_shallower(node, i as int);
        }
        visit_expression(&expressions[i], processor);
        proof {
            lemma_seen_push(*old(processor), given.take(i as int), start, given[i as int], *processor);
            assert(given.take(i + 1) =~= given.take(i as int).push(given[i as int]));
        }
        i += 1;
    }
    proof {
        assert(given.take(count as int) =~= given);
        lemma_seen_node(*old(processor), node, *old(processor), *processor);
    }
}

/// Walks the variables of an assignment in order.
pub fn visit_variables<P: NodeProcessor>(variables: &Vec<Variable>, processor: &mut P)
    ensures
        seen(*old(processor), list_tree(variable_trees(variables@)), *final(processor)),
    decreases list_tree(variable_trees(variables@)).depth(), 0nat,
{
    let ghost node = list_tree(variable_trees(variables@));
    let ghost given = variable_trees(variables@);
    let count = variables.len();
    let mut i: usize = 0;
    proof {
        lemma_variable_trees(variables@);
        lemma_seen_none(*old(processor));
        assert(given.take(0) =~= Seq::<Tree>::empty());
    }
    while i < count
        invariant
            i <= count,
            variables@.len() == count,
            given.len() == count,
            given == variable_trees(variables@),
            node == list_tree(given),
            forall|k: int| 0 <= k < count ==> variables@[k]@ == #[trigger] given[k],
            seen_through(*old(processor), given.take(i as int), *processor),
        decreases count - i,
    {
        let ghost start = *processor;
        proof {
            assert(node.children[i as int] == variables@[i as int]@);
            lemma_child_is_shallower(node, i as int);
        }
        visit_variable(&variables[i], processor);
        proof {
            lemma_seen_push(*old(processor), given.take(i as int), start, given[i as int], *processor);
            assert(given.take(i + 1) =~= given.take(i as int).push(given[i as int]));
        }
        i += 1;
    }
    proof {
        assert(given.take(count as int) =~= given);
        lemma_seen_node(*old(processor), node, *old(processor), *processor);
    }
}

/// Walks the branches of an if statement in order.
pub fn visit_branches<P: NodeProcessor>(branches: &Vec<IfBranch>, processor: &mut P)
    ensures
        seen(*old(processor), list_tree(branch_trees(branches@)), *final(processor)),
    decreases list_tree(branch_trees(branches@)).depth(), 0nat,
{
    let ghost node = list_tree(branch_trees(branches@));
    let ghost given = branch_trees(branches@);
    let count = branches.len();
    let mut i: usize = 0;
    proof {
        lemma_branch_trees(branches@);
        lemma_seen_none(*old(processor));
        assert(given.take(0) =~= Seq::<Tree>::empty());
    }
    while i < count
        invariant
            i <= count,
            branches@.len() == count,
            given.len() == count,
            given == branch_trees(branches@),
            node == list_tree(given),
            forall|k: int| 0 <= k < count ==> branches@[k]@ == #[trigger] given[k],
            seen_through(*old(processor), given.take(i as int), *processor),
        decreases count - i,
    {
        let ghost start = *processor;
        proof {
            assert(node.children[i as int] == branches@[i as int]@);
            lemma_child_is_shallower(node, i as int);
        }
        visit_branch(&branches[i], processor);
        proof {
            lemma_seen_push(*old(processor), given.take(i as int), start, given[i as int], *processor);
            assert(given.take(i + 1) =~= given.take(i as int).push(given[i as int]));
        }
        i += 1;
    }
    proof {
        assert(given.take(count as int) =~= given);
        lemma_seen_node(*old(processor), node, *old(processor), *processor);
    }
}

/// Walks the entries of a table in order.
pub fn visit_entries<P: NodeProcessor>(entries: &Vec<TableEntry>, processor: &mut P)
    ensures
        seen(*old(processor), list_tree(entry_trees(entries@)), *final(processor)),
    decreases list_tree(entry_trees(entries@)).depth(), 0nat,
{
    let ghost node = list_tree(entry_trees(entries@));
    let ghost given = entry_trees(entries@);
    let count = entries.len();
    let mut i: usize = 0;
    proof {
        lemma_entry_trees(entries@);
        lemma_seen_none(*old(processor));
        assert(given.take(0) =~= Seq::<Tree>::empty());
    }
    while i < count
        invariant
            i <= count,
            entries@.len() == count,
            given.len() == count,
            given == entry_trees(entries@),
            node == list_tree(given),
            forall|k: int| 0 <= k < count ==> entries@[k]@ == #[trigger] given[k],
            seen_through(*old(processor), given.take(i as int), *processor),
        decreases count - i,
    {
        let ghost start = *processor;
        proof {
            assert(node.children[i as int] == entries@[i as int]@);
            lemma_child_is_shallower(node, i as int);
        }
        visit_entry(&entries[i], processor);
        proof {
            lemma_seen_push(*old(processor), given.take(i as int), start, given[i as int], *processor);
            assert(given.take(i + 1) =~= given.take(i as int).push(given[i as int]));
        }
        i += 1;
    }
    proof {
        assert(given.take(count as int) =~= given);
        lemma_seen_node(*old(processor), node, *old(processor), *processor);
    }
}

/// Walks attributes in order.
pub fn visit_lux_attributes<P: NodeProcessor>(attributes: &Vec<LUXAttribute>, processor: &mut P)
    ensures
        seen(*old(processor), list_tree(lux_attribute_trees(attributes@)), *final(processor)),
    decreases list_tree(lux_attribute_trees(attributes@)).depth(), 0nat,
{
    let ghost node = list_tree(lux_attribute_trees(attributes@));
    let ghost given = lux_attribute_trees(attributes@);
    let count = attributes.len();
    let mut i: usize = 0;
    proof {
        lemma_lux_attribute_trees(attributes@);
        lemma_seen_none(*old(processor));
        assert(given.take(0) =~= Seq::<Tree>::empty());
    }
    while i < count
        invariant
            i <= count,
            attributes@.len() == count,
            given.len() == count,
            given == lux_attribute_trees(attributes@),
            node == list_tree(given),
            forall|k: int| 0 <= k < count ==> attributes@[k]@ == #[trigger] given[k],
            seen_through(*old(processor), given.take(i as int), *processor),
        decreases count - i,
    {
        let ghost start = *processor;
        proof {
            assert(node.children[i as int] == attributes@[i as int]@);
            lemma_child_is_shallower(node, i as int);
        }
        visit_lux_attribute(&attributes[i], processor);
        proof {
            lemma_seen_push(*old(processor), given.take(i as int), start, given[i as int], *processor);
            assert(given.take(i + 1) =~= given.take(i as int).push(given[i as int]));
        }
        i += 1;
    }
    proof {
        assert(given.take(count as int) =~= given);
        lemma_seen_node(*old(processor), node, *old(processor), *processor);
    }
}

/// Walks the children of an element or fragment in order.
pub fn visit_lux_children<P: NodeProcessor>(children: &Vec<LUXChild>, processor: &mut P)
    ensures
        seen(*old(processor), list_tree(lux_child_trees(children@)), *final(processor)),
    decreases list_tree(lux_child_trees(children@)).depth(), 0nat,
{
    let ghost node = list_tree(lux_child_trees(children@));
    let ghost given = lux_child_trees(children@);
    let count = children.len();
    let mut i: usize = 0;
    proof {
        lemma_lux_child_trees(children@);
        lemma_seen_none(*old(processor));
        assert(given.take(0) =~= Seq::<Tree>::empty());
    }
    while i < count
        invariant
            i <= count,
            children@.len() == count,
            given.len() == count,
            given == lux_child_trees(children@),
            node == list_tree(given),
            forall|k: int| 0 <= k < count ==> children@[k]@ == #[trigger] given[k],
            seen_through(*old(processor), given.take(i as int), *processor),
        decreases count - i,
    {
        let ghost start = *processor;
        proof {
            assert(node.children[i as int] == children@[i as int]@);
            lemma_child_is_shallower(node, i as int);
        }
        visit_lux_child(&children[i], processor);
        proof {
            lemma_seen_push(*old(processor), given.take(i as int), start, given[i as int], *processor);
            assert(given.take(i + 1) =~= given.take(i as int).push(given[i as int]));
        }
        i += 1;
    }
    proof {
        assert(given.take(count as int) =~= given);
        lemma_seen_node(*old(processor), node, *old(processor), *processor);
    }
}

/// Walks the last statement of a block, where it has one.
pub fn visit_optional_last_statement<P: NodeProcessor>(statement: &Option<LastStatement>, processor: &mut P)
    ensures
        seen(*old(processor), optional_last_statement_tree(*statement), *final(processor)),
    decreases optional_last_statement_tree(*statement).depth(), 1nat,
{
    let ghost node = optional_last_statement_tree(*statement);
    let ghost handed = *processor;
    proof {
        lemma_optional_last_statement_tree(*statement);
    }
    match statement {
        Some(inner) => {
            proof {
                assert(node.children[0] == inner@);
                lemma_child_is_shallower(node, 0);
            }
            visit_last_statement(inner, processor);
            proof {
                lemma_seen_1(*old(processor), node, handed, *processor);
            }
        },
        None => {
            proof {
                lemma_seen_leaf(*old(processor), node, handed);
            }
        },
    }
}

/// Walks a block that may be absent.
pub fn visit_optional_block<P: NodeProcessor>(block: &Option<Block>, processor: &mut P)
    ensures
        seen(*old(processor), optional_block_tree(*block), *final(processor)),
    decreases optional_block_tree(*block).depth(), 1nat,
{
    let ghost node = optional_block_tree(*block);
    let ghost handed = *processor;
    proof {
        lemma_optional_block_tree(*block);
    }
    match block {
        Some(inner) => {
            proof {
                assert(node.children[0] == inner@);
                lemma_child_is_shallower(node, 0);
            }
            visit_block(inner, processor);
            proof {
                lemma_seen_1(*old(processor), node, handed, *processor);
            }
        },
        None => {
            proof {
                lemma_seen_leaf(*old(processor), node, handed);
            }
        },
    }
}

/// Walks an expression that may be absent.
pub fn visit_optional_expression<P: NodeProcessor>(expression: &Option<Expression>, processor: &mut P)
    ensures
        seen(*old(processor), optional_expression_tree(*expression), *final(processor)),
    decreases optional_expression_tree(*expression).depth(), 1nat,
{
    let ghost node = optional_expression_tree(*expression);
    let ghost handed = *processor;
    proof {
        lemma_optional_expression_tree(*expression);
    }
    match expression {
        Some(inner) => {
            proof {
                assert(node.children[0] == inner@);
                lemma_child_is_shallower(node, 0);
            }
            visit_expression(inner, processor);
            proof {
                lemma_seen_1(*old(processor), node, handed, *processor);
            }
        },
        None => {
            proof {
                lemma_seen_leaf(*old(processor), node, handed);
            }
        },
    }
}

/// Walks the value of an attribute, where it has one.
pub fn visit_optional_lux_attribute_value<P: NodeProcessor>(value: &Option<LUXAttributeValue>, processor: &mut P)
    ensures
        seen(*old(processor), optional_lux_attribute_value_tree(*value), *final(processor)),
    decreases optional_lux_attribute_value_tree(*value).depth(), 1nat,
{
    let ghost node = optional_lux_attribute_value_tree(*value);
    let ghost handed = *processor;
    proof {
        lemma_optional_lux_attribute_value_tree(*value);
    }
    match value {
        Some(inner) => {
            proof {
                assert(node.children[0] == inner@);
                lemma_child_is_shallower(node, 0);
            }
            visit_lux_attribute_value(inner, processor);
            proof {
                lemma_seen_1(*old(processor), node, handed, *processor);
            }
        },
        None => {
            proof {
                lemma_seen_leaf(*old(processor), node, handed);
            }
        },
    }
}

} // verus!
