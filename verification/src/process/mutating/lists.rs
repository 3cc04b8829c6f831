//! Lists of nodes, walked in order, and nodes that may be absent.
use vstd::prelude::*;
use crate::nodes::block::Block;
use crate::nodes::expressions::{Expression, TableEntry};
use crate::nodes::lux::{LUXAttribute, LUXAttributeValue, LUXChild};
use crate::nodes::statements::{IfBranch, LastStatement, Statement, Variable};
use crate::nodes::model::{
    branch_trees, entry_trees, expression_trees, list_tree, lux_attribute_trees, lux_child_trees,
    optional_block_tree, optional_expression_tree, optional_last_statement_tree,
    optional_lux_attribute_value_tree, statement_trees, variable_trees,
};
use crate::nodes::tree::{lemma_child_is_shallower, Tree};
use crate::nodes::unfold::{
    lemma_branch_trees, lemma_entry_trees, lemma_expression_trees, lemma_lux_attribute_trees,
    lemma_lux_child_trees, lemma_optional_block_tree, lemma_optional_expression_tree,
    lemma_optional_last_statement_tree, lemma_optional_lux_attribute_value_tree,
    lemma_statement_trees, lemma_variable_trees,
};
use crate::process::node_processor::NodeProcessorMut;
use crate::process::mutating::blocks::{visit_block, visit_last_statement, visit_statement};
use crate::process::mutating::expressions::{visit_entry, visit_expression};
use crate::process::mutating::markup::{
    visit_lux_attribute, visit_lux_attribute_value, visit_lux_child,
};
use crate::process::mutating::statements::{visit_branch, visit_variable};
use crate::process::walk::{
    lemma_walk_node, lemma_walked_1, lemma_walked_leaf, lemma_walked_none, lemma_walked_push,
    walked, walked_through,
};

verus! {

/// Walks statements in order.
pub fn visit_statements<P: NodeProcessorMut>(statements: &mut Vec<Statement>, processor: &mut P)
    ensures
        walked(
            *old(processor),
            list_tree(statement_trees(old(statements)@)),
            *final(processor),
            list_tree(statement_trees(final(statements)@)),
        ),
    decreases list_tree(statement_trees(old(statements)@)).depth(), 0nat,
{
    let ghost node = list_tree(statement_trees(statements@));
    let ghost given = statement_trees(statements@);
    let count = statements.len();
    let mut i: usize = 0;
    proof {
        lemma_statement_trees(statements@);
        lemma_walked_none(*old(processor), node.depth());
        assert(given.take(0) =~= Seq::<Tree>::empty());
        assert(statement_trees(statements@).take(0) =~= Seq::<Tree>::empty());
    }
    while i < count
        invariant
            i <= count,
            statements@.len() == count,
            given.len() == count,
            node == list_tree(given),
            node.depth() == list_tree(statement_trees(old(statements)@)).depth(),
            forall|k: int| i <= k < count ==> statements@[k]@ == #[trigger] given[k],
            walked_through(
                *old(processor),
                given.take(i as int),
                *processor,
                statement_trees(statements@).take(i as int),
                node.depth(),
            ),
        decreases count - i,
    {
        let ghost start = *processor;
        let ghost items = statements@;
        let ghost before = statement_trees(statements@);
        let ghost child = statements@[i as int]@;
        proof {
            lemma_statement_trees(statements@);
            assert(given[i as int] == child);
            assert(node.children[i as int] == child);
            lemma_child_is_shallower(node, i as int);
        }
        visit_statement(&mut statements[i], processor);
        proof {
            let now = statement_trees(statements@);
            lemma_statement_trees(statements@);
            lemma_statement_trees(items);
            lemma_walked_push(
                *old(processor),
                given.take(i as int),
                start,
                before.take(i as int),
                child,
                *processor,
                statements@[i as int]@,
                node.depth(),
            );
            assert(given.take(i + 1) =~= given.take(i as int).push(child));
            assert forall|k: int| 0 <= k < count && k != i implies now[k] == before[k] by {
                assert(statements@[k] == items[k]);
            }
            assert(now.take(i + 1) =~= before.take(i as int).push(statements@[i as int]@));
            assert forall|k: int| i + 1 <= k < count implies statements@[k]@ == #[trigger] given[k] by {
                assert(statements@[k] == items[k]);
            }
        }
        i += 1;
    }
    proof {
        lemma_statement_trees(statements@);
        assert(given.take(count as int) =~= given);
        assert(statement_trees(statements@).take(count as int) =~= statement_trees(statements@));
        lemma_walk_node(*old(processor), node, *old(processor), node, *processor, statement_trees(statements@));
        assert(node.with_children(statement_trees(statements@)) == list_tree(statement_trees(statements@)));
    }
}

/// Walks expressions in order.
pub fn visit_expressions<P: NodeProcessorMut>(expressions: &mut Vec<Expression>, processor: &mut P)
    ensures
        walked(
            *old(processor),
            list_tree(expression_trees(old(expressions)@)),
            *final(processor),
            list_tree(expression_trees(final(expressions)@)),
        ),
    decreases list_tree(expression_trees(old(expressions)@)).depth(), 0nat,
{
    let ghost node = list_tree(expression_trees(expressions@));
    let ghost given = expression_trees(expressions@);
    let count = expressions.len();
    let mut i: usize = 0;
    proof {
        lemma_expression_trees(expressions@);
        lemma_walked_none(*old(processor), node.depth());
        assert(given.take(0) =~= Seq::<Tree>::empty());
        assert(expression_trees(expressions@).take(0) =~= Seq::<Tree>::empty());
    }
    while i < count
        invariant
            i <= count,
            expressions@.len() == count,
            given.len() == count,
            node == list_tree(given),
            node.depth() == list_tree(expression_trees(old(expressions)@)).depth(),
            forall|k: int| i <= k < count ==> expressions@[k]@ == #[trigger] given[k],
            walked_through(
                *old(processor),
                given.take(i as int),
                *processor,
                expression_trees(expressions@).take(i as int),
                node.depth(),
            ),
        decreases count - i,
    {
        let ghost start = *processor;
        let ghost items = expressions@;
        let ghost before = expression_trees(expressions@);
        let ghost child = expressions@[i as int]@;
        proof {
            lemma_expression_trees(expressions@);
            assert(given[i as int] == child);
            assert(node.children[i as int] == child);
            lemma_child_is_shallower(node, i as int);
        }
        visit_expression(&mut expressions[i], processor);
        proof {
            let now = expression_trees(expressions@);
            lemma_expression_trees(expressions@);
            lemma_expression_trees(items);
            lemma_walked_push(
                *old(processor),
                given.take(i as int),
                start,
                before.take(i as int),
                child,
                *processor,
                expressions@[i as int]@,
                node.depth(),
            );
            assert(given.take(i + 1) =~= given.take(i as int).push(child));
            assert forall|k: int| 0 <= k < count && k != i implies now[k] == before[k] by {
                assert(expressions@[k] == items[k]);
            }
            assert(now.take(i + 1) =~= before.take(i as int).push(expressions@[i as int]@));
            assert forall|k: int| i + 1 <= k < count implies expressions@[k]@ == #[trigger] given[k] by {
                assert(expressions@[k] == items[k]);
            }
        }
        i += 1;
    }
    proof {
        lemma_expression_trees(expressions@);
        assert(given.take(count as int) =~= given);
        assert(expression_trees(expressions@).take(count as int) =~= expression_trees(expressions@));
        lemma_walk_node(*old(processor), node, *old(processor), node, *processor, expression_trees(expressions@));
        assert(node.with_children(expression_trees(expressions@)) == list_tree(expression_trees(expressions@)));
    }
}

/// Walks the variables of an assignment in order.
pub fn visit_variables<P: NodeProcessorMut>(variables: &mut Vec<Variable>, processor: &mut P)
    ensures
        walked(
            *old(processor),
            list_tree(variable_trees(old(variables)@)),
            *final(processor),
            list_tree(variable_trees(final(variables)@)),
        ),
    decreases list_tree(variable_trees(old(variables)@)).depth(), 0nat,
{
    let ghost node = list_tree(variable_trees(variables@));
    let ghost given = variable_trees(variables@);
    let count = variables.len();
    let mut i: usize = 0;
    proof {
        lemma_variable_trees(variables@);
        lemma_walked_none(*old(processor), node.depth());
        assert(given.take(0) =~= Seq::<Tree>::empty());
        assert(variable_trees(variables@).take(0) =~= Seq::<Tree>::empty());
    }
    while i < count
        invariant
            i <= count,
            variables@.len() == count,
            given.len() == count,
            node == list_tree(given),
            node.depth() == list_tree(variable_trees(old(variables)@)).depth(),
            forall|k: int| i <= k < count ==> variables@[k]@ == #[trigger] given[k],
            walked_through(
                *old(processor),
                given.take(i as int),
                *processor,
                variable_trees(variables@).take(i as int),
                node.depth(),
            ),
        decreases count - i,
    {
        let ghost start = *processor;
        let ghost items = variables@;
        let ghost before = variable_trees(variables@);
        let ghost child = variables@[i as int]@;
        proof {
            lemma_variable_trees(variables@);
            assert(given[i as int] == child);
            assert(node.children[i as int] == child);
            lemma_child_is_shallower(node, i as int);
        }
        visit_variable(&mut variables[i], processor);
        proof {
            let now = variable_trees(variables@);
            lemma_variable_trees(variables@);
            lemma_variable_trees(items);
            lemma_walked_push(
                *old(processor),
                given.take(i as int),
                start,
                before.take(i as int),
                child,
                *processor,
                variables@[i as int]@,
                node.depth(),
            );
            assert(given.take(i + 1) =~= given.take(i as int).push(child));
            assert forall|k: int| 0 <= k < count && k != i implies now[k] == before[k] by {
                assert(variables@[k] == items[k]);
            }
            assert(now.take(i + 1) =~= before.take(i as int).push(variables@[i as int]@));
            assert forall|k: int| i + 1 <= k < count implies variables@[k]@ == #[trigger] given[k] by {
                assert(variables@[k] == items[k]);
            }
        }
        i += 1;
    }
    proof {
        lemma_variable_trees(variables@);
        assert(given.take(count as int) =~= given);
        assert(variable_trees(variables@).take(count as int) =~= variable_trees(variables@));
        lemma_walk_node(*old(processor), node, *old(processor), node, *processor, variable_trees(variables@));
        assert(node.with_children(variable_trees(variables@)) == list_tree(variable_trees(variables@)));
    }
}

/// Walks the branches of an if statement in order.
pub fn visit_branches<P: NodeProcessorMut>(branches: &mut Vec<IfBranch>, processor: &mut P)
    ensures
        walked(
            *old(processor),
            list_tree(branch_trees(old(branches)@)),
            *final(processor),
            list_tree(branch_trees(final(branches)@)),
        ),
    decreases list_tree(branch_trees(old(branches)@)).depth(), 0nat,
{
    let ghost node = list_tree(branch_trees(branches@));
    let ghost given = branch_trees(branches@);
    let count = branches.len();
    let mut i: usize = 0;
    proof {
        lemma_branch_trees(branches@);
        lemma_walked_none(*old(processor), node.depth());
        assert(given.take(0) =~= Seq::<Tree>::empty());
        assert(branch_trees(branches@).take(0) =~= Seq::<Tree>::empty());
    }
    while i < count
        invariant
            i <= count,
            branches@.len() == count,
            given.len() == count,
            node == list_tree(given),
            node.depth() == list_tree(branch_trees(old(branches)@)).depth(),
            forall|k: int| i <= k < count ==> branches@[k]@ == #[trigger] given[k],
            walked_through(
                *old(processor),
                given.take(i as int),
                *processor,
                branch_trees(branches@).take(i as int),
                node.depth(),
            ),
        decreases count - i,
    {
        let ghost start = *processor;
        let ghost items = branches@;
        let ghost before = branch_trees(branches@);
        let ghost child = branches@[i as int]@;
        proof {
            lemma_branch_trees(branches@);
            assert(given[i as int] == child);
            assert(node.children[i as int] == child);
            lemma_child_is_shallower(node, i as int);
        }
        visit_branch(&mut branches[i], processor);
        proof {
            let now = branch_trees(branches@);
            lemma_branch_trees(branches@);
            lemma_branch_trees(items);
            lemma_walked_push(
                *old(processor),
                given.take(i as int),
                start,
                before.take(i as int),
                child,
                *processor,
                branches@[i as int]@,
                node.depth(),
            );
            assert(given.take(i + 1) =~= given.take(i as int).push(child));
            assert forall|k: int| 0 <= k < count && k != i implies now[k] == before[k] by {
                assert(branches@[k] == items[k]);
            }
            assert(now.take(i + 1) =~= before.take(i as int).push(branches@[i as int]@));
            assert forall|k: int| i + 1 <= k < count implies branches@[k]@ == #[trigger] given[k] by {
                assert(branches@[k] == items[k]);
            }
        }
        i += 1;
    }
    proof {
        lemma_branch_trees(branches@);
        assert(given.take(count as int) =~= given);
        assert(branch_trees(branches@).take(count as int) =~= branch_trees(branches@));
        lemma_walk_node(*old(processor), node, *old(processor), node, *processor, branch_trees(branches@));
        assert(node.with_children(branch_trees(branches@)) == list_tree(branch_trees(branches@)));
    }
}

/// Walks the entries of a table in order.
pub fn visit_entries<P: NodeProcessorMut>(entries: &mut Vec<TableEntry>, processor: &mut P)
    ensures
        walked(
            *old(processor),
            list_tree(entry_trees(old(entries)@)),
            *final(processor),
            list_tree(entry_trees(final(entries)@)),
        ),
    decreases list_tree(entry_trees(old(entries)@)).depth(), 0nat,
{
    let ghost node = list_tree(entry_trees(entries@));
    let ghost given = entry_trees(entries@);
    let count = entries.len();
    let mut i: usize = 0;
    proof {
        lemma_entry_trees(entries@);
        lemma_walked_none(*old(processor), node.depth());
        assert(given.take(0) =~= Seq::<Tree>::empty());
        assert(entry_trees(entries@).take(0) =~= Seq::<Tree>::empty());
    }
    while i < count
        invariant
            i <= count,
            entries@.len() == count,
            given.len() == count,
            node == list_tree(given),
            node.depth() == list_tree(entry_trees(old(entries)@)).depth(),
            forall|k: int| i <= k < count ==> entries@[k]@ == #[trigger] given[k],
            walked_through(
                *old(processor),
                given.take(i as int),
                *processor,
                entry_trees(entries@).take(i as int),
                node.depth(),
            ),
        decreases count - i,
    {
        let ghost start = *processor;
        let ghost items = entries@;
        let ghost before = entry_trees(entries@);
        let ghost child = entries@[i as int]@;
        proof {
            lemma_entry_trees(entries@);
            assert(given[i as int] == child);
            assert(node.children[i as int] == child);
            lemma_child_is_shallower(node, i as int);
        }
        visit_entry(&mut entries[i], processor);
        proof {
            let now = entry_trees(entries@);
            lemma_entry_trees(entries@);
            lemma_entry_trees(items);
            lemma_walked_push(
                *old(processor),
                given.take(i as int),
                start,
                before.take(i as int),
                child,
                *processor,
                entries@[i as int]@,
                node.depth(),
            );
            assert(given.take(i + 1) =~= given.take(i as int).push(child));
            assert forall|k: int| 0 <= k < count && k != i implies now[k] == before[k] by {
                assert(entries@[k] == items[k]);
            }
            assert(now.take(i + 1) =~= before.take(i as int).push(entries@[i as int]@));
            assert forall|k: int| i + 1 <= k < count implies entries@[k]@ == #[trigger] given[k] by {
                assert(entries@[k] == items[k]);
            }
        }
        i += 1;
    }
    proof {
        lemma_entry_trees(entries@);
        assert(given.take(count as int) =~= given);
        assert(entry_trees(entries@).take(count as int) =~= entry_trees(entries@));
        lemma_walk_node(*old(processor), node, *old(processor), node, *processor, entry_trees(entries@));
        assert(node.with_children(entry_trees(entries@)) == list_tree(entry_trees(entries@)));
    }
}

/// Walks attributes in order.
pub fn visit_lux_attributes<P: NodeProcessorMut>(attributes: &mut Vec<LUXAttribute>, processor: &mut P)
    ensures
        walked(
            *old(processor),
            list_tree(lux_attribute_trees(old(attributes)@)),
            *final(processor),
            list_tree(lux_attribute_trees(final(attributes)@)),
        ),
    decreases list_tree(lux_attribute_trees(old(attributes)@)).depth(), 0nat,
{
    let ghost node = list_tree(lux_attribute_trees(attributes@));
    let ghost given = lux_attribute_trees(attributes@);
    let count = attributes.len();
    let mut i: usize = 0;
    proof {
        lemma_lux_attribute_trees(attributes@);
        lemma_walked_none(*old(processor), node.depth());
        assert(given.take(0) =~= Seq::<Tree>::empty());
        assert(lux_attribute_trees(attributes@).take(0) =~= Seq::<Tree>::empty());
    }
    while i < count
        invariant
            i <= count,
            attributes@.len() == count,
            given.len() == count,
            node == list_tree(given),
            node.depth() == list_tree(lux_attribute_trees(old(attributes)@)).depth(),
            forall|k: int| i <= k < count ==> attributes@[k]@ == #[trigger] given[k],
            walked_through(
                *old(processor),
                given.take(i as int),
                *processor,
                lux_attribute_trees(attributes@).take(i as int),
                node.depth(),
            ),
        decreases count - i,
    {
        let ghost start = *processor;
        let ghost items = attributes@;
        let ghost before = lux_attribute_trees(attributes@);
        let ghost child = attributes@[i as int]@;
        proof {
            lemma_lux_attribute_trees(attributes@);
            assert(given[i as int] == child);
            assert(node.children[i as int] == child);
            lemma_child_is_shallower(node, i as int);
        }
        visit_lux_attribute(&mut attributes[i], processor);
        proof {
            let now = lux_attribute_trees(attributes@);
            lemma_lux_attribute_trees(attributes@);
            lemma_lux_attribute_trees(items);
            lemma_walked_push(
                *old(processor),
                given.take(i as int),
                start,
                before.take(i as int),
                child,
                *processor,
                attributes@[i as int]@,
                node.depth(),
            );
            assert(given.take(i + 1) =~= given.take(i as int).push(child));
            assert forall|k: int| 0 <= k < count && k != i implies now[k] == before[k] by {
                assert(attributes@[k] == items[k]);
            }
            assert(now.take(i + 1) =~= before.take(i as int).push(attributes@[i as int]@));
            assert forall|k: int| i + 1 <= k < count implies attributes@[k]@ == #[trigger] given[k] by {
                assert(attributes@[k] == items[k]);
            }
        }
        i += 1;
    }
    proof {
        lemma_lux_attribute_trees(attributes@);
        assert(given.take(count as int) =~= given);
        assert(lux_attribute_trees(attributes@).take(count as int) =~= lux_attribute_trees(attributes@));
        lemma_walk_node(*old(processor), node, *old(processor), node, *processor, lux_attribute_trees(attributes@));
        assert(node.with_children(lux_attribute_trees(attributes@)) == list_tree(lux_attribute_trees(attributes@)));
    }
}

/// Walks the children of an element or fragment in order.
pub fn visit_lux_children<P: NodeProcessorMut>(children: &mut Vec<LUXChild>, processor: &mut P)
    ensures
        walked(
            *old(processor),
            list_tree(lux_child_trees(old(children)@)),
            *final(processor),
            list_tree(lux_child_trees(final(children)@)),
        ),
    decreases list_tree(lux_child_trees(old(children)@)).depth(), 0nat,
{
    let ghost node = list_tree(lux_child_trees(children@));
    let ghost given = lux_child_trees(children@);
    let count = children.len();
    let mut i: usize = 0;
    proof {
        lemma_lux_child_trees(children@);
        lemma_walked_none(*old(processor), node.depth());
        assert(given.take(0) =~= Seq::<Tree>::empty());
        assert(lux_child_trees(children@).take(0) =~= Seq::<Tree>::empty());
    }
    while i < count
        invariant
            i <= count,
            children@.len() == count,
            given.len() == count,
            node == list_tree(given),
            node.depth() == list_tree(lux_child_trees(old(children)@)).depth(),
            forall|k: int| i <= k < count ==> children@[k]@ == #[trigger] given[k],
            walked_through(
                *old(processor),
                given.take(i as int),
                *processor,
                lux_child_trees(children@).take(i as int),
                node.depth(),
            ),
        decreases count - i,
    {
        let ghost start = *processor;
        let ghost items = children@;
        let ghost before = lux_child_trees(children@);
        let ghost child = children@[i as int]@;
        proof {
            lemma_lux_child_trees(children@);
            assert(given[i as int] == child);
            assert(node.children[i as int] == child);
            lemma_child_is_shallower(node, i as int);
        }
        visit_lux_child(&mut children[i], processor);
        proof {
            let now = lux_child_trees(children@);
            lemma_lux_child_trees(children@);
            lemma_lux_child_trees(items);
            lemma_walked_push(
                *old(processor),
                given.take(i as int),
                start,
                before.take(i as int),
                child,
                *processor,
                children@[i as int]@,
                node.depth(),
            );
            assert(given.take(i + 1) =~= given.take(i as int).push(child));
            assert forall|k: int| 0 <= k < count && k != i implies now[k] == before[k] by {
                assert(children@[k] == items[k]);
            }
            assert(now.take(i + 1) =~= before.take(i as int).push(children@[i as int]@));
            assert forall|k: int| i + 1 <= k < count implies children@[k]@ == #[trigger] given[k] by {
                assert(children@[k] == items[k]);
            }
        }
        i += 1;
    }
    proof {
        lemma_lux_child_trees(children@);
        assert(given.take(count as int) =~= given);
        assert(lux_child_trees(children@).take(count as int) =~= lux_child_trees(children@));
        lemma_walk_node(*old(processor), node, *old(processor), node, *processor, lux_child_trees(children@));
        assert(node.with_children(lux_child_trees(children@)) == list_tree(lux_child_trees(children@)));
    }
}

/// Walks the last statement of a block, where it has one.
pub fn visit_optional_last_statement<P: NodeProcessorMut>(statement: &mut Option<LastStatement>, processor: &mut P)
    ensures
        walked(*old(processor), optional_last_statement_tree(*old(statement)), *final(processor), optional_last_statement_tree(*final(statement))),
    decreases optional_last_statement_tree(*old(statement)).depth(), 1nat,
{
    let ghost handed = *processor;
    let ghost node = optional_last_statement_tree(*statement);
    let ghost mut rebuilt = node;
    proof {
        lemma_optional_last_statement_tree(*statement);
    }
    match statement {
        Some(inner) => {
            proof {
                assert(node.children[0] == inner@);
                lemma_child_is_shallower(node, 0);
            }
            visit_last_statement(inner, processor);
            let ghost after_first = *processor;
            let ghost first = inner@;
            proof {
                lemma_walked_1(*old(processor), optional_last_statement_tree(*old(statement)), handed, node, after_first, first);
                rebuilt = node.with_children(seq![first]);
            }
        },
        None => {
            proof {
                lemma_walked_leaf(*old(processor), optional_last_statement_tree(*old(statement)), handed, node);
            }
        },
    }
    proof {
        lemma_optional_last_statement_tree(*statement);
        assert(optional_last_statement_tree(*statement) == rebuilt);
    }
}

/// Walks a block that may be absent.
pub fn visit_optional_block<P: NodeProcessorMut>(block: &mut Option<Block>, processor: &mut P)
    ensures
        walked(*old(processor), optional_block_tree(*old(block)), *final(processor), optional_block_tree(*final(block))),
    decreases optional_block_tree(*old(block)).depth(), 1nat,
{
    let ghost handed = *processor;
    let ghost node = optional_block_tree(*block);
    let ghost mut rebuilt = node;
    proof {
        lemma_optional_block_tree(*block);
    }
    match block {
        Some(inner) => {
            proof {
                assert(node.children[0] == inner@);
                lemma_child_is_shallower(node, 0);
            }
            visit_block(inner, processor);
            let ghost after_first = *processor;
            let ghost first = inner@;
            proof {
                lemma_walked_1(*old(processor), optional_block_tree(*old(block)), handed, node, after_first, first);
                rebuilt = node.with_children(seq![first]);
            }
        },
        None => {
            proof {
                lemma_walked_leaf(*old(processor), optional_block_tree(*old(block)), handed, node);
            }
        },
    }
    proof {
        lemma_optional_block_tree(*block);
        assert(optional_block_tree(*block) == rebuilt);
    }
}

/// Walks an expression that may be absent.
pub fn visit_optional_expression<P: NodeProcessorMut>(expression: &mut Option<Expression>, processor: &mut P)
    ensures
        walked(*old(processor), optional_expression_tree(*old(expression)), *final(processor), optional_expression_tree(*final(expression))),
    decreases optional_expression_tree(*old(expression)).depth(), 1nat,
{
    let ghost handed = *processor;
    let ghost node = optional_expression_tree(*expression);
    let ghost mut rebuilt = node;
    proof {
        lemma_optional_expression_tree(*expression);
    }
    match expression {
        Some(inner) => {
            proof {
                assert(node.children[0] == inner@);
                lemma_child_is_shallower(node, 0);
            }
            visit_expression(inner, processor);
            let ghost after_first = *processor;
            let ghost first = inner@;
            proof {
                lemma_walked_1(*old(processor), optional_expression_tree(*old(expression)), handed, node, after_first, first);
                rebuilt = node.with_children(seq![first]);
            }
        },
        None => {
            proof {
                lemma_walked_leaf(*old(processor), optional_expression_tree(*old(expression)), handed, node);
            }
        },
    }
    proof {
        lemma_optional_expression_tree(*expression);
        assert(optional_expression_tree(*expression) == rebuilt);
    }
}

/// Walks the value of an attribute, where it has one.
pub fn visit_optional_lux_attribute_value<P: NodeProcessorMut>(value: &mut Option<LUXAttributeValue>, processor: &mut P)
    ensures
        walked(*old(processor), optional_lux_attribute_value_tree(*old(value)), *final(processor), optional_lux_attribute_value_tree(*final(value))),
    decreases optional_lux_attribute_value_tree(*old(value)).depth(), 1nat,
{
    let ghost handed = *processor;
    let ghost node = optional_lux_attribute_value_tree(*value);
    let ghost mut rebuilt = node;
    proof {
        lemma_optional_lux_attribute_value_tree(*value);
    }
    match value {
        Some(inner) => {
            proof {
                assert(node.children[0] == inner@);
                lemma_child_is_shallower(node, 0);
            }
            visit_lux_attribute_value(inner, processor);
            let ghost after_first = *processor;
            let ghost first = inner@;
            proof {
                lemma_walked_1(*old(processor), optional_lux_attribute_value_tree(*old(value)), handed, node, after_first, first);
                rebuilt = node.with_children(seq![first]);
            }
        },
        None => {
            proof {
                lemma_walked_leaf(*old(processor), optional_lux_attribute_value_tree(*old(value)), handed, node);
            }
        },
    }
    proof {
        lemma_optional_lux_attribute_value_tree(*value);
        assert(optional_lux_attribute_value_tree(*value) == rebuilt);
    }
}

} // verus!
