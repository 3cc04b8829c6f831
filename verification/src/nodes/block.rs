//! The block: statements in order, and the statement that may end them.
use vstd::prelude::*;
use vstd::std_specs::convert::IntoSpec;
use crate::nodes::list::{decides, retain};
use crate::nodes::statements::{LastStatement, Statement};

verus! {

#[derive(Debug, PartialEq, Eq)]
pub struct Block {
    pub statements: Vec<Statement>,
    pub last_statement: Option<LastStatement>,
}

impl Block {
    pub fn new(statements: Vec<Statement>, last_statement: Option<LastStatement>) -> (block: Self)
        ensures
            block.statements == statements,
            block.last_statement == last_statement,
    {
        Self { statements, last_statement }
    }

    /// The block with one more statement at its end.
    pub fn with_statement<T: Into<Statement>>(self, statement: T) -> (block: Self)
        ensures
            block.last_statement == self.last_statement,
            block.statements@.len() == self.statements@.len() + 1,
            block.statements@.drop_last() == self.statements@,
            T::obeys_into_spec() ==> block.statements@.last() == statement.into_spec(),
    {
        let mut block = self;
        block.statements.push(statement.into());
        assert(block.statements@.drop_last() =~= self.statements@);
        block
    }

    /// The block ending in that statement, in place of the one it may have had.
    pub fn with_last_statement(self, last_statement: LastStatement) -> (block: Self)
        ensures
            block.statements == self.statements,
            block.last_statement == Some(last_statement),
    {
        let mut block = self;
        block.last_statement = Some(last_statement);
        block
    }

    /// A block is empty when it has no statement and no last statement.
    pub open spec fn spec_is_empty(&self) -> bool {
        self.last_statement is None && self.statements@.len() == 0
    }

    #[verifier::when_used_as_spec(spec_is_empty)]
    pub fn is_empty(&self) -> (empty: bool)
        ensures
            empty == self.spec_is_empty(),
    {
        self.last_statement.is_none() && self.statements.len() == 0
    }

    pub fn get_statements(&self) -> (statements: &Vec<Statement>)
        ensures
            *statements == self.statements,
    {
        &self.statements
    }

    pub fn get_last_statement(&self) -> (last_statement: Option<&LastStatement>)
        ensures
            match self.last_statement {
                Some(last) => last_statement == Some(&last),
                None => last_statement is None,
            },
    {
        self.last_statement.as_ref()
    }

    /// Keeps the statements that `keep` accepts, in their order, and drops the
    /// others. The last statement stays.
    pub fn filter_statements<F: Fn(&Statement) -> bool>(&mut self, keep: F)
        requires
            forall|i: int|
                0 <= i < old(self).statements@.len() ==> call_requires(
                    keep,
                    (&#[trigger] old(self).statements@[i],),
                ),
        ensures
            final(self).last_statement == old(self).last_statement,
            forall|accepts: spec_fn(Statement) -> bool|
                decides(keep, accepts) ==> final(self).statements@ == old(self).statements@.filter(
                    accepts,
                ),
    {
        retain(&mut self.statements, keep);
    }

    pub fn mutate_statements(&mut self) -> (statements: &mut Vec<Statement>)
        ensures
            *statements == old(self).statements,
            final(self).statements == *final(statements),
            final(self).last_statement == old(self).last_statement,
    {
        &mut self.statements
    }

    pub fn mutate_last_statement(&mut self) -> (last_statement: &mut Option<LastStatement>)
        ensures
            *last_statement == old(self).last_statement,
            final(self).last_statement == *final(last_statement),
            final(self).statements == old(self).statements,
    {
        &mut self.last_statement
    }

    pub fn mutate_all_statements(&mut self) -> (parts: (&mut Vec<Statement>, &mut Option<LastStatement>))
        ensures
            *parts.0 == old(self).statements,
            *parts.1 == old(self).last_statement,
            final(self).statements == *final(parts.0),
            final(self).last_statement == *final(parts.1),
    {
        (&mut self.statements, &mut self.last_statement)
    }

    /// Drops every statement, the last one too.
    pub fn clear(&mut self)
        ensures
            final(self).is_empty(),
    {
        self.statements.clear();
        self.last_statement = None;
    }
}

impl Default for Block {
    fn default() -> (block: Self)
        ensures
            block.is_empty(),
    {
        Self::new(Vec::new(), None)
    }
}

} // verus!
