//! The declaration of local variables, with the tokens it was written with.
use vstd::prelude::*;
use crate::nodes::expressions::Expression;
use crate::nodes::token::{Identifier, Token};

verus! {

/// Every token of `cleared` is the token of `tokens` in its place, without comments.
pub open spec fn tokens_without_comments(tokens: Seq<Token>, cleared: Seq<Token>) -> bool {
    &&& cleared.len() == tokens.len()
    &&& forall|i: int| 0 <= i < tokens.len() ==> (#[trigger] tokens[i]).without_comments(cleared[i])
}

/// Every token of `cleared` is the token of `tokens` in its place, without whitespace.
pub open spec fn tokens_without_whitespaces(tokens: Seq<Token>, cleared: Seq<Token>) -> bool {
    &&& cleared.len() == tokens.len()
    &&& forall|i: int| 0 <= i < tokens.len() ==> (#[trigger] tokens[i]).without_whitespaces(cleared[i])
}

/// Every identifier of `cleared` is the one of `identifiers` in its place, without comments.
pub open spec fn identifiers_without_comments(identifiers: Seq<Identifier>, cleared: Seq<Identifier>) -> bool {
    &&& cleared.len() == identifiers.len()
    &&& forall|i: int|
        0 <= i < identifiers.len() ==> (#[trigger] identifiers[i]).without_comments(cleared[i])
}

/// Every identifier of `cleared` is the one of `identifiers` in its place, without whitespace.
pub open spec fn identifiers_without_whitespaces(
    identifiers: Seq<Identifier>,
    cleared: Seq<Identifier>,
) -> bool {
    &&& cleared.len() == identifiers.len()
    &&& forall|i: int|
        0 <= i < identifiers.len() ==> (#[trigger] identifiers[i]).without_whitespaces(cleared[i])
}

fn clear_token_comments(tokens: &mut Vec<Token>)
    ensures
        tokens_without_comments(old(tokens)@, final(tokens)@),
{
    let mut i: usize = 0;
    let count = tokens.len();
    while i < count
        invariant
            i <= count,
            tokens@.len() == count,
            old(tokens)@.len() == count,
            forall|k: int| 0 <= k < i ==> (#[trigger] old(tokens)@[k]).without_comments(tokens@[k]),
            forall|k: int| i <= k < count ==> tokens@[k] == old(tokens)@[k],
        decreases count - i,
    {
        tokens[i].clear_comments();
        i += 1;
    }
}

fn clear_token_whitespaces(tokens: &mut Vec<Token>)
    ensures
        tokens_without_whitespaces(old(tokens)@, final(tokens)@),
{
    let mut i: usize = 0;
    let count = tokens.len();
    while i < count
        invariant
            i <= count,
            tokens@.len() == count,
            old(tokens)@.len() == count,
            forall|k: int| 0 <= k < i ==> (#[trigger] old(tokens)@[k]).without_whitespaces(tokens@[k]),
            forall|k: int| i <= k < count ==> tokens@[k] == old(tokens)@[k],
        decreases count - i,
    {
        tokens[i].clear_whitespaces();
        i += 1;
    }
}

fn clear_identifier_comments(identifiers: &mut Vec<Identifier>)
    ensures
        identifiers_without_comments(old(identifiers)@, final(identifiers)@),
{
    let mut i: usize = 0;
    let count = identifiers.len();
    while i < count
        invariant
            i <= count,
            identifiers@.len() == count,
            old(identifiers)@.len() == count,
            forall|k: int|
                0 <= k < i ==> (#[trigger] old(identifiers)@[k]).without_comments(identifiers@[k]),
            forall|k: int| i <= k < count ==> identifiers@[k] == old(identifiers)@[k],
        decreases count - i,
    {
        identifiers[i].clear_comments();
        i += 1;
    }
}

fn clear_identifier_whitespaces(identifiers: &mut Vec<Identifier>)
    ensures
        identifiers_without_whitespaces(old(identifiers)@, final(identifiers)@),
{
    let mut i: usize = 0;
    let count = identifiers.len();
    while i < count
        invariant
            i <= count,
            identifiers@.len() == count,
            old(identifiers)@.len() == count,
            forall|k: int|
                0 <= k < i ==> (#[trigger] old(identifiers)@[k]).without_whitespaces(identifiers@[k]),
            forall|k: int| i <= k < count ==> identifiers@[k] == old(identifiers)@[k],
        decreases count - i,
    {
        identifiers[i].clear_whitespaces();
        i += 1;
    }
}

/// The tokens of a local declaration: `local`, `=` where there are values,
/// and the commas between the variables and between the values.
#[derive(Clone, Debug, PartialEq, Eq)]
pub struct LocalAssignTokens {
    pub local: Token,
    pub equal: Option<Token>,
    pub variable_commas: Vec<Token>,
    pub value_commas: Vec<Token>,
}

impl LocalAssignTokens {
    /// The tokens as they are once their comments are gone.
    pub open spec fn without_comments(self, cleared: LocalAssignTokens) -> bool {
        &&& self.local.without_comments(cleared.local)
        &&& match self.equal {
            Some(equal) => cleared.equal matches Some(token) && equal.without_comments(token),
            None => cleared.equal is None,
        }
        &&& tokens_without_comments(self.variable_commas@, cleared.variable_commas@)
        &&& tokens_without_comments(self.value_commas@, cleared.value_commas@)
    }

    /// The tokens as they are once their whitespace is gone.
    pub open spec fn without_whitespaces(self, cleared: LocalAssignTokens) -> bool {
        &&& self.local.without_whitespaces(cleared.local)
        &&& match self.equal {
            Some(equal) => cleared.equal matches Some(token) && equal.without_whitespaces(token),
            None => cleared.equal is None,
        }
        &&& tokens_without_whitespaces(self.variable_commas@, cleared.variable_commas@)
        &&& tokens_without_whitespaces(self.value_commas@, cleared.value_commas@)
    }

    pub fn clear_comments(&mut self)
        ensures
            old(self).without_comments(*final(self)),
    {
        self.local.clear_comments();
        clear_token_comments(&mut self.variable_commas);
        clear_token_comments(&mut self.value_commas);
        match &mut self.equal {
            Some(token) => token.clear_comments(),
            None => {},
        }
    }

    pub fn clear_whitespaces(&mut self)
        ensures
            old(self).without_whitespaces(*final(self)),
    {
        self.local.clear_whitespaces();
        clear_token_whitespaces(&mut self.variable_commas);
        clear_token_whitespaces(&mut self.value_commas);
        match &mut self.equal {
            Some(token) => token.clear_whitespaces(),
            None => {},
        }
    }
}

/// `local variables = values`
///
/// There is at least one variable. There may be fewer values than variables
/// (the last variables start as nil) or more (the last values are computed
/// and dropped).
#[derive(Debug, PartialEq, Eq)]
pub struct LocalAssignStatement {
    pub variables: Vec<Identifier>,
    pub values: Vec<Expression>,
    pub tokens: Option<LocalAssignTokens>,
}

impl LocalAssignStatement {
    /// The declaration names a variable.
    pub open spec fn well_formed(self) -> bool {
        self.variables@.len() >= 1
    }

    pub fn new(variables: Vec<Identifier>, values: Vec<Expression>) -> (statement: Self)
        ensures
            statement.variables == variables,
            statement.values == values,
            statement.tokens is None,
    {
        Self { variables, values, tokens: None }
    }

    /// The declaration of one variable without a value.
    pub fn from_variable(variable: Identifier) -> (statement: Self)
        ensures
            statement.variables@ == seq![variable],
            statement.values@.len() == 0,
            statement.tokens is None,
            statement.well_formed(),
    {
        let mut variables = Vec::new();
        variables.push(variable);
        Self { variables, values: Vec::new(), tokens: None }
    }

    pub fn with_tokens(self, tokens: LocalAssignTokens) -> (statement: Self)
        ensures
            statement.variables == self.variables,
            statement.values == self.values,
            statement.tokens == Some(tokens),
    {
        let mut statement = self;
        statement.tokens = Some(tokens);
        statement
    }

    pub fn set_tokens(&mut self, tokens: LocalAssignTokens)
        ensures
            final(self).variables == old(self).variables,
            final(self).values == old(self).values,
            final(self).tokens == Some(tokens),
    {
        self.tokens = Some(tokens);
    }

    pub fn get_tokens(&self) -> (tokens: Option<&LocalAssignTokens>)
        ensures
            match self.tokens {
                Some(held) => tokens == Some(&held),
                None => tokens is None,
            },
    {
        self.tokens.as_ref()
    }

    pub fn with_variable(self, variable: Identifier) -> (statement: Self)
        ensures
            statement.variables@ == self.variables@.push(variable),
            statement.values == self.values,
            statement.tokens == self.tokens,
    {
        let mut statement = self;
        statement.variables.push(variable);
        statement
    }

    pub fn with_value(self, value: Expression) -> (statement: Self)
        ensures
            statement.variables == self.variables,
            statement.values@ == self.values@.push(value),
            statement.tokens == self.tokens,
    {
        let mut statement = self;
        statement.values.push(value);
        statement
    }

    /// The variables and the values, given away.
    pub fn into_assignments(self) -> (parts: (Vec<Identifier>, Vec<Expression>))
        ensures
            parts.0 == self.variables,
            parts.1 == self.values,
    {
        (self.variables, self.values)
    }

    /// Adds a variable and, at the end of the values, its value.
    pub fn append_assignment(&mut self, variable: Identifier, value: Expression)
        ensures
            final(self).variables@ == old(self).variables@.push(variable),
            final(self).values@ == old(self).values@.push(value),
            final(self).tokens == old(self).tokens,
    {
        self.variables.push(variable);
        self.values.push(value);
    }

    /// The value that stands at the place of the variable at `index`, if the
    /// values reach that far.
    pub open spec fn value_for(self, index: int) -> Option<Expression> {
        if 0 <= index < self.values@.len() {
            Some(self.values@[index])
        } else {
            None
        }
    }

    /// The variable at `index` with the value at the same place, where there
    /// is one; nothing where `index` is past the variables.
    pub fn get_assignment(&self, index: usize) -> (pair: Option<(&Identifier, Option<&Expression>)>)
        ensures
            match pair {
                Some((variable, value)) => {
                    &&& index < self.variables@.len()
                    &&& *variable == self.variables@[index as int]
                    &&& match self.value_for(index as int) {
                        Some(held) => value == Some(&held),
                        None => value is None,
                    }
                },
                None => index >= self.variables@.len(),
            },
    {
        if index < self.variables.len() {
            let value = if index < self.values.len() {
                Some(&self.values[index])
            } else {
                None
            };
            Some((&self.variables[index], value))
        } else {
            None
        }
    }

    pub fn get_variables(&self) -> (variables: &Vec<Identifier>)
        ensures
            *variables == self.variables,
    {
        &self.variables
    }

    pub fn get_variable(&self, index: usize) -> (variable: Option<&Identifier>)
        ensures
            index < self.variables@.len() ==> variable == Some(&self.variables@[index as int]),
            index >= self.variables@.len() ==> variable is None,
    {
        if index < self.variables.len() {
            Some(&self.variables[index])
        } else {
            None
        }
    }

    /// Moves the given variables to the end of those of the declaration.
    pub fn append_variables(&mut self, variables: &mut Vec<Identifier>)
        ensures
            final(self).variables@ == old(self).variables@ + old(variables)@,
            final(variables)@.len() == 0,
            final(self).values == old(self).values,
            final(self).tokens == old(self).tokens,
    {
        self.variables.append(variables);
    }

    pub fn get_values(&self) -> (values: &Vec<Expression>)
        ensures
            *values == self.values,
    {
        &self.values
    }

    pub fn mutate_values(&mut self) -> (values: &mut Vec<Expression>)
        ensures
            *values == old(self).values,
            final(self).values == *final(values),
            final(self).variables == old(self).variables,
            final(self).tokens == old(self).tokens,
    {
        &mut self.values
    }

    /// Puts the given values after those of the declaration.
    pub fn extend_values(&mut self, values: Vec<Expression>)
        ensures
            final(self).values@ == old(self).values@ + values@,
            final(self).variables == old(self).variables,
            final(self).tokens == old(self).tokens,
    {
        let mut values = values;
        self.values.append(&mut values);
    }

    /// Moves the given values to the end of those of the declaration.
    pub fn append_values(&mut self, values: &mut Vec<Expression>)
        ensures
            final(self).values@ == old(self).values@ + old(values)@,
            final(values)@.len() == 0,
            final(self).variables == old(self).variables,
            final(self).tokens == old(self).tokens,
    {
        self.values.append(values);
    }

    pub fn value_count(&self) -> (count: usize)
        ensures
            count == self.values@.len(),
    {
        self.values.len()
    }

    pub fn variable_count(&self) -> (count: usize)
        ensures
            count == self.variables@.len(),
    {
        self.variables.len()
    }

    pub fn has_values(&self) -> (has: bool)
        ensures
            has == (self.values@.len() > 0),
    {
        self.values.len() > 0
    }

    /// The declaration as it is once the comments of its variables and tokens are gone.
    pub open spec fn without_comments(self, cleared: LocalAssignStatement) -> bool {
        &&& cleared.values == self.values
        &&& identifiers_without_comments(self.variables@, cleared.variables@)
        &&& match self.tokens {
            Some(tokens) => cleared.tokens matches Some(held) && tokens.without_comments(held),
            None => cleared.tokens is None,
        }
    }

    /// The declaration as it is once the whitespace of its variables and tokens is gone.
    pub open spec fn without_whitespaces(self, cleared: LocalAssignStatement) -> bool {
        &&& cleared.values == self.values
        &&& identifiers_without_whitespaces(self.variables@, cleared.variables@)
        &&& match self.tokens {
            Some(tokens) => cleared.tokens matches Some(held) && tokens.without_whitespaces(held),
            None => cleared.tokens is None,
        }
    }

    pub fn clear_comments(&mut self)
        ensures
            old(self).without_comments(*final(self)),
    {
        clear_identifier_comments(&mut self.variables);
        match &mut self.tokens {
            Some(tokens) => tokens.clear_comments(),
            None => {},
        }
    }

    pub fn clear_whitespaces(&mut self)
        ensures
            old(self).without_whitespaces(*final(self)),
    {
        clear_identifier_whitespaces(&mut self.variables);
        match &mut self.tokens {
            Some(tokens) => tokens.clear_whitespaces(),
            None => {},
        }
    }
}

} // verus!
