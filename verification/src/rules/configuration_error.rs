//! What can be wrong with the properties given to a rule.
use vstd::prelude::*;

verus! {

/// What an error says, whatever memory holds its texts.
pub ghost enum Problem {
    UnexpectedProperty(Seq<char>),
    MissingProperty(Seq<char>),
    StringExpected(Seq<char>),
    UsizeExpected(Seq<char>),
    StringListExpected(Seq<char>),
    UnexpectedValueType(Seq<char>),
    UnexpectedValue { property: Seq<char>, value: Seq<char>, suggestion: Option<Seq<char>> },
}

#[derive(Clone, Debug, PartialEq, Eq)]
pub enum RuleConfigurationError {
    /// The rule has no property of this name.
    UnexpectedProperty(String),
    /// The rule needs the property of this name, and it is not there.
    MissingProperty(String),
    /// The property of this name must be a string.
    StringExpected(String),
    /// The property of this name must be an unsigned integer.
    UsizeExpected(String),
    /// The property of this name must be a list of strings.
    StringListExpected(String),
    /// The property of this name has a value of a type that it cannot take.
    UnexpectedValueType(String),
    /// The property has a value of the right type that it cannot take.
    UnexpectedValue { property: String, value: String, suggestion: Option<String> },
}

impl View for RuleConfigurationError {
    type V = Problem;

    open spec fn view(&self) -> Problem {
        match self {
            RuleConfigurationError::UnexpectedProperty(name) => Problem::UnexpectedProperty(name@),
            RuleConfigurationError::MissingProperty(name) => Problem::MissingProperty(name@),
            RuleConfigurationError::StringExpected(name) => Problem::StringExpected(name@),
            RuleConfigurationError::UsizeExpected(name) => Problem::UsizeExpected(name@),
            RuleConfigurationError::StringListExpected(name) => Problem::StringListExpected(name@),
            RuleConfigurationError::UnexpectedValueType(name) => Problem::UnexpectedValueType(name@),
            RuleConfigurationError::UnexpectedValue { property, value, suggestion } => Problem::UnexpectedValue {
                property: property@,
                value: value@,
                suggestion: match suggestion {
                    Some(text) => Some(text@),
                    None => None,
                },
            },
        }
    }
}

} // verus!
