//! Rules: the transformations of a block, and how they are configured.
use vstd::prelude::*;
use crate::nodes::block::Block;
use crate::nodes::tree::Tree;
use crate::rules::configuration_error::RuleConfigurationError;
use crate::rules::rule_property::{entries_data, PropertyData, RuleProperties};

pub mod call_parens;
pub mod configuration_error;
pub mod configured;
pub mod empty_do;
pub mod laws;
pub mod registry;
pub mod rule_property;
pub mod serialization;
pub mod settled;
pub mod sorted;

verus! {

/// What the rules that run on one file share: the path of that file.
#[derive(Clone, Debug, PartialEq, Eq)]
pub struct Context {
    pub current_path: String,
}

impl Context {
    /// The context of the file at `current_path`.
    pub fn new(current_path: String) -> (context: Self)
        ensures
            context.current_path == current_path,
    {
        Self { current_path }
    }

    pub fn get_current_path(&self) -> (path: &String)
        ensures
            *path == self.current_path,
    {
        &self.current_path
    }
}

impl Default for Context {
    /// The context of no file: its path is empty.
    fn default() -> (context: Self)
        ensures
            context.current_path@.len() == 0,
    {
        Self { current_path: String::new() }
    }
}

/// How a rule ends: well, or with the errors it met, in words.
pub type RuleProcessResult = Result<(), Vec<String>>;

/// How a rule is named and configured.
pub trait RuleConfiguration {
    /// The name of the rule.
    spec fn name(&self) -> Seq<char>;

    /// The properties of the rule that differ from their default: each
    /// name with what its value is.
    spec fn properties(&self) -> Seq<(Seq<char>, PropertyData)>;

    /// Sets the rule up by the given properties, or says what is wrong with them.
    fn configure(&mut self, properties: RuleProperties) -> Result<(), RuleConfigurationError>;

    /// The name of the rule, which no other rule has.
    fn get_name(&self) -> (name: &'static str)
        ensures
            name@ == self.name(),
    ;

    /// The properties of the rule that differ from their default.
    fn serialize_to_properties(&self) -> (properties: RuleProperties)
        ensures
            entries_data(properties.entries()) == self.properties(),
    ;

    /// Whether a property of the rule differs from its default.
    fn has_properties(&self) -> (has: bool)
        ensures
            has == (self.properties().len() > 0),
    {
        !self.serialize_to_properties().is_empty()
    }
}

/// A transformation of a block.
pub trait Rule: RuleConfiguration {
    /// Applies the rule to the block.
    fn process(&self, block: &mut Block, context: &mut Context) -> RuleProcessResult;
}

/// A rule that cannot fail.
pub trait FlawlessRule {
    /// The block as the rule leaves it.
    spec fn transformed(&self, block: Tree) -> Tree;

    /// Applies the rule to the block. The context stays as it is.
    fn flawless_process(&self, block: &mut Block, context: &mut Context)
        ensures
            final(block)@ == self.transformed(old(block)@),
            *final(context) == *old(context),
    ;
}

impl<T: FlawlessRule + RuleConfiguration> Rule for T {
    fn process(&self, block: &mut Block, context: &mut Context) -> (result: RuleProcessResult)
        ensures
            result is Ok,
            final(block)@ == self.transformed(old(block)@),
            *final(context) == *old(context),
    {
        self.flawless_process(block, context);
        Ok(())
    }
}

/// A rule without properties accepts no property: the first one given, if
/// any is, is reported as unexpected.
pub fn verify_no_rule_properties(properties: &RuleProperties) -> (result: Result<(), RuleConfigurationError>)
    ensures
        properties.entries().len() == 0 <==> result is Ok,
        properties.entries().len() > 0 ==> result == Err::<(), RuleConfigurationError>(
            RuleConfigurationError::UnexpectedProperty(properties.entries()[0].0),
        ),
{
    match properties.first_key() {
        Some(key) => Err(RuleConfigurationError::UnexpectedProperty(key.clone())),
        None => Ok(()),
    }
}

} // verus!
