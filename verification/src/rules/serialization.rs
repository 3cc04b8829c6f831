//! How a rule is written into a configuration and read from one: as its
//! bare name, or as an object that holds its name under `rule` beside its
//! properties.
use vstd::prelude::*;
use crate::rules::configuration_error::RuleConfigurationError;
use crate::rules::configured::{problem, shapes_of, ConfiguredRule};
use crate::rules::registry::{same_text, KnownRule};
use crate::rules::rule_property::{
    distinct_names, entries_data, position, PropertyData, RuleProperties, RulePropertyValue,
};
use crate::rules::sorted::{names_ascend, sort_by_name};
use crate::rules::RuleConfiguration;

verus! {

/// The key under which an object holds the name of its rule.
pub const RULE_KEY: &'static str = "rule";

/// A rule as a configuration holds it.
#[derive(Debug, PartialEq, Eq)]
pub enum SerializedRule {
    /// A rule whose properties all have their default: its name.
    Name(String),
    /// A rule with properties that differ from their default: its name and those properties.
    Object { rule: String, properties: Vec<(String, RulePropertyValue)> },
}

/// `serialized` is how a rule of the name `name` with the properties
/// `given` is written: as its name where it has no property, else as an
/// object with the properties in the order of their names.
pub open spec fn is_written(
    name: Seq<char>,
    given: Seq<(Seq<char>, PropertyData)>,
    serialized: SerializedRule,
) -> bool {
    match serialized {
        SerializedRule::Name(written) => written@ == name && given.len() == 0,
        SerializedRule::Object { rule: written, properties } => {
            &&& written@ == name
            &&& given.len() > 0
            &&& names_ascend(properties@)
            &&& distinct_names(properties@)
            &&& entries_data(properties@).to_multiset() == given.to_multiset()
        },
    }
}

/// `result` is what reading `serialized` gives.
pub open spec fn is_read(serialized: SerializedRule, result: Result<ConfiguredRule, RuleReadError>) -> bool {
    match serialized {
        SerializedRule::Name(name) => is_rule_read(name@, Seq::empty(), result),
        SerializedRule::Object { rule, properties } => if distinct_names(properties@) {
            is_rule_read(rule@, entries_data(properties@), result)
        } else {
            result matches Err(RuleReadError::DuplicateProperty(_))
        },
    }
}

/// Writes a rule: as its name where it has no property that differs from
/// its default, else as an object with those properties in the order of
/// their names.
pub fn serialize_rule<R: RuleConfiguration>(rule: &R) -> (serialized: SerializedRule)
    ensures
        is_written(rule.name(), rule.properties(), serialized),
{
    let properties = rule.serialize_to_properties();
    let name = rule.get_name().to_owned();
    if properties.is_empty() {
        SerializedRule::Name(name)
    } else {
        SerializedRule::Object { rule: name, properties: sort_by_name(properties.into_entries()) }
    }
}

/// Why an entry of a configuration is no rule.
#[derive(Debug, PartialEq, Eq)]
pub enum RuleReadError {
    /// The object holds this key twice; the key is `rule`.
    DuplicateField(String),
    /// The object lacks this key; the key is `rule`.
    MissingField(String),
    /// The object holds the property of this name twice.
    DuplicateProperty(String),
    /// No rule has this name.
    InvalidRuleName(String),
    /// The rule does not take the properties as they are given.
    Configuration(RuleConfigurationError),
}

/// `result` is what reading the name of a rule and its properties gives:
/// the rule of that name with those properties; or that no rule has the
/// name; or what is wrong with the properties for the rule of that name.
pub open spec fn is_rule_read(
    name: Seq<char>,
    given: Seq<(Seq<char>, PropertyData)>,
    result: Result<ConfiguredRule, RuleReadError>,
) -> bool {
    match result {
        Ok(configured) => {
            &&& configured.rule.name() == name
            &&& configured.given() == given
            &&& problem(shapes_of(configured.rule), given) is None
        },
        Err(RuleReadError::InvalidRuleName(invalid)) => invalid@ == name && forall|rule: KnownRule|
            rule.name() != name,
        Err(RuleReadError::Configuration(error)) => exists|rule: KnownRule|
            rule.name() == name && #[trigger] problem(shapes_of(rule), given) == Some(error@),
        Err(_) => false,
    }
}

/// The rule of the name with the properties, where the name is one of a
/// rule and the rule takes the properties.
pub fn configured_rule(name: &str, properties: RuleProperties) -> (result: Result<ConfiguredRule, RuleReadError>)
    ensures
        is_rule_read(name@, entries_data(properties.entries()), result),
{
    match KnownRule::from_name(name) {
        Ok(rule) => {
            let mut configured = ConfiguredRule::new(rule);
            match configured.configure(properties) {
                Ok(_) => Ok(configured),
                Err(error) => Err(RuleReadError::Configuration(error)),
            }
        },
        Err(invalid) => Err(RuleReadError::InvalidRuleName(invalid)),
    }
}

/// Reads a rule that a configuration holds as a bare name: the rule of that
/// name, without properties.
pub fn rule_from_name(name: &str) -> (result: Result<ConfiguredRule, RuleReadError>)
    ensures
        is_rule_read(name@, Seq::empty(), result),
{
    let properties = RuleProperties::new();
    assert(entries_data(properties.entries()) =~= Seq::empty());
    configured_rule(name, properties)
}

/// What was read of an object so far: the name of the rule, once its key
/// was met, and the properties met.
#[derive(Debug, PartialEq, Eq)]
pub struct RuleObjectReader {
    pub rule_name: Option<String>,
    pub properties: RuleProperties,
}

impl RuleObjectReader {
    /// Nothing was read yet.
    pub fn new() -> (reader: Self)
        ensures
            reader.rule_name is None,
            reader.properties.entries().len() == 0,
    {
        Self { rule_name: None, properties: RuleProperties::new() }
    }

    /// Whether what stands under the key is the name of the rule, and not a property.
    pub fn is_rule_key(key: &str) -> (is: bool)
        ensures
            is == (key@ == RULE_KEY@),
    {
        same_text(key, RULE_KEY)
    }

    /// Takes the name of the rule. An object holds it once: a second name is
    /// an error, and leaves what was read as it is.
    pub fn read_rule_name(&mut self, name: String) -> (result: Result<(), RuleReadError>)
        ensures
            final(self).properties == old(self).properties,
            match old(self).rule_name {
                None => result is Ok && final(self).rule_name == Some(name),
                Some(_) => final(self).rule_name == old(self).rule_name && (result matches Err(
                    RuleReadError::DuplicateField(key),
                ) && key@ == RULE_KEY@),
            },
    {
        if self.rule_name.is_none() {
            self.rule_name = Some(name);
            Ok(())
        } else {
            Err(RuleReadError::DuplicateField(RULE_KEY.to_owned()))
        }
    }

    /// Takes a property. An object holds a property once: a second value
    /// for a name is an error, and leaves what was read as it is.
    pub fn read_property(&mut self, key: String, value: RulePropertyValue) -> (result: Result<(), RuleReadError>)
        ensures
            final(self).rule_name == old(self).rule_name,
            match old(self).properties.value_of(key@) {
                None => result is Ok && final(self).properties.entries() == old(self).properties.entries().push(
                    (key, value),
                ),
                Some(_) => final(self).properties == old(self).properties && (result matches Err(
                    RuleReadError::DuplicateProperty(name),
                ) && name@ == key@),
            },
    {
        if self.properties.contains_key(key.as_str()) {
            Err(RuleReadError::DuplicateProperty(key))
        } else {
            self.properties.insert(key, value);
            Ok(())
        }
    }

    /// Ends the reading: the rule of the name that was read, with the
    /// properties that were read.
    pub fn finish(self) -> (result: Result<ConfiguredRule, RuleReadError>)
        ensures
            match self.rule_name {
                None => result matches Err(RuleReadError::MissingField(key)) && key@ == RULE_KEY@,
                Some(name) => is_rule_read(name@, entries_data(self.properties.entries()), result),
            },
    {
        match self.rule_name {
            Some(name) => configured_rule(name.as_str(), self.properties),
            None => Err(RuleReadError::MissingField(RULE_KEY.to_owned())),
        }
    }
}

/// The items of a list, the last one first.
fn reversed(items: Vec<(String, RulePropertyValue)>) -> (turned: Vec<(String, RulePropertyValue)>)
    ensures
        turned@ == items@.reverse(),
{
    let mut items = items;
    let ghost given = items@;
    let mut turned: Vec<(String, RulePropertyValue)> = Vec::new();
    while items.len() > 0
        invariant
            items@.len() + turned@.len() == given.len(),
            forall|k: int| 0 <= k < items@.len() ==> items@[k] == given[k],
            forall|k: int| 0 <= k < turned@.len() ==> turned@[k] == given[given.len() - 1 - k],
        decreases items@.len(),
    {
        match items.pop() {
            Some(item) => turned.push(item),
            None => {},
        }
    }
    assert(turned@ =~= given.reverse());
    turned
}

/// Reads a rule as a configuration holds it. The properties of an object
/// are read in their order, and the first error ends the reading.
pub fn deserialize_rule(serialized: SerializedRule) -> (result: Result<ConfiguredRule, RuleReadError>)
    ensures
        is_read(serialized, result),
{
    match serialized {
        SerializedRule::Name(name) => rule_from_name(name.as_str()),
        SerializedRule::Object { rule, properties } => {
            let ghost given = properties@;
            let mut reader = RuleObjectReader::new();
            match reader.read_rule_name(rule) {
                Ok(_) => {},
                Err(error) => {
                    return Err(error);
                },
            }
            let mut turned = reversed(properties);
            let ghost mut read: int = 0;
            while turned.len() > 0
                invariant
                    0 <= read <= given.len(),
                    turned@.len() == given.len() - read,
                    forall|k: int| 0 <= k < turned@.len() ==> turned@[k] == given[given.len() - 1 - k],
                    serialized is Object,
                    serialized->properties@ == given,
                    reader.rule_name == Some(serialized->rule),
                    reader.properties.entries() == given.take(read),
                    distinct_names(given.take(read)),
                decreases turned@.len(),
            {
                match turned.pop() {
                    Some(entry) => {
                        assert(entry == given[read]);
                        let ghost before = reader.properties.entries();
                        proof {
                            lemma_new_name(given, read);
                        }
                        match reader.read_property(entry.0, entry.1) {
                            Ok(_) => {
                                proof {
                                    assert(position(before, given[read].0@) is None);
                                    assert(given.take(read + 1) =~= given.take(read).push(given[read]));
                                    lemma_still_distinct(given, read);
                                    read = read + 1;
                                }
                            },
                            Err(error) => {
                                proof {
                                    assert(before == given.take(read));
                                    assert(position(before, given[read].0@) is Some);
                                    lemma_not_distinct(given, read);
                                    assert(!distinct_names(given));
                                    assert(error is DuplicateProperty);
                                }
                                return Err(error);
                            },
                        }
                    },
                    None => {},
                }
            }
            proof {
                assert(given.take(given.len() as int) =~= given);
            }
            reader.finish()
        },
    }
}

/// The name at a place is new to the entries before it exactly where no entry before it has it.
proof fn lemma_new_name(entries: Seq<(String, RulePropertyValue)>, at: int)
    requires
        0 <= at < entries.len(),
    ensures
        position(entries.take(at), entries[at].0@) is None <==> forall|k: int|
            0 <= k < at ==> (#[trigger] entries[k]).0@ != entries[at].0@,
{
    let before = entries.take(at);
    let name = entries[at].0@;
    if position(before, name) is None {
        assert forall|k: int| 0 <= k < at implies (#[trigger] entries[k]).0@ != name by {
            assert(before[k] == entries[k]);
        }
    } else {
        let k = choose|k: int| 0 <= k < before.len() && (#[trigger] before[k]).0@ == name;
        assert(entries[k] == before[k]);
    }
}

/// Entries with distinct names and one more entry with a new name have distinct names.
proof fn lemma_still_distinct(entries: Seq<(String, RulePropertyValue)>, at: int)
    requires
        0 <= at < entries.len(),
        distinct_names(entries.take(at)),
        forall|k: int| 0 <= k < at ==> (#[trigger] entries[k]).0@ != entries[at].0@,
    ensures
        distinct_names(entries.take(at + 1)),
{
    let before = entries.take(at);
    let after = entries.take(at + 1);
    assert forall|i: int, j: int| 0 <= i < j < after.len() implies (#[trigger] after[i]).0@ != (#[trigger] after[j]).0@ by {
        assert(after[i] == entries[i]);
        assert(after[j] == entries[j]);
        if j < at {
            assert(before[i] == entries[i]);
            assert(before[j] == entries[j]);
        }
    }
}

/// Entries of which one has the name of an entry before it do not have distinct names.
proof fn lemma_not_distinct(entries: Seq<(String, RulePropertyValue)>, at: int)
    requires
        0 <= at < entries.len(),
        !(forall|k: int| 0 <= k < at ==> (#[trigger] entries[k]).0@ != entries[at].0@),
    ensures
        !distinct_names(entries),
{
    let k = choose|k: int| 0 <= k < at && (#[trigger] entries[k]).0@ == entries[at].0@;
    assert(entries[k].0@ == entries[at].0@);
}

} // verus!
