//! Which properties each rule takes, and a rule with the properties it was given.
use vstd::prelude::*;
use crate::rules::configuration_error::{Problem, RuleConfigurationError};
use crate::rules::registry::{same_text, KnownRule};
use crate::rules::rule_property::{entries_data, position, PropertyData, RuleProperties, RulePropertyValue};
use crate::rules::RuleConfiguration;

verus! {

/// The type of value that a property takes.
#[derive(Clone, Copy, Debug, PartialEq, Eq, Structural)]
pub enum PropertyType {
    Bool,
    String,
    Usize,
    StringList,
    /// A boolean, a string, a number or nothing.
    Scalar,
}

/// A property that a rule takes: its name, the type of its value, and whether the rule needs it.
#[derive(Clone, Copy, Debug, PartialEq, Eq)]
pub struct PropertyShape {
    pub name: &'static str,
    pub kind: PropertyType,
    pub required: bool,
}

/// A shape, whatever memory holds its name.
pub ghost struct Shape {
    pub name: Seq<char>,
    pub kind: PropertyType,
    pub required: bool,
}

impl View for PropertyShape {
    type V = Shape;

    open spec fn view(&self) -> Shape {
        Shape { name: self.name@, kind: self.kind, required: self.required }
    }
}

/// The shapes, whatever memory holds them.
pub open spec fn shapes_data(shapes: Seq<PropertyShape>) -> Seq<Shape> {
    shapes.map_values(|shape: PropertyShape| shape@)
}

pub const GLOBALS_PROPERTY: &'static str = "globals";

pub const IDENTIFIER_PROPERTY: &'static str = "identifier";

pub const VALUE_PROPERTY: &'static str = "value";

/// The properties that a rule takes.
pub open spec fn shapes_of(rule: KnownRule) -> Seq<Shape> {
    match rule {
        KnownRule::RenameVariables => seq![
            Shape { name: GLOBALS_PROPERTY@, kind: PropertyType::StringList, required: false },
        ],
        KnownRule::InjectGlobalValue => seq![
            Shape { name: IDENTIFIER_PROPERTY@, kind: PropertyType::String, required: true },
            Shape { name: VALUE_PROPERTY@, kind: PropertyType::Scalar, required: false },
        ],
        _ => Seq::empty(),
    }
}

/// The properties that a rule takes.
pub fn accepted_properties(rule: KnownRule) -> (shapes: Vec<PropertyShape>)
    ensures
        shapes_data(shapes@) == shapes_of(rule),
{
    let mut shapes = Vec::new();
    match rule {
        KnownRule::RenameVariables => {
            shapes.push(PropertyShape { name: GLOBALS_PROPERTY, kind: PropertyType::StringList, required: false });
        },
        KnownRule::InjectGlobalValue => {
            shapes.push(PropertyShape { name: IDENTIFIER_PROPERTY, kind: PropertyType::String, required: true });
            shapes.push(PropertyShape { name: VALUE_PROPERTY, kind: PropertyType::Scalar, required: false });
        },
        _ => {},
    }
    assert(shapes_data(shapes@) =~= shapes_of(rule));
    shapes
}

/// Whether a value is of the type.
pub open spec fn fits(kind: PropertyType, value: PropertyData) -> bool {
    match kind {
        PropertyType::Bool => value is Bool,
        PropertyType::String => value is String,
        PropertyType::Usize => value is Usize,
        PropertyType::StringList => value is StringList,
        PropertyType::Scalar => value is Bool || value is String || value is Usize || value is Float
            || value is Nothing,
    }
}

/// What is wrong with a value that is not of the type asked for the property `name`.
pub open spec fn wrong_type(kind: PropertyType, name: Seq<char>) -> Problem {
    match kind {
        PropertyType::String => Problem::StringExpected(name),
        PropertyType::Usize => Problem::UsizeExpected(name),
        PropertyType::StringList => Problem::StringListExpected(name),
        PropertyType::Bool => Problem::UnexpectedValueType(name),
        PropertyType::Scalar => Problem::UnexpectedValueType(name),
    }
}

/// The first of the shapes from the place `from` on that has the name.
pub open spec fn shape_named(shapes: Seq<Shape>, name: Seq<char>, from: int) -> Option<Shape>
    decreases shapes.len() - from,
{
    if from < 0 || from >= shapes.len() {
        None
    } else if shapes[from].name == name {
        Some(shapes[from])
    } else {
        shape_named(shapes, name, from + 1)
    }
}

/// What is wrong with one property, if anything: the rule does not take it,
/// or its value is not of the type that the rule asks for.
pub open spec fn entry_problem(shapes: Seq<Shape>, name: Seq<char>, value: PropertyData) -> Option<Problem> {
    match shape_named(shapes, name, 0) {
        None => Some(Problem::UnexpectedProperty(name)),
        Some(shape) => if fits(shape.kind, value) {
            None
        } else {
            Some(wrong_type(shape.kind, name))
        },
    }
}

/// What is wrong with the first property from the place `from` on with which something is wrong.
pub open spec fn first_entry_problem(
    shapes: Seq<Shape>,
    entries: Seq<(Seq<char>, PropertyData)>,
    from: int,
) -> Option<Problem>
    decreases entries.len() - from,
{
    if from < 0 || from >= entries.len() {
        None
    } else {
        match entry_problem(shapes, entries[from].0, entries[from].1) {
            Some(problem) => Some(problem),
            None => first_entry_problem(shapes, entries, from + 1),
        }
    }
}

/// Whether a property of that name is among the entries.
pub open spec fn is_given(entries: Seq<(Seq<char>, PropertyData)>, name: Seq<char>) -> bool {
    exists|i: int| 0 <= i < entries.len() && (#[trigger] entries[i]).0 == name
}

/// The first of the shapes from the place `from` on that the rule needs and that is not given.
pub open spec fn first_missing(
    shapes: Seq<Shape>,
    entries: Seq<(Seq<char>, PropertyData)>,
    from: int,
) -> Option<Problem>
    decreases shapes.len() - from,
{
    if from < 0 || from >= shapes.len() {
        None
    } else if shapes[from].required && !is_given(entries, shapes[from].name) {
        Some(Problem::MissingProperty(shapes[from].name))
    } else {
        first_missing(shapes, entries, from + 1)
    }
}

/// What is wrong with the properties given to a rule, if anything: the
/// first property that the rule does not take or that has a value of the
/// wrong type; where there is none, the first property that the rule needs
/// and that is not given.
pub open spec fn problem(shapes: Seq<Shape>, entries: Seq<(Seq<char>, PropertyData)>) -> Option<Problem> {
    match first_entry_problem(shapes, entries, 0) {
        Some(found) => Some(found),
        None => first_missing(shapes, entries, 0),
    }
}

/// The shape of the property of that name, if the shapes have one.
fn find_shape(shapes: &Vec<PropertyShape>, name: &str) -> (found: Option<PropertyShape>)
    ensures
        match found {
            Some(shape) => shape_named(shapes_data(shapes@), name@, 0) == Some(shape@),
            None => shape_named(shapes_data(shapes@), name@, 0) is None,
        },
{
    let ghost data = shapes_data(shapes@);
    let mut at: usize = 0;
    while at < shapes.len()
        invariant
            at <= shapes@.len(),
            data == shapes_data(shapes@),
            shape_named(data, name@, 0) == shape_named(data, name@, at as int),
        decreases shapes@.len() - at,
    {
        if same_text(shapes[at].name, name) {
            assert(data[at as int] == shapes@[at as int]@);
            return Some(shapes[at]);
        }
        assert(data[at as int] == shapes@[at as int]@);
        at += 1;
    }
    None
}

/// Whether the value is of the type.
fn value_fits(kind: PropertyType, value: &RulePropertyValue) -> (fitting: bool)
    ensures
        fitting == fits(kind, value@),
{
    match kind {
        PropertyType::Bool => match value {
            RulePropertyValue::Bool(_) => true,
            _ => false,
        },
        PropertyType::String => match value {
            RulePropertyValue::String(_) => true,
            _ => false,
        },
        PropertyType::Usize => match value {
            RulePropertyValue::Usize(_) => true,
            _ => false,
        },
        PropertyType::StringList => match value {
            RulePropertyValue::StringList(_) => true,
            _ => false,
        },
        PropertyType::Scalar => match value {
            RulePropertyValue::Bool(_) => true,
            RulePropertyValue::String(_) => true,
            RulePropertyValue::Usize(_) => true,
            RulePropertyValue::Float(_) => true,
            RulePropertyValue::Nothing => true,
            _ => false,
        },
    }
}

/// The error for a value that is not of the type asked for the property `name`.
fn type_error(kind: PropertyType, name: String) -> (error: RuleConfigurationError)
    ensures
        error@ == wrong_type(kind, name@),
{
    match kind {
        PropertyType::String => RuleConfigurationError::StringExpected(name),
        PropertyType::Usize => RuleConfigurationError::UsizeExpected(name),
        PropertyType::StringList => RuleConfigurationError::StringListExpected(name),
        PropertyType::Bool => RuleConfigurationError::UnexpectedValueType(name),
        PropertyType::Scalar => RuleConfigurationError::UnexpectedValueType(name),
    }
}

/// Holds the properties to what the rule takes: says what is wrong with
/// them, or that nothing is.
pub fn check_properties(shapes: &Vec<PropertyShape>, properties: &RuleProperties) -> (result: Result<
    (),
    RuleConfigurationError,
>)
    ensures
        match result {
            Ok(_) => problem(shapes_data(shapes@), entries_data(properties.entries())) is None,
            Err(error) => problem(shapes_data(shapes@), entries_data(properties.entries())) == Some(error@),
        },
{
    let ghost data = shapes_data(shapes@);
    let ghost entries = entries_data(properties.entries());
    let count = properties.len();
    let mut i: usize = 0;
    while i < count
        invariant
            i <= count,
            count == entries.len(),
            data == shapes_data(shapes@),
            entries == entries_data(properties.entries()),
            first_entry_problem(data, entries, 0) == first_entry_problem(data, entries, i as int),
        decreases count - i,
    {
        let (name, value) = properties.entry_at(i);
        assert(entries[i as int] == (name@, value@));
        match find_shape(shapes, name.as_str()) {
            None => {
                return Err(RuleConfigurationError::UnexpectedProperty(name.clone()));
            },
            Some(shape) => {
                if !value_fits(shape.kind, value) {
                    return Err(type_error(shape.kind, name.clone()));
                }
            },
        }
        i += 1;
    }
    let mut at: usize = 0;
    while at < shapes.len()
        invariant
            at <= shapes@.len(),
            data == shapes_data(shapes@),
            entries == entries_data(properties.entries()),
            first_entry_problem(data, entries, 0) is None,
            first_missing(data, entries, 0) == first_missing(data, entries, at as int),
        decreases shapes@.len() - at,
    {
        assert(data[at as int] == shapes@[at as int]@);
        if shapes[at].required {
            let given = properties.contains_key(shapes[at].name);
            proof {
                lemma_given(properties.entries(), shapes@[at as int].name@);
            }
            if !given {
                return Err(RuleConfigurationError::MissingProperty(shapes[at].name.to_owned()));
            }
        }
        at += 1;
    }
    Ok(())
}

/// A property is given exactly where its name has a place among the entries.
pub proof fn lemma_given(entries: Seq<(String, RulePropertyValue)>, name: Seq<char>)
    ensures
        is_given(entries_data(entries), name) == position(entries, name).is_some(),
{
    let data = entries_data(entries);
    if position(entries, name).is_some() {
        let i = position(entries, name).unwrap();
        assert(data[i].0 == name);
    }
    if is_given(data, name) {
        let i = choose|i: int| 0 <= i < data.len() && (#[trigger] data[i]).0 == name;
        assert(entries[i].0@ == name);
    }
}

/// A rule with the properties that it was given.
#[derive(Debug, PartialEq, Eq)]
pub struct ConfiguredRule {
    pub rule: KnownRule,
    pub properties: RuleProperties,
}

impl ConfiguredRule {
    /// The properties that the rule was given.
    pub open spec fn given(self) -> Seq<(Seq<char>, PropertyData)> {
        entries_data(self.properties.entries())
    }

    /// The rule as it is where nothing is asked of it: without properties.
    pub fn new(rule: KnownRule) -> (configured: Self)
        ensures
            configured.rule == rule,
            configured.given().len() == 0,
    {
        Self { rule, properties: RuleProperties::new() }
    }

    pub fn get_properties(&self) -> (properties: &RuleProperties)
        ensures
            entries_data(properties.entries()) == self.given(),
    {
        &self.properties
    }
}

impl RuleConfiguration for ConfiguredRule {
    open spec fn name(&self) -> Seq<char> {
        self.rule.name()
    }

    open spec fn properties(&self) -> Seq<(Seq<char>, PropertyData)> {
        self.given()
    }

    /// Takes the properties where nothing is wrong with them, and says what
    /// is wrong where something is; the rule then stays as it was.
    fn configure(&mut self, properties: RuleProperties) -> (result: Result<(), RuleConfigurationError>)
        ensures
            final(self).rule == old(self).rule,
            match result {
                Ok(_) => problem(shapes_of(old(self).rule), entries_data(properties.entries())) is None
                    && final(self).given() == entries_data(properties.entries()),
                Err(error) => problem(shapes_of(old(self).rule), entries_data(properties.entries())) == Some(
                    error@,
                ) && final(self).given() == old(self).given(),
            },
    {
        let shapes = accepted_properties(self.rule);
        match check_properties(&shapes, &properties) {
            Ok(_) => {
                self.properties = properties;
                Ok(())
            },
            Err(error) => Err(error),
        }
    }

    fn get_name(&self) -> (name: &'static str) {
        self.rule.get_name()
    }

    fn serialize_to_properties(&self) -> (properties: RuleProperties) {
        self.properties.duplicate()
    }
}

} // verus!
