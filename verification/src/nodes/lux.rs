//! Markup expressions: elements, fragments, their attributes and children.
use vstd::prelude::*;
use crate::nodes::expressions::Expression;

verus! {

/// The value of a named attribute.
#[derive(Debug, PartialEq, Eq)]
pub enum LUXAttributeValue {
    DoubleQuoteString(String),
    SingleQuoteString(String),
    LuaExpression(Expression),
    LUXElement(LUXElement),
    LUXFragment(LUXFragment),
}

/// `name` or `name=value`
#[derive(Debug, PartialEq, Eq)]
pub struct LUXNamedAttribute {
    pub name: String,
    pub value: Option<LUXAttributeValue>,
}

impl LUXNamedAttribute {
    pub fn new(name: String, value: Option<LUXAttributeValue>) -> (attribute: Self)
        ensures
            attribute.name == name,
            attribute.value == value,
    {
        Self { name, value }
    }
}

/// An attribute with a name, or an expression spread into the attributes.
#[derive(Debug, PartialEq, Eq)]
pub enum LUXAttribute {
    Named(LUXNamedAttribute),
    Spread(Expression),
}

/// What may stand between the opening and the closing of an element or fragment.
#[derive(Debug, PartialEq, Eq)]
pub enum LUXChild {
    LUXElement(LUXElement),
    LUXFragment(LUXFragment),
    Expression(Option<Expression>),
    ExpandedExpression(Expression),
}

/// `<name attributes>children</name>`
#[derive(Debug, PartialEq, Eq)]
pub struct LUXOpenCloseElement {
    pub name: String,
    pub attributes: Vec<LUXAttribute>,
    pub children: Vec<LUXChild>,
}

impl LUXOpenCloseElement {
    pub fn new(name: String, attributes: Vec<LUXAttribute>, children: Vec<LUXChild>) -> (element: Self)
        ensures
            element.name == name,
            element.attributes == attributes,
            element.children == children,
    {
        Self { name, attributes, children }
    }
}

/// `<name attributes/>`
#[derive(Debug, PartialEq, Eq)]
pub struct LUXSelfClosingElement {
    pub name: String,
    pub attributes: Vec<LUXAttribute>,
}

impl LUXSelfClosingElement {
    pub fn new(name: String, attributes: Vec<LUXAttribute>) -> (element: Self)
        ensures
            element.name == name,
            element.attributes == attributes,
    {
        Self { name, attributes }
    }
}

#[derive(Debug, PartialEq, Eq)]
pub enum LUXElement {
    Element(LUXOpenCloseElement),
    SelfClosingElement(LUXSelfClosingElement),
}

/// `<>children</>`
#[derive(Debug, PartialEq, Eq)]
pub struct LUXFragment {
    pub children: Vec<LUXChild>,
}

impl LUXFragment {
    pub fn new(children: Vec<LUXChild>) -> (fragment: Self)
        ensures
            fragment.children == children,
    {
        Self { children }
    }
}

#[derive(Debug, PartialEq, Eq)]
pub enum LUXExpression {
    LUXElement(LUXElement),
    LUXFragment(LUXFragment),
}

} // verus!
