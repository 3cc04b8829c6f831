//! Markup expressions.
use vstd::prelude::*;
use crate::nodes::expressions::Expression;
use crate::nodes::lux::{
    LUXAttribute, LUXAttributeValue, LUXChild, LUXElement, LUXExpression, LUXFragment,
    LUXNamedAttribute, LUXOpenCloseElement, LUXSelfClosingElement,
};
use crate::nodes::model::{
    list_tree, lux_attribute_trees, lux_child_trees, optional_lux_attribute_value_tree,
};
use crate::nodes::tree::lemma_child_is_shallower;
use crate::nodes::unfold::{
    lemma_lux_attribute_tree, lemma_lux_attribute_value_tree, lemma_lux_child_tree,
    lemma_lux_element_tree, lemma_lux_expression_tree, lemma_lux_fragment_tree,
    lemma_lux_named_attribute_tree, lemma_lux_open_close_tree, lemma_lux_self_closing_tree,
};
use crate::process::node_processor::NodeProcessorMut;
use crate::process::mutating::expressions::visit_expression;
use crate::process::mutating::lists::{
    visit_lux_attributes, visit_lux_children, visit_optional_lux_attribute_value,
};
use crate::process::walk::{lemma_walked_1, lemma_walked_2, lemma_walked_leaf, walked};

verus! {

/// Walks a markup expression: the expression itself, then its element or fragment.
pub fn visit_lux_expression<P: NodeProcessorMut>(lux: &mut LUXExpression, processor: &mut P)
    ensures
        walked(*old(processor), old(lux)@, *final(processor), final(lux)@),
    decreases old(lux)@.depth(), 1nat,
{
    proof {
        lemma_lux_expression_tree(*lux);
    }
    processor.process_lux_expression(lux);
    let ghost handed = *processor;
    let ghost node = lux@;
    proof {
        lemma_lux_expression_tree(*lux);
    }
    let ghost mut rebuilt = node;
    match lux {
        LUXExpression::LUXElement(inner) => {
            proof {
                assert(node.children[0] == inner@);
                lemma_child_is_shallower(node, 0);
            }
            visit_lux_element(inner, processor);
            let ghost after_first = *processor;
            let ghost first = inner@;
            proof {
                lemma_walked_1(*old(processor), old(lux)@, handed, node, after_first, first);
                rebuilt = node.with_children(seq![first]);
            }
        },
        LUXExpression::LUXFragment(inner) => {
            proof {
                assert(node.children[0] == inner@);
                lemma_child_is_shallower(node, 0);
            }
            visit_lux_fragment(inner, processor);
            let ghost after_first = *processor;
            let ghost first = inner@;
            proof {
                lemma_walked_1(*old(processor), old(lux)@, handed, node, after_first, first);
                rebuilt = node.with_children(seq![first]);
            }
        },
    }
    proof {
        lemma_lux_expression_tree(*lux);
        assert(lux@ == rebuilt);
    }
}

/// Walks a markup element: the element itself, then what it is.
pub fn visit_lux_element<P: NodeProcessorMut>(element: &mut LUXElement, processor: &mut P)
    ensures
        walked(*old(processor), old(element)@, *final(processor), final(element)@),
    decreases old(element)@.depth(), 1nat,
{
    proof {
        lemma_lux_element_tree(*element);
    }
    processor.process_lux_element(element);
    let ghost handed = *processor;
    let ghost node = element@;
    proof {
        lemma_lux_element_tree(*element);
    }
    let ghost mut rebuilt = node;
    match element {
        LUXElement::Element(inner) => {
            proof {
                assert(node.children[0] == inner@);
                lemma_child_is_shallower(node, 0);
            }
            visit_lux_open_close_element(inner, processor);
            let ghost after_first = *processor;
            let ghost first = inner@;
            proof {
                lemma_walked_1(*old(processor), old(element)@, handed, node, after_first, first);
                rebuilt = node.with_children(seq![first]);
            }
        },
        LUXElement::SelfClosingElement(inner) => {
            proof {
                assert(node.children[0] == inner@);
                lemma_child_is_shallower(node, 0);
            }
            visit_lux_self_closing_element(inner, processor);
            let ghost after_first = *processor;
            let ghost first = inner@;
            proof {
                lemma_walked_1(*old(processor), old(element)@, handed, node, after_first, first);
                rebuilt = node.with_children(seq![first]);
            }
        },
    }
    proof {
        lemma_lux_element_tree(*element);
        assert(element@ == rebuilt);
    }
}

/// Walks an element with children: the element itself, its attributes, then its children.
pub fn visit_lux_open_close_element<P: NodeProcessorMut>(element: &mut LUXOpenCloseElement, processor: &mut P)
    ensures
        walked(*old(processor), old(element)@, *final(processor), final(element)@),
    decreases old(element)@.depth(), 1nat,
{
    proof {
        lemma_lux_open_close_tree(*element);
    }
    processor.process_lux_open_close_element(element);
    let ghost handed = *processor;
    let ghost node = element@;
    proof {
        lemma_lux_open_close_tree(*element);
        assert(node.children[0] == list_tree(lux_attribute_trees(element.attributes@)));
        lemma_child_is_shallower(node, 0);
    }
    visit_lux_attributes(&mut element.attributes, processor);
    let ghost after_first = *processor;
    let ghost first = list_tree(lux_attribute_trees(element.attributes@));
    proof {
        assert(node.children[1] == list_tree(lux_child_trees(element.children@)));
        lemma_child_is_shallower(node, 1);
    }
    visit_lux_children(&mut element.children, processor);
    let ghost after_second = *processor;
    let ghost second = list_tree(lux_child_trees(element.children@));
    proof {
        lemma_lux_open_close_tree(*element);
        assert(element@ == node.with_children(seq![first, second]));
        lemma_walked_2(*old(processor), old(element)@, handed, node, after_first, first, after_second, second);
    }
}

/// Walks an element without children: the element itself, then its attributes.
pub fn visit_lux_self_closing_element<P: NodeProcessorMut>(element: &mut LUXSelfClosingElement, processor: &mut P)
    ensures
        walked(*old(processor), old(element)@, *final(processor), final(element)@),
    decreases old(element)@.depth(), 1nat,
{
    proof {
        lemma_lux_self_closing_tree(*element);
    }
    processor.process_lux_self_closing_element(element);
    let ghost handed = *processor;
    let ghost node = element@;
    proof {
        lemma_lux_self_closing_tree(*element);
        assert(node.children[0] == list_tree(lux_attribute_trees(element.attributes@)));
        lemma_child_is_shallower(node, 0);
    }
    visit_lux_attributes(&mut element.attributes, processor);
    let ghost after_first = *processor;
    let ghost first = list_tree(lux_attribute_trees(element.attributes@));
    proof {
        lemma_lux_self_closing_tree(*element);
        assert(element@ == node.with_children(seq![first]));
        lemma_walked_1(*old(processor), old(element)@, handed, node, after_first, first);
    }
}

/// Walks a fragment: the fragment itself, then its children.
pub fn visit_lux_fragment<P: NodeProcessorMut>(fragment: &mut LUXFragment, processor: &mut P)
    ensures
        walked(*old(processor), old(fragment)@, *final(processor), final(fragment)@),
    decreases old(fragment)@.depth(), 1nat,
{
    proof {
        lemma_lux_fragment_tree(*fragment);
    }
    processor.process_lux_fragment(fragment);
    let ghost handed = *processor;
    let ghost node = fragment@;
    proof {
        lemma_lux_fragment_tree(*fragment);
        assert(node.children[0] == list_tree(lux_child_trees(fragment.children@)));
        lemma_child_is_shallower(node, 0);
    }
    visit_lux_children(&mut fragment.children, processor);
    let ghost after_first = *processor;
    let ghost first = list_tree(lux_child_trees(fragment.children@));
    proof {
        lemma_lux_fragment_tree(*fragment);
        assert(fragment@ == node.with_children(seq![first]));
        lemma_walked_1(*old(processor), old(fragment)@, handed, node, after_first, first);
    }
}

/// Walks a child of an element or fragment: the child itself, then what it is.
pub fn visit_lux_child<P: NodeProcessorMut>(child: &mut LUXChild, processor: &mut P)
    ensures
        walked(*old(processor), old(child)@, *final(processor), final(child)@),
    decreases old(child)@.depth(), 1nat,
{
    proof {
        lemma_lux_child_tree(*child);
    }
    processor.process_lux_child(child);
    let ghost handed = *processor;
    let ghost node = child@;
    proof {
        lemma_lux_child_tree(*child);
    }
    let ghost mut rebuilt = node;
    match child {
        LUXChild::LUXElement(inner) => {
            proof {
                assert(node.children[0] == inner@);
                lemma_child_is_shallower(node, 0);
            }
            visit_lux_element(inner, processor);
            let ghost after_first = *processor;
            let ghost first = inner@;
            proof {
                lemma_walked_1(*old(processor), old(child)@, handed, node, after_first, first);
                rebuilt = node.with_children(seq![first]);
            }
        },
        LUXChild::LUXFragment(inner) => {
            proof {
                assert(node.children[0] == inner@);
                lemma_child_is_shallower(node, 0);
            }
            visit_lux_fragment(inner, processor);
            let ghost after_first = *processor;
            let ghost first = inner@;
            proof {
                lemma_walked_1(*old(processor), old(child)@, handed, node, after_first, first);
                rebuilt = node.with_children(seq![first]);
            }
        },
        LUXChild::Expression(Some(inner)) => {
            proof {
                assert(node.children[0] == inner@);
                lemma_child_is_shallower(node, 0);
            }
            visit_expression(inner, processor);
            let ghost after_first = *processor;
            let ghost first = inner@;
            proof {
                lemma_walked_1(*old(processor), old(child)@, handed, node, after_first, first);
                rebuilt = node.with_children(seq![first]);
            }
        },
        LUXChild::Expression(None) => {
            proof {
                lemma_walked_leaf(*old(processor), old(child)@, handed, node);
                rebuilt = node;
            }
        },
        LUXChild::ExpandedExpression(inner) => {
            proof {
                assert(node.children[0] == inner@);
                lemma_child_is_shallower(node, 0);
            }
            visit_expression(inner, processor);
            let ghost after_first = *processor;
            let ghost first = inner@;
            proof {
                lemma_walked_1(*old(processor), old(child)@, handed, node, after_first, first);
                rebuilt = node.with_children(seq![first]);
            }
        },
    }
    proof {
        lemma_lux_child_tree(*child);
        assert(child@ == rebuilt);
    }
}

/// Walks an attribute: the attribute itself, then its value or the expression it spreads.
pub fn visit_lux_attribute<P: NodeProcessorMut>(attribute: &mut LUXAttribute, processor: &mut P)
    ensures
        walked(*old(processor), old(attribute)@, *final(processor), final(attribute)@),
    decreases old(attribute)@.depth(), 1nat,
{
    proof {
        lemma_lux_attribute_tree(*attribute);
    }
    processor.process_lux_attribute(attribute);
    let ghost handed = *processor;
    let ghost node = attribute@;
    proof {
        lemma_lux_attribute_tree(*attribute);
    }
    let ghost mut rebuilt = node;
    match attribute {
        LUXAttribute::Named(inner) => {
            proof {
                assert(node.children[0] == inner@);
                lemma_child_is_shallower(node, 0);
            }
            visit_lux_named_attribute(inner, processor);
            let ghost after_first = *processor;
            let ghost first = inner@;
            proof {
                lemma_walked_1(*old(processor), old(attribute)@, handed, node, after_first, first);
                rebuilt = node.with_children(seq![first]);
            }
        },
        LUXAttribute::Spread(inner) => {
            proof {
                assert(node.children[0] == inner@);
                lemma_child_is_shallower(node, 0);
            }
            visit_expression(inner, processor);
            let ghost after_first = *processor;
            let ghost first = inner@;
            proof {
                lemma_walked_1(*old(processor), old(attribute)@, handed, node, after_first, first);
                rebuilt = node.with_children(seq![first]);
            }
        },
    }
    proof {
        lemma_lux_attribute_tree(*attribute);
        assert(attribute@ == rebuilt);
    }
}

/// Walks a named attribute: its value, where it has one.
pub fn visit_lux_named_attribute<P: NodeProcessorMut>(named: &mut LUXNamedAttribute, processor: &mut P)
    ensures
        walked(*old(processor), old(named)@, *final(processor), final(named)@),
    decreases old(named)@.depth(), 1nat,
{
    proof {
        lemma_lux_named_attribute_tree(*named);
    }
    let ghost handed = *processor;
    let ghost node = named@;
    proof {
        lemma_lux_named_attribute_tree(*named);
        assert(node.children[0] == optional_lux_attribute_value_tree(named.value));
        lemma_child_is_shallower(node, 0);
    }
    visit_optional_lux_attribute_value(&mut named.value, processor);
    let ghost after_first = *processor;
    let ghost first = optional_lux_attribute_value_tree(named.value);
    proof {
        lemma_lux_named_attribute_tree(*named);
        assert(named@ == node.with_children(seq![first]));
        lemma_walked_1(*old(processor), old(named)@, handed, node, after_first, first);
    }
}

/// Walks the value of an attribute: the value itself, then what it holds.
pub fn visit_lux_attribute_value<P: NodeProcessorMut>(value: &mut LUXAttributeValue, processor: &mut P)
    ensures
        walked(*old(processor), old(value)@, *final(processor), final(value)@),
    decreases old(value)@.depth(), 1nat,
{
    proof {
        lemma_lux_attribute_value_tree(*value);
    }
    processor.process_lux_attribute_value(value);
    let ghost handed = *processor;
    let ghost node = value@;
    proof {
        lemma_lux_attribute_value_tree(*value);
    }
    let ghost mut rebuilt = node;
    match value {
        LUXAttributeValue::DoubleQuoteString(_) => {
            proof {
                lemma_walked_leaf(*old(processor), old(value)@, handed, node);
                rebuilt = node;
            }
        },
        LUXAttributeValue::SingleQuoteString(_) => {
            proof {
                lemma_walked_leaf(*old(processor), old(value)@, handed, node);
                rebuilt = node;
            }
        },
        LUXAttributeValue::LuaExpression(inner) => {
            proof {
                assert(node.children[0] == inner@);
                lemma_child_is_shallower(node, 0);
            }
            visit_expression(inner, processor);
            let ghost after_first = *processor;
            let ghost first = inner@;
            proof {
                lemma_walked_1(*old(processor), old(value)@, handed, node, after_first, first);
                rebuilt = node.with_children(seq![first]);
            }
        },
        LUXAttributeValue::LUXElement(inner) => {
            proof {
                assert(node.children[0] == inner@);
                lemma_child_is_shallower(node, 0);
            }
            visit_lux_element(inner, processor);
            let ghost after_first = *processor;
            let ghost first = inner@;
            proof {
                lemma_walked_1(*old(processor), old(value)@, handed, node, after_first, first);
                rebuilt = node.with_children(seq![first]);
            }
        },
        LUXAttributeValue::LUXFragment(inner) => {
            proof {
                assert(node.children[0] == inner@);
                lemma_child_is_shallower(node, 0);
            }
            visit_lux_fragment(inner, processor);
            let ghost after_first = *processor;
            let ghost first = inner@;
            proof {
                lemma_walked_1(*old(processor), old(value)@, handed, node, after_first, first);
                rebuilt = node.with_children(seq![first]);
            }
        },
    }
    proof {
        lemma_lux_attribute_value_tree(*value);
        assert(value@ == rebuilt);
    }
}

} // verus!
