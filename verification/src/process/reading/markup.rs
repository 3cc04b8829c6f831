//! Markup expressions.
use vstd::prelude::*;
use crate::nodes::expressions::Expression;
use crate::nodes::lux::{
    LUXAttribute, LUXAttributeValue, LUXChild, LUXElement, LUXExpression, LUXFragment,
    LUXNamedAttribute, LUXOpenCloseElement, LUXSelfClosingElement,
};
use crate::nodes::model::{
    list_tree, lux_attribute_trees, lux_child_trees, optional_lux_attribute_value_tree,
};
use crate::nodes::tree::lemma_child_is_shallower;
use crate::nodes::unfold::{
    lemma_lux_attribute_tree, lemma_lux_attribute_value_tree, lemma_lux_child_tree,
    lemma_lux_element_tree, lemma_lux_expression_tree, lemma_lux_fragment_tree,
    lemma_lux_named_attribute_tree, lemma_lux_open_close_tree, lemma_lux_self_closing_tree,
};
use crate::process::node_processor::NodeProcessor;
use crate::process::reading::expressions::visit_expression;
use crate::process::reading::lists::{
    visit_lux_attributes, visit_lux_children, visit_optional_lux_attribute_value,
};
use crate::process::trace::{lemma_seen_1, lemma_seen_2, lemma_seen_leaf, seen};

verus! {

/// Walks a markup expression: the expression itself, then its element or fragment.
pub fn visit_lux_expression<P: NodeProcessor>(lux: &LUXExpression, processor: &mut P)
    ensures
        seen(*old(processor), lux@, *final(processor)),
    decreases lux@.depth(), 1nat,
{
    let ghost node = lux@;
    proof {
        lemma_lux_expression_tree(*lux);
    }
    processor.process_lux_expression(lux);
    let ghost handed = *processor;
    match lux {
        LUXExpression::LUXElement(inner) => {
            proof {
                assert(node.children[0] == inner@);
                lemma_child_is_shallower(node, 0);
            }
            visit_lux_element(inner, processor);
            proof {
                lemma_seen_1(*old(processor), node, handed, *processor);
            }
        },
        LUXExpression::LUXFragment(inner) => {
            proof {
                assert(node.children[0] == inner@);
                lemma_child_is_shallower(node, 0);
            }
            visit_lux_fragment(inner, processor);
            proof {
                lemma_seen_1(*old(processor), node, handed, *processor);
            }
        },
    }
}

/// Walks a markup element: the element itself, then what it is.
pub fn visit_lux_element<P: NodeProcessor>(element: &LUXElement, processor: &mut P)
    ensures
        seen(*old(processor), element@, *final(processor)),
    decreases element@.depth(), 1nat,
{
    let ghost node = element@;
    proof {
        lemma_lux_element_tree(*element);
    }
    processor.process_lux_element(element);
    let ghost handed = *processor;
    match element {
        LUXElement::Element(inner) => {
            proof {
                assert(node.children[0] == inner@);
                lemma_child_is_shallower(node, 0);
            }
            visit_lux_open_close_element(inner, processor);
            proof {
                lemma_seen_1(*old(processor), node, handed, *processor);
            }
        },
        LUXElement::SelfClosingElement(inner) => {
            proof {
                assert(node.children[0] == inner@);
                lemma_child_is_shallower(node, 0);
            }
            visit_lux_self_closing_element(inner, processor);
            proof {
                lemma_seen_1(*old(processor), node, handed, *processor);
            }
        },
    }
}

/// Walks an element with children: the element itself, its attributes, then its children.
pub fn visit_lux_open_close_element<P: NodeProcessor>(element: &LUXOpenCloseElement, processor: &mut P)
    ensures
        seen(*old(processor), element@, *final(processor)),
    decreases element@.depth(), 1nat,
{
    let ghost node = element@;
    proof {
        lemma_lux_open_close_tree(*element);
    }
    processor.process_lux_open_close_element(element);
    let ghost handed = *processor;
    proof {
        assert(node.children[0] == list_tree(lux_attribute_trees(element.attributes@)));
        lemma_child_is_shallower(node, 0);
    }
    visit_lux_attributes(&element.attributes, processor);
    let ghost after_first = *processor;
    proof {
        assert(node.children[1] == list_tree(lux_child_trees(element.children@)));
        lemma_child_is_shallower(node, 1);
    }
    visit_lux_children(&element.children, processor);
    proof {
        lemma_seen_2(*old(processor), node, handed, after_first, *processor);
    }
}

/// Walks an element without children: the element itself, then its attributes.
pub fn visit_lux_self_closing_element<P: NodeProcessor>(element: &LUXSelfClosingElement, processor: &mut P)
    ensures
        seen(*old(processor), element@, *final(processor)),
    decreases element@.depth(), 1nat,
{
    let ghost node = element@;
    proof {
        lemma_lux_self_closing_tree(*element);
    }
    processor.process_lux_self_closing_element(element);
    let ghost handed = *processor;
    proof {
        assert(node.children[0] == list_tree(lux_attribute_trees(element.attributes@)));
        lemma_child_is_shallower(node, 0);
    }
    visit_lux_attributes(&element.attributes, processor);
    proof {
        lemma_seen_1(*old(processor), node, handed, *processor);
    }
}

/// Walks a fragment: the fragment itself, then its children.
pub fn visit_lux_fragment<P: NodeProcessor>(fragment: &LUXFragment, processor: &mut P)
    ensures
        seen(*old(processor), fragment@, *final(processor)),
    decreases fragment@.depth(), 1nat,
{
    let ghost node = fragment@;
    proof {
        lemma_lux_fragment_tree(*fragment);
    }
    processor.process_lux_fragment(fragment);
    let ghost handed = *processor;
    proof {
        assert(node.children[0] == list_tree(lux_child_trees(fragment.children@)));
        lemma_child_is_shallower(node, 0);
    }
    visit_lux_children(&fragment.children, processor);
    proof {
        lemma_seen_1(*old(processor), node, handed, *processor);
    }
}

/// Walks a child of an element or fragment: the child itself, then what it is.
pub fn visit_lux_child<P: NodeProcessor>(child: &LUXChild, processor: &mut P)
    ensures
        seen(*old(processor), child@, *final(processor)),
    decreases child@.depth(), 1nat,
{
    let ghost node = child@;
    proof {
        lemma_lux_child_tree(*child);
    }
    processor.process_lux_child(child);
    let ghost handed = *processor;
    match child {
        LUXChild::LUXElement(inner) => {
            proof {
                assert(node.children[0] == inner@);
                lemma_child_is_shallower(node, 0);
            }
            visit_lux_element(inner, processor);
            proof {
                lemma_seen_1(*old(processor), node, handed, *processor);
            }
        },
        LUXChild::LUXFragment(inner) => {
            proof {
                assert(node.children[0] == inner@);
                lemma_child_is_shallower(node, 0);
            }
            visit_lux_fragment(inner, processor);
            proof {
                lemma_seen_1(*old(processor), node, handed, *processor);
            }
        },
        LUXChild::Expression(Some(inner)) => {
            proof {
                assert(node.children[0] == inner@);
                lemma_child_is_shallower(node, 0);
            }
            visit_expression(inner, processor);
            proof {
                lemma_seen_1(*old(processor), node, handed, *processor);
            }
        },
        LUXChild::Expression(None) => {
            proof {
                lemma_seen_leaf(*old(processor), node, handed);
            }
        },
        LUXChild::ExpandedExpression(inner) => {
            proof {
                assert(node.children[0] == inner@);
                lemma_child_is_shallower(node, 0);
            }
            visit_expression(inner, processor);
            proof {
                lemma_seen_1(*old(processor), node, handed, *processor);
            }
        },
    }
}

/// Walks an attribute: the attribute itself, then its value or the expression it spreads.
pub fn visit_lux_attribute<P: NodeProcessor>(attribute: &LUXAttribute, processor: &mut P)
    ensures
        seen(*old(processor), attribute@, *final(processor)),
    decreases attribute@.depth(), 1nat,
{
    let ghost node = attribute@;
    proof {
        lemma_lux_attribute_tree(*attribute);
    }
    processor.process_lux_attribute(attribute);
    let ghost handed = *processor;
    match attribute {
        LUXAttribute::Named(inner) => {
            proof {
                assert(node.children[0] == inner@);
                lemma_child_is_shallower(node, 0);
            }
            visit_lux_named_attribute(inner, processor);
            proof {
                lemma_seen_1(*old(processor), node, handed, *processor);
            }
        },
        LUXAttribute::Spread(inner) => {
            proof {
                assert(node.children[0] == inner@);
                lemma_child_is_shallower(node, 0);
            }
            visit_expression(inner, processor);
            proof {
                lemma_seen_1(*old(processor), node, handed, *processor);
            }
        },
    }
}

/// Walks a named attribute: its value, where it has one.
pub fn visit_lux_named_attribute<P: NodeProcessor>(named: &LUXNamedAttribute, processor: &mut P)
    ensures
        seen(*old(processor), named@, *final(processor)),
    decreases named@.depth(), 1nat,
{
    let ghost node = named@;
    proof {
        lemma_lux_named_attribute_tree(*named);
    }
    let ghost handed = *processor;
    proof {
        assert(node.children[0] == optional_lux_attribute_value_tree(named.value));
        lemma_child_is_shallower(node, 0);
    }
    visit_optional_lux_attribute_value(&named.value, processor);
    proof {
        lemma_seen_1(*old(processor), node, handed, *processor);
    }
}

/// Walks the value of an attribute: the value itself, then what it holds.
pub fn visit_lux_attribute_value<P: NodeProcessor>(value: &LUXAttributeValue, processor: &mut P)
    ensures
        seen(*old(processor), value@, *final(processor)),
    decreases value@.depth(), 1nat,
{
    let ghost node = value@;
    proof {
        lemma_lux_attribute_value_tree(*value);
    }
    processor.process_lux_attribute_value(value);
    let ghost handed = *processor;
    match value {
        LUXAttributeValue::DoubleQuoteString(_) => {
            proof {
                lemma_seen_leaf(*old(processor), node, handed);
            }
        },
        LUXAttributeValue::SingleQuoteString(_) => {
            proof {
                lemma_seen_leaf(*old(processor), node, handed);
            }
        },
        LUXAttributeValue::LuaExpression(inner) => {
            proof {
                assert(node.children[0] == inner@);
                lemma_child_is_shallower(node, 0);
            }
            visit_expression(inner, processor);
            proof {
                lemma_seen_1(*old(processor), node, handed, *processor);
            }
        },
        LUXAttributeValue::LUXElement(inner) => {
            proof {
                assert(node.children[0] == inner@);
                lemma_child_is_shallower(node, 0);
            }
            visit_lux_element(inner, processor);
            proof {
                lemma_seen_1(*old(processor), node, handed, *processor);
            }
        },
        LUXAttributeValue::LUXFragment(inner) => {
            proof {
                assert(node.children[0] == inner@);
                lemma_child_is_shallower(node, 0);
            }
            visit_lux_fragment(inner, processor);
            proof {
                lemma_seen_1(*old(processor), node, handed, *processor);
            }
        },
    }
}

} // verus!
