//! The nodes of the crafting graph, ingredient matching and node labels.

use vstd::prelude::*;
use crate::records::{ItemNumber, NewItem, NewSynthesis};

verus! {

/// A node of the crafting graph.
#[derive(Clone, Debug)]
pub enum RespiNode {
    Synthesis {
        chapter: String,
        synthesis_type: String,
        add_category1: Option<String>,
        add_category2: Option<String>,
        extra_synth_quantity: Option<u8>,
        effect_spread: Option<u8>,
    },
    Morph,
    Item {
        name: String,
        fire: bool,
        ice: bool,
        light: bool,
        wind: bool,
        category1: Option<String>,
        category2: Option<String>,
        category3: Option<String>,
        category4: Option<String>,
        item_number: ItemNumber,
    },
}

/// The Item node that an item record becomes.
pub open spec fn item_node(it: NewItem) -> RespiNode {
    RespiNode::Item {
        name: it.name,
        fire: it.fire,
        ice: it.ice,
        light: it.light,
        wind: it.wind,
        category1: it.category1,
        category2: it.category2,
        category3: it.category3,
        category4: it.category4,
        item_number: it.item_number,
    }
}

/// The Synthesis node that a synthesis record becomes.
pub open spec fn synthesis_node(s: NewSynthesis) -> RespiNode {
    RespiNode::Synthesis {
        chapter: s.chapter,
        synthesis_type: s.synthesis_type,
        add_category1: s.add_category1,
        add_category2: s.add_category2,
        extra_synth_quantity: s.extra_synth_quantity,
        effect_spread: s.effect_spread,
    }
}

/// `c` holds the tag `s`.
pub open spec fn tag_is(c: Option<String>, s: Seq<char>) -> bool {
    match c {
        Some(t) => t@ == s,
        None => false,
    }
}

/// `n` is an Item whose name is `name`.
pub open spec fn is_item_named(n: RespiNode, name: Seq<char>) -> bool {
    match n {
        RespiNode::Item { name: m, .. } => m@ == name,
        _ => false,
    }
}

/// An ingredient specifier matches an Item when it equals the Item's name or one
/// of its four category tags; it matches no other node.
pub open spec fn node_matches(n: RespiNode, s: Seq<char>) -> bool {
    match n {
        RespiNode::Item { name, category1, category2, category3, category4, .. } => name@ == s
            || tag_is(category1, s) || tag_is(category2, s) || tag_is(category3, s)
            || tag_is(category4, s),
        _ => false,
    }
}

/// The label under which a node is shown in a path.
pub open spec fn label_of(n: RespiNode) -> Seq<char> {
    match n {
        RespiNode::Synthesis { .. } => "Synthesis"@,
        RespiNode::Morph => "Morph"@,
        RespiNode::Item { name, .. } => name@,
    }
}

fn tag_matches(c: &Option<String>, s: &String) -> (r: bool)
    ensures
        r == tag_is(*c, s@),
{
    match c {
        Some(t) => *t == *s,
        None => false,
    }
}

impl RespiNode {
    /// The Item node built from an item record.
    pub fn from_item(it: &NewItem) -> (r: RespiNode)
        ensures
            r == item_node(*it),
    {
        RespiNode::Item {
            name: it.name.clone(),
            fire: it.fire,
            ice: it.ice,
            light: it.light,
            wind: it.wind,
            category1: crate::records::clone_opt(&it.category1),
            category2: crate::records::clone_opt(&it.category2),
            category3: crate::records::clone_opt(&it.category3),
            category4: crate::records::clone_opt(&it.category4),
            item_number: it.item_number,
        }
    }

    /// The Synthesis node built from a synthesis record.
    pub fn from_synthesis(s: &NewSynthesis) -> (r: RespiNode)
        ensures
            r == synthesis_node(*s),
    {
        RespiNode::Synthesis {
            chapter: s.chapter.clone(),
            synthesis_type: s.synthesis_type.clone(),
            add_category1: crate::records::clone_opt(&s.add_category1),
            add_category2: crate::records::clone_opt(&s.add_category2),
            extra_synth_quantity: s.extra_synth_quantity,
            effect_spread: s.effect_spread,
        }
    }

    /// Whether this node is an Item called `name`.
    pub fn is_named(&self, name: &String) -> (r: bool)
        ensures
            r == is_item_named(*self, name@),
    {
        match self {
            RespiNode::Item { name: m, .. } => *m == *name,
            _ => false,
        }
    }

    /// Whether this node is a Synthesis node.
    pub fn is_synthesis(&self) -> (r: bool)
        ensures
            r == (*self is Synthesis),
    {
        match self {
            RespiNode::Synthesis { .. } => true,
            _ => false,
        }
    }

    /// Whether the ingredient specifier `s` matches this node.
    pub fn matches_specifier(&self, s: &String) -> (r: bool)
        ensures
            r == node_matches(*self, s@),
    {
        match self {
            RespiNode::Item { name, category1, category2, category3, category4, .. } => {
                *name == *s || tag_matches(category1, s) || tag_matches(category2, s)
                    || tag_matches(category3, s) || tag_matches(category4, s)
            },
            _ => false,
        }
    }

    /// The node's label: an Item's name, or the marker of its kind.
    pub fn label(&self) -> (r: String)
        ensures
            r@ == label_of(*self),
    {
        match self {
            RespiNode::Synthesis { .. } => {
                proof {
                    reveal_strlit("Synthesis");
                }
                String::from_str("Synthesis")
            },
            RespiNode::Morph => {
                proof {
                    reveal_strlit("Morph");
                }
                String::from_str("Morph")
            },
            RespiNode::Item { name, .. } => name.clone(),
        }
    }
}

} // verus!
