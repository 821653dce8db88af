//! What building the graph from records yields: its nodes, its edges and its
//! failures, as spec functions of the three record lists.

use vstd::prelude::*;
use crate::node::{RespiNode, item_node, synthesis_node, is_item_named, node_matches};
use crate::records::{NewItem, NewSynthesis, NewMorph};

verus! {

/// Why a dataset could not be turned into a graph, or a row could not be read.
#[derive(Clone, Debug)]
pub enum RespiError {
    /// A row has the wrong number of fields.
    CsvError,
    /// A numeric field is not a small unsigned integer.
    InvalidNumber,
    /// A synthesis or morph names an item that no item record defines.
    UnknownItem(String),
    /// A morph's base item is not the output of any synthesis.
    NoBaseSynthesis(String),
}

/// Some node of `nodes` is an Item called `name`.
pub open spec fn has_named(nodes: Seq<RespiNode>, name: Seq<char>) -> bool {
    exists|k: int| 0 <= k < nodes.len() && #[trigger] is_item_named(nodes[k], name)
}

/// Node `k` is the first Item of `nodes` called `name`.
pub open spec fn is_first_named(nodes: Seq<RespiNode>, name: Seq<char>, k: int) -> bool {
    &&& 0 <= k < nodes.len()
    &&& is_item_named(nodes[k], name)
    &&& forall|j: int| 0 <= j < k ==> !#[trigger] is_item_named(nodes[j], name)
}

/// The index of the first Item of `nodes` called `name` (meaningful when there is one).
pub open spec fn first_named(nodes: Seq<RespiNode>, name: Seq<char>) -> int {
    choose|k: int| is_first_named(nodes, name, k)
}

/// Synthesis record `j` is the first one that produces the item `name`.
pub open spec fn is_first_synthesis(syns: Seq<NewSynthesis>, name: Seq<char>, j: int) -> bool {
    &&& 0 <= j < syns.len()
    &&& syns[j].name@ == name
    &&& forall|i: int| 0 <= i < j ==> (#[trigger] syns[i]).name@ != name
}

/// Some synthesis record produces the item `name`.
pub open spec fn has_synthesis(syns: Seq<NewSynthesis>, name: Seq<char>) -> bool {
    exists|j: int| 0 <= j < syns.len() && (#[trigger] syns[j]).name@ == name
}

/// The first synthesis record that produces `name`: the base of a morph from `name`.
pub open spec fn first_synthesis(syns: Seq<NewSynthesis>, name: Seq<char>) -> int {
    choose|j: int| is_first_synthesis(syns, name, j)
}

/// The Item nodes, one per item record, in order.
pub open spec fn item_nodes(items: Seq<NewItem>) -> Seq<RespiNode> {
    items.map_values(|it: NewItem| item_node(it))
}

/// The nodes of the graph built from the three record lists: the items, then
/// the syntheses, then one Morph node per morph.
pub open spec fn built_nodes(items: Seq<NewItem>, syns: Seq<NewSynthesis>, morphs: Seq<NewMorph>) -> Seq<RespiNode> {
    item_nodes(items) + syns.map_values(|s: NewSynthesis| synthesis_node(s)) + Seq::new(
        morphs.len(),
        |i: int| RespiNode::Morph,
    )
}

/// Edges into `t` from each of the first `n` nodes that the specifier `s` matches,
/// in index order.
pub open spec fn match_edges(nodes: Seq<RespiNode>, s: Seq<char>, t: usize, n: nat) -> Seq<(usize, usize)>
    decreases n,
{
    if n == 0 {
        Seq::empty()
    } else {
        let prev = match_edges(nodes, s, t, (n - 1) as nat);
        if node_matches(nodes[n - 1], s) {
            prev.push(((n - 1) as usize, t))
        } else {
            prev
        }
    }
}

/// The ingredient edges into `t` for the first `m` specifiers of `ings`.
pub open spec fn ingredient_edges(nodes: Seq<RespiNode>, ings: Seq<String>, t: usize, m: nat) -> Seq<(usize, usize)>
    decreases m,
{
    if m == 0 {
        Seq::empty()
    } else {
        ingredient_edges(nodes, ings, t, (m - 1) as nat) + match_edges(nodes, ings[m - 1]@, t, nodes.len())
    }
}

/// The edges of synthesis node `t`: first to the item it produces, then from
/// every item that each of its specifiers matches.
pub open spec fn synthesis_block(nodes: Seq<RespiNode>, s: NewSynthesis, t: usize) -> Seq<(usize, usize)> {
    seq![(t, first_named(nodes, s.name@) as usize)] + ingredient_edges(
        nodes,
        s.ingredient_seq(),
        t,
        s.ingredient_seq().len(),
    )
}

/// The edges of the first `j` synthesis nodes, in order; `nodes` are the item nodes.
pub open spec fn synthesis_edges(nodes: Seq<RespiNode>, syns: Seq<NewSynthesis>, j: nat) -> Seq<(usize, usize)>
    decreases j,
{
    if j == 0 {
        Seq::empty()
    } else {
        synthesis_edges(nodes, syns, (j - 1) as nat) + synthesis_block(
            nodes,
            syns[j - 1],
            (nodes.len() + j - 1) as usize,
        )
    }
}

/// The three edges of Morph node `m`: from its base synthesis, from the required
/// item, and to the item it produces.
pub open spec fn morph_block(nodes: Seq<RespiNode>, syns: Seq<NewSynthesis>, mo: NewMorph, m: usize) -> Seq<(usize, usize)> {
    seq![
        ((nodes.len() + first_synthesis(syns, mo.from_recipe@)) as usize, m),
        (first_named(nodes, mo.from_requiring@) as usize, m),
        (m, first_named(nodes, mo.name@) as usize),
    ]
}

/// The edges of the first `k` Morph nodes, in order.
pub open spec fn morph_edges(nodes: Seq<RespiNode>, syns: Seq<NewSynthesis>, morphs: Seq<NewMorph>, k: nat) -> Seq<(usize, usize)>
    decreases k,
{
    if k == 0 {
        Seq::empty()
    } else {
        morph_edges(nodes, syns, morphs, (k - 1) as nat) + morph_block(
            nodes,
            syns,
            morphs[k - 1],
            (nodes.len() + syns.len() + k - 1) as usize,
        )
    }
}

/// The edges of the graph built from the three record lists.
pub open spec fn built_edges(items: Seq<NewItem>, syns: Seq<NewSynthesis>, morphs: Seq<NewMorph>) -> Seq<(usize, usize)> {
    synthesis_edges(item_nodes(items), syns, syns.len()) + morph_edges(
        item_nodes(items),
        syns,
        morphs,
        morphs.len(),
    )
}

/// The first failure among the first `j` syntheses: an output item that is not defined.
pub open spec fn synthesis_error(nodes: Seq<RespiNode>, syns: Seq<NewSynthesis>, j: nat) -> Option<RespiError>
    decreases j,
{
    if j == 0 {
        None
    } else {
        match synthesis_error(nodes, syns, (j - 1) as nat) {
            Some(e) => Some(e),
            None => if has_named(nodes, syns[j - 1].name@) {
                None
            } else {
                Some(RespiError::UnknownItem(syns[j - 1].name))
            },
        }
    }
}

/// The failure of one morph, checked in this order: the item it produces, the
/// item it requires, its base item, and a synthesis producing that base item.
pub open spec fn morph_check(nodes: Seq<RespiNode>, syns: Seq<NewSynthesis>, mo: NewMorph) -> Option<RespiError> {
    if !has_named(nodes, mo.name@) {
        Some(RespiError::UnknownItem(mo.name))
    } else if !has_named(nodes, mo.from_requiring@) {
        Some(RespiError::UnknownItem(mo.from_requiring))
    } else if !has_named(nodes, mo.from_recipe@) {
        Some(RespiError::UnknownItem(mo.from_recipe))
    } else if !has_synthesis(syns, mo.from_recipe@) {
        Some(RespiError::NoBaseSynthesis(mo.from_recipe))
    } else {
        None
    }
}

/// The first failure among the first `k` morphs.
pub open spec fn morph_error(nodes: Seq<RespiNode>, syns: Seq<NewSynthesis>, morphs: Seq<NewMorph>, k: nat) -> Option<RespiError>
    decreases k,
{
    if k == 0 {
        None
    } else {
        match morph_error(nodes, syns, morphs, (k - 1) as nat) {
            Some(e) => Some(e),
            None => morph_check(nodes, syns, morphs[k - 1]),
        }
    }
}

/// The failure of building a graph from the three record lists, if any: the
/// syntheses are checked first, in order, then the morphs.
pub open spec fn build_error(items: Seq<NewItem>, syns: Seq<NewSynthesis>, morphs: Seq<NewMorph>) -> Option<RespiError> {
    match synthesis_error(item_nodes(items), syns, syns.len()) {
        Some(e) => Some(e),
        None => morph_error(item_nodes(items), syns, morphs, morphs.len()),
    }
}

pub proof fn lemma_first_named(nodes: Seq<RespiNode>, name: Seq<char>, k: int)
    requires
        is_first_named(nodes, name, k),
    ensures
        first_named(nodes, name) == k,
        has_named(nodes, name),
{
    let c = first_named(nodes, name);
    assert(is_first_named(nodes, name, c));
    if c < k {
        assert(!is_item_named(nodes[c], name));
    } else if c > k {
        assert(!is_item_named(nodes[k], name));
    }
}

pub proof fn lemma_first_synthesis(syns: Seq<NewSynthesis>, name: Seq<char>, j: int)
    requires
        is_first_synthesis(syns, name, j),
    ensures
        first_synthesis(syns, name) == j,
        has_synthesis(syns, name),
{
    let c = first_synthesis(syns, name);
    assert(is_first_synthesis(syns, name, c));
    if c < j {
        assert(syns[c].name@ != name);
    } else if c > j {
        assert(syns[j].name@ != name);
    }
}

pub proof fn lemma_synthesis_error_stays(nodes: Seq<RespiNode>, syns: Seq<NewSynthesis>, j: nat, k: nat)
    requires
        j <= k,
        synthesis_error(nodes, syns, j) is Some,
    ensures
        synthesis_error(nodes, syns, k) == synthesis_error(nodes, syns, j),
    decreases k - j,
{
    if j < k {
        lemma_synthesis_error_stays(nodes, syns, j, (k - 1) as nat);
    }
}

pub proof fn lemma_morph_error_stays(nodes: Seq<RespiNode>, syns: Seq<NewSynthesis>, morphs: Seq<NewMorph>, j: nat, k: nat)
    requires
        j <= k,
        morph_error(nodes, syns, morphs, j) is Some,
    ensures
        morph_error(nodes, syns, morphs, k) == morph_error(nodes, syns, morphs, j),
    decreases k - j,
{
    if j < k {
        lemma_morph_error_stays(nodes, syns, morphs, j, (k - 1) as nat);
    }
}

} // verus!
