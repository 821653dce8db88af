//! The typed records that a dataset row yields: items, syntheses and morphs.

use vstd::prelude::*;

verus! {

/// How an item is classified: a material number, a recipe number (the item is
/// the output of some synthesis), or neither.
#[derive(Clone, Copy, Debug, PartialEq, Eq, Structural)]
pub enum ItemNumber {
    MaterialNumber(u8),
    RecipeNumber(u8),
    Unclassified,
}

/// One parsed item row.
#[derive(Clone, Debug)]
pub struct NewItem {
    pub name: String,
    pub fire: bool,
    pub ice: bool,
    pub light: bool,
    pub wind: bool,
    pub category1: Option<String>,
    pub category2: Option<String>,
    pub category3: Option<String>,
    pub category4: Option<String>,
    pub item_number: ItemNumber,
}

/// One parsed synthesis: the recipe that produces the item called `name`.
#[derive(Clone, Debug)]
pub struct NewSynthesis {
    pub name: String,
    pub chapter: String,
    pub synthesis_type: String,
    pub ingredient1: Option<String>,
    pub ingredient2: Option<String>,
    pub ingredient3: Option<String>,
    pub ingredient4: Option<String>,
    pub add_category1: Option<String>,
    pub add_category2: Option<String>,
    pub extra_synth_quantity: Option<u8>,
    pub effect_spread: Option<u8>,
}

/// One parsed morph: the synthesis producing `from_recipe`, together with the
/// item `from_requiring`, yields the item `name`.
#[derive(Clone, Debug)]
pub struct NewMorph {
    pub name: String,
    pub chapter: String,
    pub from_recipe: String,
    pub from_requiring: String,
}

/// The one-element sequence holding the value of `o`, or the empty sequence.
pub open spec fn present(o: Option<String>) -> Seq<String> {
    match o {
        Some(s) => seq![s],
        None => Seq::empty(),
    }
}

/// A copy of an optional string.
pub fn clone_opt(o: &Option<String>) -> (r: Option<String>)
    ensures
        r == *o,
{
    match o {
        Some(s) => Some(s.clone()),
        None => None,
    }
}

impl NewSynthesis {
    /// The ingredient specifiers that are present, in slot order.
    pub open spec fn ingredient_seq(&self) -> Seq<String> {
        present(self.ingredient1) + present(self.ingredient2) + present(self.ingredient3)
            + present(self.ingredient4)
    }

    /// The ingredient specifiers that are present, in slot order.
    pub fn ingredients(&self) -> (r: Vec<String>)
        ensures
            r@ == self.ingredient_seq(),
    {
        let mut r: Vec<String> = Vec::new();
        if let Some(s) = &self.ingredient1 {
            r.push(s.clone());
        }
        if let Some(s) = &self.ingredient2 {
            r.push(s.clone());
        }
        if let Some(s) = &self.ingredient3 {
            r.push(s.clone());
        }
        if let Some(s) = &self.ingredient4 {
            r.push(s.clone());
        }
        assert(r@ == self.ingredient_seq());
        r
    }
}

} // verus!
