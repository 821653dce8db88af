//! Turning rows of text fields into item, synthesis and morph records.

use vstd::prelude::*;
use crate::build_spec::RespiError;
use crate::records::{ItemNumber, NewItem, NewMorph, NewSynthesis};

verus! {

/// The number of fields in a dataset row.
pub const ROW_FIELDS: usize = 25;

/// `c` is an ASCII decimal digit.
pub open spec fn is_digit(c: char) -> bool {
    '0' <= c <= '9'
}

/// The value of a string of decimal digits.
pub open spec fn digits_value(s: Seq<char>) -> nat
    decreases s.len(),
{
    if s.len() == 0 {
        0
    } else {
        digits_value(s.drop_last()) * 10 + ((s.last() as int) - ('0' as int)) as nat
    }
}

/// The `u8` written by `s`: an optional `+` and then one or more decimal
/// digits whose value is at most 255.
pub open spec fn u8_text(s: Seq<char>) -> Option<u8> {
    let d = if s.len() > 0 && s[0] == '+' {
        s.drop_first()
    } else {
        s
    };
    if d.len() > 0 && (forall|i: int| 0 <= i < d.len() ==> is_digit(#[trigger] d[i])) && digits_value(d)
        <= 255 {
        Some(digits_value(d) as u8)
    } else {
        None
    }
}

/// Relies on `str::parse::<u8>` (std's `u8::from_str`): it accepts an optional
/// `+` followed by decimal digits whose value fits in a `u8`, and fails otherwise.
#[verifier::external_body]
fn parse_u8(s: &String) -> (r: Option<u8>)
    ensures
        r == u8_text(s@),
{
    s.parse::<u8>().ok()
}

/// A field holds a value when it is not empty.
pub open spec fn opt_field(f: String) -> Option<String> {
    if f@.len() == 0 {
        None
    } else {
        Some(f)
    }
}

/// An optional numeric field: `Some(None)` when empty, `Some(Some(v))` when it
/// writes `v`, `None` when it is not a number.
pub open spec fn number_field(f: String) -> Option<Option<u8>> {
    if f@.len() == 0 {
        Some(None)
    } else {
        match u8_text(f@) {
            Some(v) => Some(Some(v)),
            None => None,
        }
    }
}

/// The item number of a row: the material number when that field is set, else
/// the recipe number when that one is; `None` when the set field is no number.
pub open spec fn item_number_of(r: Seq<String>) -> Option<ItemNumber> {
    if r[9]@.len() > 0 {
        match u8_text(r[9]@) {
            Some(v) => Some(ItemNumber::MaterialNumber(v)),
            None => None,
        }
    } else if r[10]@.len() > 0 {
        match u8_text(r[10]@) {
            Some(v) => Some(ItemNumber::RecipeNumber(v)),
            None => None,
        }
    } else {
        Some(ItemNumber::Unclassified)
    }
}

/// The item record of a row with item number `n`.
pub open spec fn row_item(r: Seq<String>, n: ItemNumber) -> NewItem {
    NewItem {
        name: r[0],
        fire: r[1]@.len() > 0,
        ice: r[2]@.len() > 0,
        light: r[3]@.len() > 0,
        wind: r[4]@.len() > 0,
        category1: opt_field(r[5]),
        category2: opt_field(r[6]),
        category3: opt_field(r[7]),
        category4: opt_field(r[8]),
        item_number: n,
    }
}

/// The synthesis record of a recipe row.
pub open spec fn row_synthesis(r: Seq<String>, quantity: Option<u8>, spread: Option<u8>) -> NewSynthesis {
    NewSynthesis {
        name: r[0],
        chapter: r[11],
        synthesis_type: r[12],
        ingredient1: opt_field(r[13]),
        ingredient2: opt_field(r[14]),
        ingredient3: opt_field(r[15]),
        ingredient4: opt_field(r[16]),
        add_category1: opt_field(r[17]),
        add_category2: opt_field(r[18]),
        extra_synth_quantity: quantity,
        effect_spread: spread,
    }
}

/// The morph that fields `a` (base item) and `b` (required item) of a recipe
/// row declare, when both are set.
pub open spec fn row_morph(r: Seq<String>, a: int, b: int) -> Seq<NewMorph> {
    if r[a]@.len() > 0 && r[b]@.len() > 0 {
        seq![NewMorph { name: r[0], chapter: r[11], from_recipe: r[a], from_requiring: r[b] }]
    } else {
        Seq::empty()
    }
}

/// What a row yields: its item, and for a recipe row its synthesis and up to two
/// morphs; or the reason it is rejected.
pub open spec fn row_outcome(r: Seq<String>) -> Result<(NewItem, Option<NewSynthesis>, Seq<NewMorph>), RespiError> {
    if r.len() != ROW_FIELDS {
        Err(RespiError::CsvError)
    } else {
        match item_number_of(r) {
            None => Err(RespiError::InvalidNumber),
            Some(n) => if n is RecipeNumber {
                match (number_field(r[23]), number_field(r[24])) {
                    (Some(q), Some(e)) => Ok(
                        (row_item(r, n), Some(row_synthesis(r, q, e)), row_morph(r, 19, 20) + row_morph(r, 21, 22)),
                    ),
                    _ => Err(RespiError::InvalidNumber),
                }
            } else {
                Ok((row_item(r, n), None, Seq::empty()))
            },
        }
    }
}

fn field(f: &String) -> (r: Option<String>)
    ensures
        r == opt_field(*f),
{
    if f.as_str().is_empty() {
        None
    } else {
        Some(f.clone())
    }
}

fn number(f: &String) -> (r: Option<Option<u8>>)
    ensures
        r == number_field(*f),
{
    if f.as_str().is_empty() {
        Some(None)
    } else {
        match parse_u8(f) {
            Some(v) => Some(Some(v)),
            None => None,
        }
    }
}

fn push_morph(out: &mut Vec<NewMorph>, r: &Vec<String>, a: usize, b: usize)
    requires
        r@.len() == ROW_FIELDS,
        a < ROW_FIELDS,
        b < ROW_FIELDS,
    ensures
        final(out)@ == old(out)@ + row_morph(r@, a as int, b as int),
{
    if !r[a].as_str().is_empty() && !r[b].as_str().is_empty() {
        out.push(NewMorph { name: r[0].clone(), chapter: r[11].clone(), from_recipe: r[a].clone(), from_requiring: r[b].clone() });
    }
    assert(final(out)@ =~= old(out)@ + row_morph(r@, a as int, b as int));
}

/// Reads one row of fields: its item, and for a recipe row its synthesis and
/// morphs. A row must have exactly `ROW_FIELDS` fields and its numeric fields
/// must be small unsigned integers.
pub fn parse_row(r: &Vec<String>) -> (res: Result<(NewItem, Option<NewSynthesis>, Vec<NewMorph>), RespiError>)
    ensures
        match res {
            Ok((it, s, ms)) => row_outcome(r@) == Ok::<_, RespiError>((it, s, ms@)),
            Err(e) => row_outcome(r@) == Err::<(NewItem, Option<NewSynthesis>, Seq<NewMorph>), _>(e),
        },
{
    if r.len() != ROW_FIELDS {
        return Err(RespiError::CsvError);
    }
    let item_number = if !r[9].as_str().is_empty() {
        match parse_u8(&r[9]) {
            Some(v) => ItemNumber::MaterialNumber(v),
            None => {
                return Err(RespiError::InvalidNumber);
            },
        }
    } else if !r[10].as_str().is_empty() {
        match parse_u8(&r[10]) {
            Some(v) => ItemNumber::RecipeNumber(v),
            None => {
                return Err(RespiError::InvalidNumber);
            },
        }
    } else {
        ItemNumber::Unclassified
    };
    let item = NewItem {
        name: r[0].clone(),
        fire: !r[1].as_str().is_empty(),
        ice: !r[2].as_str().is_empty(),
        light: !r[3].as_str().is_empty(),
        wind: !r[4].as_str().is_empty(),
        category1: field(&r[5]),
        category2: field(&r[6]),
        category3: field(&r[7]),
        category4: field(&r[8]),
        item_number,
    };
    let mut morphs: Vec<NewMorph> = Vec::new();
    if let ItemNumber::RecipeNumber(_) = item_number {
        let quantity = match number(&r[23]) {
            Some(q) => q,
            None => {
                return Err(RespiError::InvalidNumber);
            },
        };
        let spread = match number(&r[24]) {
            Some(e) => e,
            None => {
                return Err(RespiError::InvalidNumber);
            },
        };
        let synthesis = NewSynthesis {
            name: r[0].clone(),
            chapter: r[11].clone(),
            synthesis_type: r[12].clone(),
            ingredient1: field(&r[13]),
            ingredient2: field(&r[14]),
            ingredient3: field(&r[15]),
            ingredient4: field(&r[16]),
            add_category1: field(&r[17]),
            add_category2: field(&r[18]),
            extra_synth_quantity: quantity,
            effect_spread: spread,
        };
        push_morph(&mut morphs, r, 19, 20);
        push_morph(&mut morphs, r, 21, 22);
        assert(morphs@ =~= row_morph(r@, 19, 20) + row_morph(r@, 21, 22));
        Ok((item, Some(synthesis), morphs))
    } else {
        assert(morphs@ =~= Seq::<NewMorph>::empty());
        Ok((item, None, morphs))
    }
}

/// The one-element sequence holding the synthesis of a row, if it has one.
pub open spec fn present_synthesis(s: Option<NewSynthesis>) -> Seq<NewSynthesis> {
    match s {
        Some(x) => seq![x],
        None => Seq::empty(),
    }
}

/// What the first `n` rows yield: the items, syntheses and morphs of all of
/// them, in row order; or the rejection of the first row that fails.
pub open spec fn rows_outcome(rows: Seq<Vec<String>>, n: nat) -> Result<(Seq<NewItem>, Seq<NewSynthesis>, Seq<NewMorph>), RespiError>
    decreases n,
{
    if n == 0 {
        Ok((Seq::empty(), Seq::empty(), Seq::empty()))
    } else {
        match rows_outcome(rows, (n - 1) as nat) {
            Err(e) => Err(e),
            Ok((items, syns, morphs)) => match row_outcome(rows[n - 1]@) {
                Err(e) => Err(e),
                Ok((it, s, ms)) => Ok((items.push(it), syns + present_synthesis(s), morphs + ms)),
            },
        }
    }
}

proof fn lemma_rows_error_stays(rows: Seq<Vec<String>>, j: nat, k: nat)
    requires
        j <= k,
        rows_outcome(rows, j) is Err,
    ensures
        rows_outcome(rows, k) == rows_outcome(rows, j),
    decreases k - j,
{
    if j < k {
        lemma_rows_error_stays(rows, j, (k - 1) as nat);
    }
}

/// Reads every row into item, synthesis and morph records; the first row that
/// is rejected rejects the whole dataset.
pub fn parse_rows(rows: &Vec<Vec<String>>) -> (res: Result<(Vec<NewItem>, Vec<NewSynthesis>, Vec<NewMorph>), RespiError>)
    ensures
        match res {
            Ok((items, syns, morphs)) => rows_outcome(rows@, rows@.len()) == Ok::<_, RespiError>((items@, syns@, morphs@)),
            Err(e) => rows_outcome(rows@, rows@.len()) == Err::<(Seq<NewItem>, Seq<NewSynthesis>, Seq<NewMorph>), _>(e),
        },
{
    let mut items: Vec<NewItem> = Vec::new();
    let mut syns: Vec<NewSynthesis> = Vec::new();
    let mut morphs: Vec<NewMorph> = Vec::new();
    let mut k: usize = 0;
    while k < rows.len()
        invariant
            k <= rows@.len(),
            rows_outcome(rows@, k as nat) == Ok::<_, RespiError>((items@, syns@, morphs@)),
        decreases rows@.len() - k,
    {
        match parse_row(&rows[k]) {
            Ok((it, s, ms)) => {
                let ghost old_syns = syns@;
                let ghost gs = s;
                let mut ms = ms;
                items.push(it);
                match s {
                    Some(x) => syns.push(x),
                    None => {},
                }
                morphs.append(&mut ms);
                assert(syns@ =~= old_syns + present_synthesis(gs));
            },
            Err(e) => {
                proof {
                    lemma_rows_error_stays(rows@, (k + 1) as nat, rows@.len());
                }
                return Err(e);
            },
        }
        k += 1;
    }
    Ok((items, syns, morphs))
}

} // verus!
