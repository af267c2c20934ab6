//! The merging functions on base statistics.

use crate::character::{AttributeData, AttributeLike, CharacterData};
use crate::util::{
    combine_fields, damage_boosts, damage_rows, distinct, entries, fields, find_by_field,
    has_field, is_elemental_field, lemma_position, merge_field, merge_stats, merged, merged_field,
    position,
};
use vstd::prelude::*;

verus! {

/// Every field that stands in either of two lists of base statistics, each
/// once, in the order in which they first occur.
pub fn combine_attr_fields<'a>(a: &'a [AttributeData], b: &'a [AttributeData]) -> (found: Vec<
    &'a str,
>)
    ensures
        found.deep_view() == distinct(fields(entries(a@)) + fields(entries(b@))),
        found.deep_view().no_duplicates(),
        found.deep_view().to_set() == fields(entries(a@)).to_set().union(
            fields(entries(b@)).to_set(),
        ),
        found@.len() == fields(entries(a@)).to_set().union(fields(entries(b@)).to_set()).len(),
{
    combine_fields(a, b)
}

/// The first base statistic of the list that has the field.
pub fn search_attr_field<'a>(attr: &'a [AttributeData], field: &str) -> (found: Option<
    &'a AttributeData,
>)
    ensures
        match found {
            Some(item) => {
                &&& position(entries(attr@), field@) < attr@.len()
                &&& *item == attr@[position(entries(attr@), field@)]
            },
            None => position(entries(attr@), field@) == attr@.len(),
        },
        found is Some <==> has_field(entries(attr@), field@),
{
    find_by_field(attr, field)
}

/// Merges two base statistics into one text for display.
pub fn comb_attr_stats(a: &AttributeData, b: &AttributeData) -> (text: String)
    ensures
        text@ == merged(a.entry(), b.entry()),
        a.is_percent != b.is_percent ==> text@ == a.display@ + " + "@ + b.display@,
{
    merge_stats(a, b)
}

/// What one field comes to over two lists of base statistics.
pub fn comb_attr_list_stats(attr_one: &[AttributeData], attr_two: &[AttributeData], field: &str) -> (text:
    String)
    ensures
        text@ == merged_field(entries(attr_one@), entries(attr_two@), field@),
        !has_field(entries(attr_one@), field@) && !has_field(entries(attr_two@), field@) ==> text@
            == "N/A"@,
        !has_field(entries(attr_one@), field@) && has_field(entries(attr_two@), field@) ==> text@
            == attr_two@[position(entries(attr_two@), field@)].display@,
        has_field(entries(attr_one@), field@) && !has_field(entries(attr_two@), field@) ==> text@
            == attr_one@[position(entries(attr_one@), field@)].display@,
{
    proof {
        lemma_position(entries(attr_one@), field@);
        lemma_position(entries(attr_two@), field@);
    }
    merge_field(attr_one, attr_two, field)
}

/// The rows of the damage panel from a character's base statistics.
pub fn comb_attr_dmg_boost(ch: &CharacterData) -> (rows: Vec<Vec<String>>)
    ensures
        rows.deep_view() == damage_rows(entries(ch.attributes@)),
        (forall|i: int|
            0 <= i < ch.attributes@.len() ==> !is_elemental_field(
                (#[trigger] ch.attributes@[i]).field@,
            )) && !has_field(entries(ch.attributes@), "all_dmg"@) ==> rows@.len() == 0,
{
    damage_boosts(ch.attributes.as_slice())
}

} // verus!
