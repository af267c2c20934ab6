//! The merging functions on derived statistics.

use crate::character::{AttributeLike, CharacterData, PropertyData};
use crate::text::ends_with;
use crate::util::{
    boost_rows, combine_fields, distinct, elemental_field, entries, entries_of, fields,
    find_by_field, has_field, is_elemental_field, lemma_filter_next, lemma_filter_none,
    lemma_position, lookup,
    make_boost_rows, merge_field, merge_stats, merged, merged_field, position,
};
use vstd::prelude::*;

verus! {

/// Whether a derived statistic is the damage bonus of one element: a ratio
/// that is added, on a field that names such a bonus.
pub open spec fn is_boost_property(property: PropertyData) -> bool {
    "AddedRatio"@.is_suffix_of(property.type_tag@) && is_elemental_field(property.field@)
}

/// The derived statistics that are damage bonuses of one element, in the
/// list's order.
pub open spec fn boost_properties(properties: Seq<PropertyData>) -> Seq<PropertyData> {
    properties.filter(|property: PropertyData| is_boost_property(property))
}

/// The rows of the damage panel for a list of derived statistics.
pub open spec fn property_rows(properties: Seq<PropertyData>) -> Seq<Seq<Seq<char>>> {
    boost_rows(entries(boost_properties(properties)), lookup(entries(properties), "all_dmg"@))
}

/// Where a list has damage bonuses of one element, the panel has one row
/// for each, in their order, and none for the bonus to all damage.
pub proof fn lemma_rows_of_boost_properties(properties: Seq<PropertyData>)
    requires
        boost_properties(properties).len() > 0,
    ensures
        property_rows(properties).len() == boost_properties(properties).len(),
        forall|i: int|
            0 <= i < boost_properties(properties).len() ==> {
                &&& (#[trigger] property_rows(properties)[i])[0] == boost_properties(
                    properties,
                )[i].field@
                &&& is_boost_property(boost_properties(properties)[i])
                &&& property_rows(properties)[i][0] != "all_dmg"@
            },
{
    let pred = |property: PropertyData| is_boost_property(property);
    assert forall|i: int| 0 <= i < boost_properties(properties).len() implies is_boost_property(
        #[trigger] boost_properties(properties)[i],
    ) by {
        properties.lemma_filter_pred(pred, i);
    }
}

/// Every field that stands in either of two lists of derived statistics,
/// each once, in the order in which they first occur.
pub fn combine_prop_fields<'a>(a: &'a [PropertyData], b: &'a [PropertyData]) -> (found: Vec<
    &'a str,
>)
    ensures
        found.deep_view() == distinct(fields(entries(a@)) + fields(entries(b@))),
        found.deep_view().no_duplicates(),
        found.deep_view().to_set() == fields(entries(a@)).to_set().union(
            fields(entries(b@)).to_set(),
        ),
        found@.len() == fields(entries(a@)).to_set().union(fields(entries(b@)).to_set()).len(),
{
    combine_fields(a, b)
}

/// The first derived statistic of the list that has the field.
pub fn search_prop_field<'a>(prop: &'a [PropertyData], field: &str) -> (found: Option<
    &'a PropertyData,
>)
    ensures
        match found {
            Some(item) => {
                &&& position(entries(prop@), field@) < prop@.len()
                &&& *item == prop@[position(entries(prop@), field@)]
            },
            None => position(entries(prop@), field@) == prop@.len(),
        },
        found is Some <==> has_field(entries(prop@), field@),
{
    find_by_field(prop, field)
}

/// Merges two derived statistics into one text for display.
pub fn comb_prop_stats(a: &PropertyData, b: &PropertyData) -> (text: String)
    ensures
        text@ == merged(a.entry(), b.entry()),
        a.is_percent != b.is_percent ==> text@ == a.display@ + " + "@ + b.display@,
{
    merge_stats(a, b)
}

/// What one field comes to over two lists of derived statistics.
pub fn comb_prop_list_stats(prop_one: &[PropertyData], prop_two: &[PropertyData], field: &str) -> (text:
    String)
    ensures
        text@ == merged_field(entries(prop_one@), entries(prop_two@), field@),
        !has_field(entries(prop_one@), field@) && !has_field(entries(prop_two@), field@) ==> text@
            == "N/A"@,
        !has_field(entries(prop_one@), field@) && has_field(entries(prop_two@), field@) ==> text@
            == prop_two@[position(entries(prop_two@), field@)].display@,
        has_field(entries(prop_one@), field@) && !has_field(entries(prop_two@), field@) ==> text@
            == prop_one@[position(entries(prop_one@), field@)].display@,
{
    proof {
        lemma_position(entries(prop_one@), field@);
        lemma_position(entries(prop_two@), field@);
    }
    merge_field(prop_one, prop_two, field)
}

/// The rows of the damage panel from a character's derived statistics.
pub fn comb_prop_dmg_boost(ch: &CharacterData) -> (rows: Vec<Vec<String>>)
    ensures
        rows.deep_view() == property_rows(ch.properties@),
        (forall|i: int|
            0 <= i < ch.properties@.len() ==> !is_boost_property(#[trigger] ch.properties@[i]))
            && !has_field(entries(ch.properties@), "all_dmg"@) ==> rows@.len() == 0,
{
    let list = ch.properties.as_slice();
    let ghost pred = |property: PropertyData| is_boost_property(property);
    let mut selected: Vec<&PropertyData> = Vec::new();
    let mut i: usize = 0;
    while i < list.len()
        invariant
            i <= list@.len(),
            list@ == ch.properties@,
            pred == (|property: PropertyData| is_boost_property(property)),
            entries_of(selected@) == entries(list@.take(i as int).filter(pred)),
        decreases list@.len() - i,
    {
        proof {
            lemma_filter_next(list@, pred, i as int);
        }
        let item = &list[i];
        if ends_with(item.type_tag.as_str(), "AddedRatio") && elemental_field(
            item.field.as_str(),
        ) {
            let ghost before = entries_of(selected@);
            selected.push(item);
            proof {
                let kept = list@.take(i as int).filter(pred);
                assert(entries_of(selected@) =~= before.push(item.entry()));
                assert(entries(kept.push(list@[i as int])) =~= entries(kept).push(item.entry()));
            }
        }
        i += 1;
    }
    proof {
        assert(list@.take(i as int) =~= list@);
        if forall|i: int| 0 <= i < list@.len() ==> !is_boost_property(#[trigger] list@[i]) {
            lemma_filter_none(list@, pred);
        }
    }
    let all_dmg = find_by_field(list, "all_dmg");
    let rows = make_boost_rows(&selected, all_dmg);
    proof {
        assert(rows.deep_view().len() == rows@.len());
    }
    rows
}

} // verus!
