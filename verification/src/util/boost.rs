//! The rows of the damage panel.

use crate::character::{AttributeLike, StatEntry};
use crate::text::{ends_with, same_text};
use crate::util::lookup::{entries, find_by_field, has_field, lookup};
use crate::util::merge::{merge_stats, merged};
use crate::util::seqs::{lemma_filter_next, lemma_filter_none};
use vstd::prelude::*;

verus! {

/// Whether a field names the damage bonus of one element: it ends in `_dmg`
/// and is not the bonus to all damage.
pub open spec fn is_elemental_field(field: Seq<char>) -> bool {
    "_dmg"@.is_suffix_of(field) && field != "all_dmg"@
}

/// The statistics of a list that are damage bonuses of one element, in the
/// list's order.
pub open spec fn elemental(entries: Seq<StatEntry>) -> Seq<StatEntry> {
    entries.filter(|entry: StatEntry| is_elemental_field(entry.field))
}

/// One row of the damage panel: field, icon, name and the text to show.
pub open spec fn row(entry: StatEntry, display: Seq<char>) -> Seq<Seq<char>> {
    seq![entry.field, entry.icon, entry.name, display]
}

/// What the row of an elemental bonus shows: the bonus merged with the bonus
/// to all damage, or its own text where there is none.
pub open spec fn boost_display(entry: StatEntry, all_dmg: Option<StatEntry>) -> Seq<char> {
    match all_dmg {
        Some(all) => merged(entry, all),
        None => entry.display,
    }
}

/// The rows of the damage panel. Without elemental bonuses it is the bonus
/// to all damage alone, if there is one. With them it is one row for each, in
/// their order, and none for the bonus to all damage.
pub open spec fn boost_rows(elemental: Seq<StatEntry>, all_dmg: Option<StatEntry>) -> Seq<
    Seq<Seq<char>>,
> {
    if elemental.len() == 0 {
        match all_dmg {
            Some(all) => seq![row(all, all.display)],
            None => Seq::empty(),
        }
    } else {
        elemental.map_values(|entry: StatEntry| row(entry, boost_display(entry, all_dmg)))
    }
}

/// The rows of the damage panel for a list of statistics.
pub open spec fn damage_rows(entries: Seq<StatEntry>) -> Seq<Seq<Seq<char>>> {
    boost_rows(elemental(entries), lookup(entries, "all_dmg"@))
}

/// Where a list has elemental bonuses, the panel has one row for each, in
/// their order, and none for the bonus to all damage.
pub proof fn lemma_rows_of_elemental(entries: Seq<StatEntry>)
    requires
        elemental(entries).len() > 0,
    ensures
        damage_rows(entries).len() == elemental(entries).len(),
        forall|i: int|
            0 <= i < elemental(entries).len() ==> {
                &&& (#[trigger] damage_rows(entries)[i])[0] == elemental(entries)[i].field
                &&& is_elemental_field(damage_rows(entries)[i][0])
                &&& damage_rows(entries)[i][0] != "all_dmg"@
            },
{
    let pred = |entry: StatEntry| is_elemental_field(entry.field);
    assert forall|i: int| 0 <= i < elemental(entries).len() implies is_elemental_field(
        (#[trigger] damage_rows(entries)[i])[0],
    ) by {
        entries.lemma_filter_pred(pred, i);
    }
}

/// The statistics behind a list of references.
pub open spec fn entries_of<T: AttributeLike>(items: Seq<&T>) -> Seq<StatEntry> {
    items.map_values(|item: &T| item.entry())
}

/// The statistic behind an optional reference.
pub open spec fn entry_of<T: AttributeLike>(item: Option<&T>) -> Option<StatEntry> {
    match item {
        Some(item) => Some(item.entry()),
        None => None,
    }
}

/// One row of the damage panel.
fn make_row<T: AttributeLike>(item: &T, display: String) -> (cells: Vec<String>)
    ensures
        cells.deep_view() == row(item.entry(), display@),
{
    let mut cells: Vec<String> = Vec::new();
    cells.push(item.field().clone());
    cells.push(item.icon().clone());
    cells.push(item.name().clone());
    cells.push(display);
    proof {
        assert(cells.deep_view() =~= row(item.entry(), display@));
    }
    cells
}

/// The rows of the damage panel, from the elemental bonuses and the bonus to
/// all damage.
pub fn make_boost_rows<T: AttributeLike>(elemental: &Vec<&T>, all_dmg: Option<&T>) -> (rows: Vec<
    Vec<String>,
>)
    ensures
        rows.deep_view() == boost_rows(entries_of(elemental@), entry_of(all_dmg)),
{
    let mut rows: Vec<Vec<String>> = Vec::new();
    if elemental.len() == 0 {
        if let Some(all) = all_dmg {
            rows.push(make_row(all, all.display().clone()));
        }
        proof {
            assert(rows.deep_view() =~= boost_rows(entries_of(elemental@), entry_of(all_dmg)));
        }
        return rows;
    }
    let mut i: usize = 0;
    while i < elemental.len()
        invariant
            i <= elemental@.len(),
            rows@.len() == i,
            forall|j: int|
                0 <= j < i ==> (#[trigger] rows@[j]).deep_view() == row(
                    elemental@[j].entry(),
                    boost_display(elemental@[j].entry(), entry_of(all_dmg)),
                ),
        decreases elemental@.len() - i,
    {
        let item = elemental[i];
        let display = match all_dmg {
            Some(all) => merge_stats(item, all),
            None => item.display().clone(),
        };
        rows.push(make_row(item, display));
        i += 1;
    }
    proof {
        assert(rows.deep_view() =~= boost_rows(entries_of(elemental@), entry_of(all_dmg)));
    }
    rows
}

/// Whether a field names the damage bonus of one element.
pub fn elemental_field(field: &str) -> (elemental: bool)
    ensures
        elemental == is_elemental_field(field@),
{
    ends_with(field, "_dmg") && !same_text(field, "all_dmg")
}

/// The rows of the damage panel for a list of statistics.
pub fn damage_boosts<T: AttributeLike>(list: &[T]) -> (rows: Vec<Vec<String>>)
    ensures
        rows.deep_view() == damage_rows(entries(list@)),
        (forall|i: int|
            0 <= i < list@.len() ==> !is_elemental_field((#[trigger] entries(list@)[i]).field))
            && !has_field(entries(list@), "all_dmg"@) ==> rows@.len() == 0,
{
    let ghost all = entries(list@);
    let ghost pred = |entry: StatEntry| is_elemental_field(entry.field);
    let mut selected: Vec<&T> = Vec::new();
    let mut i: usize = 0;
    while i < list.len()
        invariant
            i <= list@.len(),
            all == entries(list@),
            pred == (|entry: StatEntry| is_elemental_field(entry.field)),
            entries_of(selected@) == all.take(i as int).filter(pred),
        decreases list@.len() - i,
    {
        proof {
            lemma_filter_next(all, pred, i as int);
        }
        if elemental_field(list[i].field().as_str()) {
            selected.push(&list[i]);
            proof {
                assert(entries_of(selected@) =~= all.take(i as int).filter(pred).push(all[i as int]));
            }
        }
        i += 1;
    }
    proof {
        assert(all.take(i as int) =~= all);
        if forall|i: int| 0 <= i < list@.len() ==> !is_elemental_field((#[trigger] all[i]).field) {
            lemma_filter_none(all, pred);
        }
    }
    let all_dmg = find_by_field(list, "all_dmg");
    let rows = make_boost_rows(&selected, all_dmg);
    proof {
        assert(rows.deep_view().len() == rows@.len());
    }
    rows
}

} // verus!
