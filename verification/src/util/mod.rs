//! Merging statistics for display: looking a statistic up by its field,
//! adding two of a kind into one text, summing up damage bonuses, naming the
//! fields of two lists, and bringing fields into their fixed order.

use crate::text::same_text;
use vstd::prelude::*;

pub mod attr;
pub mod boost;
pub mod fields;
pub mod lookup;
pub mod merge;
pub mod order;
pub mod prop;
pub mod seqs;

pub use boost::{
    boost_display, boost_rows, damage_boosts, damage_rows, elemental, elemental_field, entries_of,
    entry_of, is_elemental_field, lemma_rows_of_elemental, make_boost_rows, row,
};
pub use fields::{combine_fields, distinct, fields, lemma_concat_to_set, lemma_distinct};
pub use lookup::{
    entries, find_by_field, has_field, lemma_position, lemma_position_is, lookup, position,
};
pub use merge::{
    lemma_merged_commutes, merge_field, merge_stats, merged, merged_field, normalized, tenths_text,
};
pub use order::{
    lemma_sorted_fields, lemma_sorted_is_unique, lemma_sorted_stays, lemma_sorting_twice, of_rank,
    rank, ranked_up_to, ranks_rise, sorted_fields,
};
pub use seqs::{lemma_filter_all, lemma_filter_next, lemma_filter_none};

verus! {

/// The place of a field in the fixed order.
pub fn field_rank(field: &str) -> (r: u8)
    ensures
        r == rank(field@),
{
    if same_text(field, "crit_rate") {
        0
    } else if same_text(field, "crit_dmg") {
        1
    } else if same_text(field, "break_dmg") {
        2
    } else if same_text(field, "heal_rate") {
        3
    } else if same_text(field, "sp_rate") {
        4
    } else if same_text(field, "effect_hit") {
        5
    } else if same_text(field, "effect_res") {
        6
    } else {
        7
    }
}

/// Brings fields into the fixed order of the secondary statistics: those the
/// order names first, as it ranks them, then the others; fields of one rank
/// stay in the order in which they stood.
pub fn sort_fields(list: Vec<String>) -> (sorted: Vec<String>)
    ensures
        sorted.deep_view() == sorted_fields(list.deep_view()),
        ranks_rise(sorted.deep_view()),
        forall|r: int| #[trigger] of_rank(sorted.deep_view(), r) == of_rank(list.deep_view(), r),
        sorted.deep_view().to_multiset() == list.deep_view().to_multiset(),
        sorted@.len() == list@.len(),
{
    let ghost fields = list.deep_view();
    let mut sorted: Vec<String> = Vec::new();
    let mut r: u8 = 0;
    while r < 8
        invariant
            r <= 8,
            fields == list.deep_view(),
            sorted.deep_view() == ranked_up_to(fields, r - 1),
        decreases 8 - r,
    {
        let ghost keep = |field: Seq<char>| rank(field) == r;
        let ghost front = sorted.deep_view();
        let mut i: usize = 0;
        while i < list.len()
            invariant
                i <= list@.len(),
                r < 8,
                fields == list.deep_view(),
                keep == (|field: Seq<char>| rank(field) == r),
                front == ranked_up_to(fields, r - 1),
                sorted.deep_view() == front + fields.take(i as int).filter(keep),
            decreases list@.len() - i,
        {
            proof {
                lemma_filter_next(fields, keep, i as int);
            }
            if field_rank(list[i].as_str()) == r {
                let ghost before = sorted.deep_view();
                sorted.push(list[i].clone());
                proof {
                    assert(fields[i as int] == list@[i as int]@);
                    assert(sorted.deep_view() =~= before.push(fields[i as int]));
                    assert(before.push(fields[i as int]) =~= front + fields.take(i as int).filter(
                        keep,
                    ).push(fields[i as int]));
                }
            }
            i += 1;
        }
        proof {
            assert(fields.take(i as int) =~= fields);
        }
        r += 1;
    }
    proof {
        lemma_sorted_fields(fields);
        assert(sorted.deep_view().len() == sorted@.len());
        assert(fields.len() == list@.len());
        sorted.deep_view().to_multiset_ensures();
        fields.to_multiset_ensures();
    }
    sorted
}

} // verus!
