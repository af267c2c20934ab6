//! The fixed order of the secondary statistics, and what sorting by it means.

use crate::util::seqs::{lemma_filter_all, lemma_filter_none};
use vstd::prelude::*;

verus! {

/// The place of a field in the fixed order of the secondary statistics;
/// seven for every field that the order does not name.
pub open spec fn rank(field: Seq<char>) -> int {
    if field == "crit_rate"@ {
        0
    } else if field == "crit_dmg"@ {
        1
    } else if field == "break_dmg"@ {
        2
    } else if field == "heal_rate"@ {
        3
    } else if field == "sp_rate"@ {
        4
    } else if field == "effect_hit"@ {
        5
    } else if field == "effect_res"@ {
        6
    } else {
        7
    }
}

/// The fields of one rank, in the order in which they stand.
pub open spec fn of_rank(fields: Seq<Seq<char>>, r: int) -> Seq<Seq<char>> {
    fields.filter(|field: Seq<char>| rank(field) == r)
}

/// The fields of the ranks up to `r`, rank by rank, those of one rank in the
/// order in which they stand.
pub open spec fn ranked_up_to(fields: Seq<Seq<char>>, r: int) -> Seq<Seq<char>>
    decreases r + 1,
{
    if r < 0 {
        Seq::empty()
    } else {
        ranked_up_to(fields, r - 1) + of_rank(fields, r)
    }
}

/// Fields in their fixed order: sorted by rank, those of one rank in the
/// order in which they stood.
pub open spec fn sorted_fields(fields: Seq<Seq<char>>) -> Seq<Seq<char>> {
    ranked_up_to(fields, 7)
}

/// Whether the ranks of a sequence of fields never fall.
pub open spec fn ranks_rise(fields: Seq<Seq<char>>) -> bool {
    forall|i: int, j: int| 0 <= i < j < fields.len() ==> rank(fields[i]) <= rank(fields[j])
}

/// The fields of one rank all have that rank, and filtering them by a rank
/// keeps all of them or none.
pub proof fn lemma_of_rank(fields: Seq<Seq<char>>, r: int, q: int)
    ensures
        forall|i: int| 0 <= i < of_rank(fields, r).len() ==> rank(#[trigger] of_rank(fields, r)[i]) == r,
        of_rank(of_rank(fields, r), q) == if q == r {
            of_rank(fields, r)
        } else {
            Seq::empty()
        },
{
    let keep = |field: Seq<char>| rank(field) == r;
    let again = |field: Seq<char>| rank(field) == q;
    let kept = of_rank(fields, r);
    assert forall|i: int| 0 <= i < kept.len() implies rank(#[trigger] kept[i]) == r by {
        fields.lemma_filter_pred(keep, i);
    }
    if q == r {
        lemma_filter_all(kept, again);
    } else {
        lemma_filter_none(kept, again);
        assert(kept.filter(again) =~= Seq::empty());
    }
}

/// The fields up to a rank: their ranks never fall and none exceeds it, and
/// those among them of one rank are the fields of that rank as they stood.
pub proof fn lemma_ranked_up_to(fields: Seq<Seq<char>>, r: int, q: int)
    ensures
        ranks_rise(ranked_up_to(fields, r)),
        forall|i: int|
            0 <= i < ranked_up_to(fields, r).len() ==> rank(#[trigger] ranked_up_to(fields, r)[i])
                <= r,
        of_rank(ranked_up_to(fields, r), q) == if q <= r && 0 <= q {
            of_rank(fields, q)
        } else {
            Seq::empty()
        },
    decreases r + 1,
{
    let again = |field: Seq<char>| rank(field) == q;
    if r < 0 {
        reveal(Seq::filter);
        assert(of_rank(ranked_up_to(fields, r), q) =~= Seq::empty());
    } else {
        let front = ranked_up_to(fields, r - 1);
        let back = of_rank(fields, r);
        lemma_ranked_up_to(fields, r - 1, q);
        lemma_of_rank(fields, r, q);
        Seq::filter_distributes_over_add(front, back, again);
        assert(of_rank(ranked_up_to(fields, r), q) =~= if q <= r && 0 <= q {
            of_rank(fields, q)
        } else {
            Seq::empty()
        });
    }
}

/// Sorting is stable and loses nothing: the ranks of the sorted fields never
/// fall, those of each rank are the fields of that rank as they stood, and
/// every field stands as often as it stood.
pub proof fn lemma_sorted_fields(fields: Seq<Seq<char>>)
    ensures
        ranks_rise(sorted_fields(fields)),
        forall|r: int| #[trigger] of_rank(sorted_fields(fields), r) == of_rank(fields, r),
        sorted_fields(fields).to_multiset() == fields.to_multiset(),
{
    lemma_ranked_up_to(fields, 7, 0);
    assert forall|r: int| #[trigger] of_rank(sorted_fields(fields), r) == of_rank(fields, r) by {
        lemma_ranked_up_to(fields, 7, r);
        if !(0 <= r <= 7) {
            lemma_filter_none(fields, |field: Seq<char>| rank(field) == r);
            assert(of_rank(fields, r) =~= Seq::empty());
        }
    }
    lemma_same_ranks_same_multiset(sorted_fields(fields), fields);
}

/// Two sequences whose fields of each rank agree hold the same fields, each
/// as often.
pub proof fn lemma_same_ranks_same_multiset(s: Seq<Seq<char>>, t: Seq<Seq<char>>)
    requires
        forall|r: int| #[trigger] of_rank(s, r) == of_rank(t, r),
    ensures
        s.to_multiset() == t.to_multiset(),
{
    assert forall|x: Seq<char>| s.to_multiset().count(x) == t.to_multiset().count(x) by {
        let r = rank(x);
        lemma_count_in_rank(s, x);
        lemma_count_in_rank(t, x);
        assert(of_rank(s, r) == of_rank(t, r));
    }
    assert(s.to_multiset() =~= t.to_multiset());
}

/// A field occurs in a sequence as often as among the fields of its rank.
pub proof fn lemma_count_in_rank(s: Seq<Seq<char>>, x: Seq<char>)
    ensures
        s.to_multiset().count(x) == of_rank(s, rank(x)).to_multiset().count(x),
    decreases s.len(),
{
    let keep = |field: Seq<char>| rank(field) == rank(x);
    reveal(Seq::filter);
    broadcast use vstd::seq_lib::group_to_multiset_ensures;

    if s.len() == 0 {
        assert(s.filter(keep) =~= s);
    } else {
        let front = s.drop_last();
        lemma_count_in_rank(front, x);
        assert(front.push(s.last()) =~= s);
        assert(s.to_multiset() =~= front.to_multiset().insert(s.last()));
        if keep(s.last()) {
            assert(s.filter(keep).to_multiset() =~= front.filter(keep).to_multiset().insert(
                s.last(),
            ));
        }
    }
}

/// The fields of the ranks up to `r`, in the order in which they stand.
pub open spec fn up_to_rank(fields: Seq<Seq<char>>, r: int) -> Seq<Seq<char>> {
    fields.filter(|field: Seq<char>| rank(field) <= r)
}

/// In a sequence whose ranks never fall, the fields up to a rank stand
/// rank by rank already.
pub proof fn lemma_risen_up_to(fields: Seq<Seq<char>>, r: int)
    requires
        ranks_rise(fields),
    ensures
        ranked_up_to(fields, r) == up_to_rank(fields, r),
    decreases r + 1,
{
    if r < 0 {
        lemma_filter_none(fields, |field: Seq<char>| rank(field) <= r);
        assert(up_to_rank(fields, r) =~= Seq::empty());
    } else {
        lemma_risen_up_to(fields, r - 1);
        lemma_risen_split(fields, r);
    }
}

/// In a sequence whose ranks never fall, the fields below a rank stand
/// before those of the rank.
pub proof fn lemma_risen_split(fields: Seq<Seq<char>>, r: int)
    requires
        ranks_rise(fields),
    ensures
        up_to_rank(fields, r) == up_to_rank(fields, r - 1) + of_rank(fields, r),
    decreases fields.len(),
{
    let below = |field: Seq<char>| rank(field) <= r - 1;
    let at = |field: Seq<char>| rank(field) == r;
    let upto = |field: Seq<char>| rank(field) <= r;
    reveal(Seq::filter);
    if fields.len() == 0 {
        assert(fields.filter(upto) =~= fields.filter(below) + fields.filter(at));
    } else {
        let front = fields.drop_last();
        let x = fields.last();
        assert(ranks_rise(front)) by {
            assert forall|i: int, j: int| 0 <= i < j < front.len() implies rank(front[i]) <= rank(
                front[j],
            ) by {
                assert(front[i] == fields[i] && front[j] == fields[j]);
            }
        }
        lemma_risen_split(front, r);
        if rank(x) < r {
            assert forall|i: int| 0 <= i < front.len() implies !at(#[trigger] front[i]) by {
                assert(front[i] == fields[i]);
                assert(rank(fields[i]) <= rank(fields[fields.len() - 1]));
            }
            lemma_filter_none(front, at);
            assert(front.filter(at) =~= Seq::empty());
            assert(fields.filter(upto) =~= fields.filter(below) + fields.filter(at));
        } else {
            assert(fields.filter(upto) =~= fields.filter(below) + fields.filter(at));
        }
    }
}

/// Sorting changes nothing in a sequence whose ranks never fall.
pub proof fn lemma_sorted_stays(fields: Seq<Seq<char>>)
    requires
        ranks_rise(fields),
    ensures
        sorted_fields(fields) == fields,
{
    lemma_risen_up_to(fields, 7);
    lemma_filter_all(fields, |field: Seq<char>| rank(field) <= 7);
}

/// Sequences that agree on the fields of each rank sort to the same.
pub proof fn lemma_same_ranks_same_sorted(s: Seq<Seq<char>>, t: Seq<Seq<char>>, r: int)
    requires
        forall|q: int| #[trigger] of_rank(s, q) == of_rank(t, q),
    ensures
        ranked_up_to(s, r) == ranked_up_to(t, r),
    decreases r + 1,
{
    if r >= 0 {
        lemma_same_ranks_same_sorted(s, t, r - 1);
        assert(of_rank(s, r) == of_rank(t, r));
    }
}

/// The sorted sequence is the only one that is in order and keeps the
/// fields of each rank as they stood.
pub proof fn lemma_sorted_is_unique(fields: Seq<Seq<char>>, other: Seq<Seq<char>>)
    requires
        ranks_rise(other),
        forall|r: int| #[trigger] of_rank(other, r) == of_rank(fields, r),
    ensures
        other == sorted_fields(fields),
{
    lemma_sorted_stays(other);
    lemma_same_ranks_same_sorted(other, fields, 7);
}

/// Sorting what is sorted changes nothing.
pub proof fn lemma_sorting_twice(fields: Seq<Seq<char>>)
    ensures
        sorted_fields(sorted_fields(fields)) == sorted_fields(fields),
{
    lemma_sorted_fields(fields);
    lemma_sorted_stays(sorted_fields(fields));
}

} // verus!
