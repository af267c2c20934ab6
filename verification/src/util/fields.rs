//! The fields that two lists of statistics hold between them.

use crate::character::{AttributeLike, StatEntry};
use crate::text::same_text;
use crate::util::lookup::entries;
use vstd::prelude::*;

verus! {

/// The fields of a list of statistics, in its order.
pub open spec fn fields(entries: Seq<StatEntry>) -> Seq<Seq<char>> {
    entries.map_values(|entry: StatEntry| entry.field)
}

/// A sequence without its repetitions: of each value the first occurrence
/// stays, in its place among the others.
pub open spec fn distinct(s: Seq<Seq<char>>) -> Seq<Seq<char>>
    decreases s.len(),
{
    if s.len() == 0 {
        s
    } else if distinct(s.drop_last()).contains(s.last()) {
        distinct(s.drop_last())
    } else {
        distinct(s.drop_last()).push(s.last())
    }
}

/// `distinct` repeats nothing and holds exactly the values of the sequence.
pub proof fn lemma_distinct(s: Seq<Seq<char>>)
    ensures
        distinct(s).no_duplicates(),
        distinct(s).to_set() == s.to_set(),
        distinct(s).len() == s.to_set().len(),
    decreases s.len(),
{
    if s.len() > 0 {
        let front = s.drop_last();
        lemma_distinct(front);
        assert forall|x: Seq<char>| distinct(s).contains(x) <==> s.contains(x) by {
            if distinct(s).contains(x) {
                let i = choose|i: int| 0 <= i < distinct(s).len() && distinct(s)[i] == x;
                if i < distinct(front).len() {
                    assert(distinct(front).contains(x));
                    assert(front.to_set().contains(x));
                    let j = choose|j: int| 0 <= j < front.len() && front[j] == x;
                    assert(s[j] == x);
                } else {
                    assert(s[s.len() - 1] == x);
                }
            }
            if s.contains(x) {
                let j = choose|j: int| 0 <= j < s.len() && s[j] == x;
                if j < front.len() {
                    assert(front[j] == x);
                    assert(front.to_set().contains(x));
                    assert(distinct(front).contains(x));
                    let i = choose|i: int| 0 <= i < distinct(front).len() && distinct(front)[i] == x;
                    assert(distinct(s)[i] == x);
                } else if !distinct(front).contains(s.last()) {
                    assert(distinct(s)[distinct(s).len() - 1] == x);
                }
            }
        }
    }
    assert(distinct(s).to_set() =~= s.to_set());
    distinct(s).unique_seq_to_set();
}

/// The values of two sequences written one after the other are the values of
/// the one and of the other.
pub proof fn lemma_concat_to_set(s: Seq<Seq<char>>, t: Seq<Seq<char>>)
    ensures
        (s + t).to_set() == s.to_set().union(t.to_set()),
{
    assert forall|x: Seq<char>| (s + t).contains(x) <==> s.contains(x) || t.contains(x) by {
        if (s + t).contains(x) {
            let i = choose|i: int| 0 <= i < (s + t).len() && (s + t)[i] == x;
            if i < s.len() {
                assert(s[i] == x);
            } else {
                assert(t[i - s.len()] == x);
            }
        }
        if s.contains(x) {
            let i = choose|i: int| 0 <= i < s.len() && s[i] == x;
            assert((s + t)[i] == x);
        }
        if t.contains(x) {
            let i = choose|i: int| 0 <= i < t.len() && t[i] == x;
            assert((s + t)[s.len() + i] == x);
        }
    }
    assert((s + t).to_set() =~= s.to_set().union(t.to_set()));
}

/// Appends a field unless the list holds it already.
fn push_new<'a>(out: &mut Vec<&'a str>, field: &'a str)
    ensures
        final(out).deep_view() == if old(out).deep_view().contains(field@) {
            old(out).deep_view()
        } else {
            old(out).deep_view().push(field@)
        },
{
    let mut i: usize = 0;
    while i < out.len()
        invariant
            i <= out@.len(),
            *out == *old(out),
            forall|j: int| 0 <= j < i ==> (#[trigger] out.deep_view()[j]) != field@,
        decreases out@.len() - i,
    {
        if same_text(out[i], field) {
            proof {
                assert(out.deep_view()[i as int] == field@);
            }
            return ;
        }
        i += 1;
    }
    out.push(field);
    proof {
        assert(out.deep_view() =~= old(out).deep_view().push(field@));
    }
}

/// Every field that stands in either of two lists of statistics, each once,
/// in the order in which they first occur.
pub fn combine_fields<'a, A: AttributeLike, B: AttributeLike>(a: &'a [A], b: &'a [B]) -> (found:
    Vec<&'a str>)
    ensures
        found.deep_view() == distinct(fields(entries(a@)) + fields(entries(b@))),
        found.deep_view().no_duplicates(),
        found.deep_view().to_set() == fields(entries(a@)).to_set().union(
            fields(entries(b@)).to_set(),
        ),
        found@.len() == fields(entries(a@)).to_set().union(fields(entries(b@)).to_set()).len(),
{
    let ghost all = fields(entries(a@)) + fields(entries(b@));
    let mut found: Vec<&'a str> = Vec::new();
    let mut i: usize = 0;
    while i < a.len()
        invariant
            i <= a@.len(),
            all == fields(entries(a@)) + fields(entries(b@)),
            found.deep_view() == distinct(all.take(i as int)),
        decreases a@.len() - i,
    {
        proof {
            assert(all.take(i + 1).drop_last() =~= all.take(i as int));
        }
        push_new(&mut found, a[i].field().as_str());
        i += 1;
    }
    let mut k: usize = 0;
    while k < b.len()
        invariant
            k <= b@.len(),
            all == fields(entries(a@)) + fields(entries(b@)),
            found.deep_view() == distinct(all.take(a@.len() + k)),
        decreases b@.len() - k,
    {
        proof {
            assert(all.take(a@.len() + k + 1).drop_last() =~= all.take(a@.len() + k));
        }
        push_new(&mut found, b[k].field().as_str());
        k += 1;
    }
    proof {
        assert(all.take((a@.len() + b@.len()) as int) =~= all);
        lemma_distinct(all);
        lemma_concat_to_set(fields(entries(a@)), fields(entries(b@)));
        assert(found.deep_view().len() == found@.len());
    }
    found
}

} // verus!
