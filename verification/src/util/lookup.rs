//! Finding a statistic in a list by its field.

use crate::character::{AttributeLike, StatEntry};
use crate::text::same_text;
use vstd::prelude::*;

verus! {

/// The statistics of a list, in its order.
pub open spec fn entries<T: AttributeLike>(list: Seq<T>) -> Seq<StatEntry> {
    list.map_values(|item: T| item.entry())
}

/// Whether some statistic of the list has the field.
pub open spec fn has_field(entries: Seq<StatEntry>, field: Seq<char>) -> bool {
    exists|i: int| 0 <= i < entries.len() && #[trigger] entries[i].field == field
}

/// The index of the first statistic with the field; the length of the list
/// where none has it.
pub open spec fn position(entries: Seq<StatEntry>, field: Seq<char>) -> int
    decreases entries.len(),
{
    if entries.len() == 0 || entries[0].field == field {
        0
    } else {
        1 + position(entries.drop_first(), field)
    }
}

/// The first statistic with the field, if there is one.
pub open spec fn lookup(entries: Seq<StatEntry>, field: Seq<char>) -> Option<StatEntry> {
    if position(entries, field) < entries.len() {
        Some(entries[position(entries, field)])
    } else {
        None
    }
}

/// `position` is the least index at which the field stands: no statistic
/// before it has the field, and the one at it has, unless it is the length of
/// the list.
pub proof fn lemma_position(entries: Seq<StatEntry>, field: Seq<char>)
    ensures
        0 <= position(entries, field) <= entries.len(),
        forall|j: int| 0 <= j < position(entries, field) ==> (#[trigger] entries[j]).field != field,
        position(entries, field) < entries.len() ==> entries[position(entries, field)].field
            == field,
        position(entries, field) < entries.len() <==> has_field(entries, field),
    decreases entries.len(),
{
    if entries.len() == 0 || entries[0].field == field {
    } else {
        let rest = entries.drop_first();
        lemma_position(rest, field);
        assert forall|j: int| 0 <= j < position(entries, field) implies (#[trigger] entries[j]).field
            != field by {
            if j > 0 {
                assert(entries[j] == rest[j - 1]);
            }
        }
        if has_field(entries, field) {
            let i = choose|i: int| 0 <= i < entries.len() && #[trigger] entries[i].field == field;
            assert(rest[i - 1].field == field);
        }
    }
}

/// An index is the position of a field when no statistic before it has the
/// field and it is the length of the list or the statistic at it has the
/// field.
pub proof fn lemma_position_is(entries: Seq<StatEntry>, field: Seq<char>, i: int)
    requires
        0 <= i <= entries.len(),
        forall|j: int| 0 <= j < i ==> (#[trigger] entries[j]).field != field,
        i < entries.len() ==> entries[i].field == field,
    ensures
        position(entries, field) == i,
{
    lemma_position(entries, field);
    let p = position(entries, field);
    if p < i {
        assert(entries[p].field != field);
    }
}

/// The first statistic of the list that has the field.
pub fn find_by_field<'a, T: AttributeLike>(list: &'a [T], field: &str) -> (found: Option<&'a T>)
    ensures
        match found {
            Some(item) => {
                &&& position(entries(list@), field@) < list@.len()
                &&& *item == list@[position(entries(list@), field@)]
            },
            None => position(entries(list@), field@) == list@.len(),
        },
        found is Some <==> has_field(entries(list@), field@),
        match found {
            Some(item) => lookup(entries(list@), field@) == Some(item.entry()),
            None => lookup(entries(list@), field@) is None,
        },
{
    let mut i: usize = 0;
    while i < list.len()
        invariant
            i <= list@.len(),
            forall|j: int| 0 <= j < i ==> (#[trigger] entries(list@)[j]).field != field@,
        decreases list@.len() - i,
    {
        if same_text(list[i].field().as_str(), field) {
            proof {
                lemma_position_is(entries(list@), field@, i as int);
                lemma_position(entries(list@), field@);
            }
            return Some(&list[i]);
        }
        i += 1;
    }
    proof {
        lemma_position_is(entries(list@), field@, i as int);
        lemma_position(entries(list@), field@);
    }
    None
}

} // verus!
