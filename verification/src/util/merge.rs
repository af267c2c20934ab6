//! Merging two statistics into one text.

use crate::character::{AttributeLike, StatEntry};
use crate::text::{decimal, decimal_nat, digit_char, digit_text, push_decimal, push_decimal_nat};
use crate::util::lookup::{entries, find_by_field, has_field, lookup, position};
use vstd::prelude::*;
use vstd::string::*;

verus! {

/// The integer that a statistic's magnitude counts as: thousandths, rounded,
/// for a fraction of one; the whole part for a plain number.
pub open spec fn normalized(entry: StatEntry) -> int {
    if entry.is_percent {
        entry.value.rounded_thousandths() as int
    } else {
        entry.value.truncated() as int
    }
}

/// A count of tenths written as a percentage with one decimal place.
pub open spec fn tenths_text(tenths: int) -> Seq<char> {
    let magnitude = if tenths < 0 {
        -tenths
    } else {
        tenths
    };
    let sign = if tenths < 0 {
        "-"@
    } else {
        Seq::<char>::empty()
    };
    sign + decimal_nat((magnitude / 10) as nat) + "."@ + seq![digit_char(magnitude % 10)] + "%"@
}

/// Two statistics merged into one text. Two of a kind are added: their
/// normalized magnitudes summed, then written as a percentage of tenths or as
/// a plain integer. A fraction and a plain number are not added: their own
/// texts stand side by side.
pub open spec fn merged(a: StatEntry, b: StatEntry) -> Seq<char> {
    if a.is_percent != b.is_percent {
        a.display + " + "@ + b.display
    } else if a.is_percent {
        tenths_text(normalized(a) + normalized(b))
    } else {
        decimal(normalized(a) + normalized(b))
    }
}

/// What one field comes to over two lists: the two first statistics with
/// that field merged, the text of the only one, or `N/A`.
pub open spec fn merged_field(a: Seq<StatEntry>, b: Seq<StatEntry>, field: Seq<char>) -> Seq<
    char,
> {
    match (lookup(a, field), lookup(b, field)) {
        (Some(x), Some(y)) => merged(x, y),
        (None, Some(y)) => y.display,
        (Some(x), None) => x.display,
        (None, None) => "N/A"@,
    }
}

/// Merging two statistics of a kind does not depend on their order.
pub proof fn lemma_merged_commutes(a: StatEntry, b: StatEntry)
    requires
        a.is_percent == b.is_percent,
    ensures
        merged(a, b) == merged(b, a),
{
}

/// Appends a count of tenths as a percentage with one decimal place.
fn push_tenths(out: &mut String, tenths: i64)
    ensures
        final(out)@ == old(out)@ + tenths_text(tenths as int),
{
    let magnitude: u64 = if tenths == i64::MIN {
        0x8000_0000_0000_0000u64
    } else if tenths < 0 {
        (-tenths) as u64
    } else {
        tenths as u64
    };
    if tenths < 0 {
        out.append("-");
    }
    push_decimal_nat(out, magnitude / 10);
    out.append(".");
    out.append(digit_text(magnitude % 10));
    out.append("%");
    proof {
        assert(out@ =~= old(out)@ + tenths_text(tenths as int));
    }
}

/// The integer that a statistic's magnitude counts as.
fn normalize<T: AttributeLike>(item: &T) -> (count: i32)
    ensures
        count == normalized(item.entry()),
{
    if item.is_percent() {
        item.value().round_thousandths()
    } else {
        item.value().truncate()
    }
}

/// Merges two statistics into one text for display.
pub fn merge_stats<A: AttributeLike, B: AttributeLike>(a: &A, b: &B) -> (text: String)
    ensures
        text@ == merged(a.entry(), b.entry()),
        a.entry().is_percent != b.entry().is_percent ==> text@ == a.entry().display + " + "@
            + b.entry().display,
{
    let mut text = String::new();
    if a.is_percent() != b.is_percent() {
        text.append(a.display().as_str());
        text.append(" + ");
        text.append(b.display().as_str());
        proof {
            assert(text@ =~= a.entry().display + " + "@ + b.entry().display);
        }
        return text;
    }
    let sum: i64 = normalize(a) as i64 + normalize(b) as i64;
    if a.is_percent() {
        push_tenths(&mut text, sum);
    } else {
        push_decimal(&mut text, sum);
    }
    proof {
        assert(text@ =~= merged(a.entry(), b.entry()));
    }
    text
}

/// What one field comes to over two lists of statistics.
pub fn merge_field<A: AttributeLike, B: AttributeLike>(a: &[A], b: &[B], field: &str) -> (text:
    String)
    ensures
        text@ == merged_field(entries(a@), entries(b@), field@),
        !has_field(entries(a@), field@) && !has_field(entries(b@), field@) ==> text@ == "N/A"@,
        !has_field(entries(a@), field@) && has_field(entries(b@), field@) ==> text@
            == entries(b@)[position(entries(b@), field@)].display,
        has_field(entries(a@), field@) && !has_field(entries(b@), field@) ==> text@
            == entries(a@)[position(entries(a@), field@)].display,
{
    let x = find_by_field(a, field);
    let y = find_by_field(b, field);
    match (x, y) {
        (Some(x), Some(y)) => merge_stats(x, y),
        (None, Some(y)) => y.display().clone(),
        (Some(x), None) => x.display().clone(),
        (None, None) => "N/A".to_owned(),
    }
}

} // verus!
