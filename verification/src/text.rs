//! Text helpers: comparing strings, testing a suffix, and writing integers in
//! decimal. Every function is stated over the characters a string holds.

use vstd::prelude::*;
use vstd::string::*;
use vstd::utf8::*;

verus! {

/// The UTF-8 encoding of two texts written one after the other is the two
/// encodings written one after the other.
pub proof fn lemma_encode_concat(a: Seq<char>, b: Seq<char>)
    ensures
        encode_utf8(a + b) == encode_utf8(a) + encode_utf8(b),
    decreases a.len(),
{
    if a.len() == 0 {
        assert(a + b =~= b);
        assert(encode_utf8(a) + encode_utf8(b) =~= encode_utf8(b));
    } else {
        lemma_encode_concat(a.drop_first(), b);
        assert((a + b).drop_first() =~= a.drop_first() + b);
        assert((a + b)[0] == a[0]);
        assert(encode_utf8(a + b) =~= encode_utf8(a) + encode_utf8(b));
    }
}

/// Whether two strings hold the same characters.
pub fn same_text(a: &str, b: &str) -> (same: bool)
    ensures
        same == (a@ == b@),
{
    let x = a.as_bytes();
    let y = b.as_bytes();
    if x.len() != y.len() {
        return false;
    }
    let mut i: usize = 0;
    while i < x.len()
        invariant
            x@ == encode_utf8(a@),
            y@ == encode_utf8(b@),
            x@.len() == y@.len(),
            i <= x@.len(),
            forall|j: int| 0 <= j < i ==> x@[j] == y@[j],
        decreases x@.len() - i,
    {
        if x[i] != y[i] {
            return false;
        }
        i += 1;
    }
    proof {
        assert(x@ =~= y@);
        encode_utf8_decode_utf8(a@);
        encode_utf8_decode_utf8(b@);
    }
    true
}

/// Whether `text` ends with the characters of `suffix`.
pub fn ends_with(text: &str, suffix: &str) -> (found: bool)
    ensures
        found == suffix@.is_suffix_of(text@),
{
    let x = text.as_bytes();
    let y = suffix.as_bytes();
    let n = x.len();
    let k = y.len();
    if k == 0 {
        proof {
            lemma_suffix_bytes(text@, suffix@);
        }
        return true;
    }
    if n < k {
        proof {
            lemma_suffix_bytes(text@, suffix@);
        }
        return false;
    }
    let start = n - k;
    let mut i: usize = 0;
    while i < k
        invariant
            n == x@.len(),
            k == y@.len(),
            start + k == n,
            i <= k,
            x@ == encode_utf8(text@),
            y@ == encode_utf8(suffix@),
            forall|j: int| 0 <= j < i ==> x@[start + j] == y@[j],
        decreases k - i,
    {
        if x[start + i] != y[i] {
            proof {
                lemma_suffix_bytes(text@, suffix@);
                if suffix@.is_suffix_of(text@) {
                    assert(x@.subrange(n - k, n as int)[i as int] == y@[i as int]);
                }
            }
            return false;
        }
        i += 1;
    }
    proof {
        assert(x@.subrange(n - k, n as int) =~= y@);
        lemma_suffix_bytes(text@, suffix@);
    }
    true
}

/// A text ends with a suffix exactly when its encoding ends with the
/// suffix's encoding.
proof fn lemma_suffix_bytes(text: Seq<char>, suffix: Seq<char>)
    ensures
        suffix.is_suffix_of(text) <==> encode_utf8(suffix).is_suffix_of(encode_utf8(text)),
{
    let x = encode_utf8(text);
    let y = encode_utf8(suffix);
    encode_utf8_valid_utf8(text);
    encode_utf8_valid_utf8(suffix);
    encode_utf8_decode_utf8(text);
    encode_utf8_decode_utf8(suffix);
    if suffix.is_suffix_of(text) {
        let cut = text.len() - suffix.len();
        let head = text.subrange(0, cut);
        assert(text =~= head + suffix);
        lemma_encode_concat(head, suffix);
        let h = encode_utf8(head);
        assert((h + y).subrange((h + y).len() - y.len(), (h + y).len() as int) =~= y);
    }
    if y.is_suffix_of(x) {
        let cut = x.len() - y.len();
        if y.len() == 0 {
            assert(suffix.len() == 0) by {
                if suffix.len() > 0 {
                    assert(y =~= encode_scalar(suffix[0] as u32) + encode_utf8(
                        suffix.drop_first(),
                    ));
                }
            }
            assert(suffix =~= text.subrange(text.len() - suffix.len(), text.len() as int));
        } else {
            is_char_boundary_start_end_of_seq(y);
            is_char_boundary_iff_not_is_continuation_byte(y, 0);
            assert(x[cut] == x.subrange(cut, x.len() as int)[0]);
            is_char_boundary_iff_not_is_continuation_byte(x, cut);
            decode_utf8_split(x, cut);
            let front = decode_utf8(x.subrange(0, cut));
            assert(text =~= front + suffix);
            assert(suffix =~= text.subrange(text.len() - suffix.len(), text.len() as int));
        }
    }
}

/// The character that writes one decimal digit.
pub open spec fn digit_char(digit: int) -> char {
    if digit == 0 {
        '0'
    } else if digit == 1 {
        '1'
    } else if digit == 2 {
        '2'
    } else if digit == 3 {
        '3'
    } else if digit == 4 {
        '4'
    } else if digit == 5 {
        '5'
    } else if digit == 6 {
        '6'
    } else if digit == 7 {
        '7'
    } else if digit == 8 {
        '8'
    } else {
        '9'
    }
}

/// A natural number in decimal, without leading zeros.
pub open spec fn decimal_nat(n: nat) -> Seq<char>
    decreases n,
{
    if n < 10 {
        seq![digit_char(n as int)]
    } else {
        decimal_nat(n / 10).push(digit_char((n % 10) as int))
    }
}

/// An integer in decimal, with a minus sign before a negative one.
pub open spec fn decimal(n: int) -> Seq<char> {
    if n < 0 {
        seq!['-'] + decimal_nat((-n) as nat)
    } else {
        decimal_nat(n as nat)
    }
}

/// The one-character string of a decimal digit.
pub fn digit_text(digit: u64) -> (text: &'static str)
    requires
        digit < 10,
    ensures
        text@ == seq![digit_char(digit as int)],
{
    proof {
        reveal_strlit("0");
        reveal_strlit("1");
        reveal_strlit("2");
        reveal_strlit("3");
        reveal_strlit("4");
        reveal_strlit("5");
        reveal_strlit("6");
        reveal_strlit("7");
        reveal_strlit("8");
        reveal_strlit("9");
    }
    let text = if digit == 0 {
        "0"
    } else if digit == 1 {
        "1"
    } else if digit == 2 {
        "2"
    } else if digit == 3 {
        "3"
    } else if digit == 4 {
        "4"
    } else if digit == 5 {
        "5"
    } else if digit == 6 {
        "6"
    } else if digit == 7 {
        "7"
    } else if digit == 8 {
        "8"
    } else {
        "9"
    };
    proof {
        assert(text@ =~= seq![digit_char(digit as int)]);
    }
    text
}

/// Appends a natural number in decimal to `out`.
pub fn push_decimal_nat(out: &mut String, n: u64)
    ensures
        final(out)@ == old(out)@ + decimal_nat(n as nat),
    decreases n,
{
    if n >= 10 {
        push_decimal_nat(out, n / 10);
    }
    out.append(digit_text(n % 10));
    proof {
        assert(out@ =~= old(out)@ + decimal_nat(n as nat));
    }
}

/// Appends an integer in decimal to `out`.
pub fn push_decimal(out: &mut String, n: i64)
    ensures
        final(out)@ == old(out)@ + decimal(n as int),
{
    if n < 0 {
        out.append("-");
        let magnitude: u64 = if n == i64::MIN {
            0x8000_0000_0000_0000u64
        } else {
            (-n) as u64
        };
        push_decimal_nat(out, magnitude);
        proof {
            reveal_strlit("-");
            assert(out@ =~= old(out)@ + decimal(n as int));
        }
    } else {
        push_decimal_nat(out, n as u64);
    }
}

} // verus!
