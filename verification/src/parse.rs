//! Parsing the index path segment: the strings that a `u64` route parameter
//! accepts, and the value they carry.

use vstd::prelude::*;
use crate::dec::decimal;
use crate::dec::digit_char;
use crate::dec::digit_val;
use crate::dec::is_digit;
use crate::dec::lemma_decimal_digits;
use crate::dec::lemma_digit_char_val;

verus! {

/// The value of a sequence of decimal digit characters, most significant
/// first.
pub open spec fn digits_val(s: Seq<char>) -> nat
    decreases s.len(),
{
    if s.len() == 0 {
        0
    } else {
        digits_val(s.drop_last()) * 10 + digit_val(s.last())
    }
}

/// The digit part of a numeral: everything after an optional leading `'+'`.
pub open spec fn numeral_digits(s: Seq<char>) -> Seq<char> {
    if s.len() > 0 && s[0] == '+' {
        s.drop_first()
    } else {
        s
    }
}

/// A string that parses as a `u64` index: an optional leading `'+'`, then
/// one or more decimal digits, whose value fits in a `u64`.
pub open spec fn is_u64_numeral(s: Seq<char>) -> bool {
    let ds = numeral_digits(s);
    &&& ds.len() > 0
    &&& forall|i: int| 0 <= i < ds.len() ==> is_digit(#[trigger] ds[i])
    &&& digits_val(ds) <= u64::MAX
}

/// A digit sequence is worth at least as much as any of its prefixes.
proof fn lemma_digits_val_prefix(s: Seq<char>, k: int)
    requires
        0 <= k <= s.len(),
    ensures
        digits_val(s) >= digits_val(s.subrange(0, k)),
    decreases s.len(),
{
    if k == s.len() {
        assert(s.subrange(0, k) =~= s);
    } else {
        lemma_digits_val_prefix(s.drop_last(), k);
        assert(s.drop_last().subrange(0, k) =~= s.subrange(0, k));
    }
}

/// Parses the index path segment. Returns `Some` exactly on the strings that
/// a `u64` accepts — an optional `'+'`, then one or more decimal digits whose
/// value fits — and then carries the numeral's value.
pub fn parse_index(s: &str) -> (r: Option<u64>)
    ensures
        match r {
            Some(n) => is_u64_numeral(s@) && n == digits_val(numeral_digits(s@)),
            None => !is_u64_numeral(s@),
        },
{
    let len = s.unicode_len();
    let has_sign: bool = len > 0 && s.get_char(0) == '+';
    let start: usize = if has_sign {
        1
    } else {
        0
    };
    proof {
        assert(numeral_digits(s@) =~= s@.subrange(start as int, len as int));
    }
    if len == start {
        return None;
    }
    let mut acc: u64 = 0;
    let mut i: usize = start;
    while i < len
        invariant
            start <= i <= len,
            len == s@.len(),
            start <= 1,
            numeral_digits(s@) =~= s@.subrange(start as int, len as int),
            forall|j: int| start <= j < i ==> is_digit(#[trigger] s@[j]),
            acc == digits_val(s@.subrange(start as int, i as int)),
        decreases len - i,
    {
        let c = s.get_char(i);
        let v = c as u32;
        if v < 48 || v > 57 {
            proof {
                assert(!is_digit(numeral_digits(s@)[i - start]));
            }
            return None;
        }
        let d: u64 = (v - 48) as u64;
        let ghost prev = s@.subrange(start as int, i as int);
        let ghost cur = s@.subrange(start as int, i as int + 1);
        proof {
            assert(cur.drop_last() =~= prev);
            assert(cur.last() == s@[i as int]);
            assert(digits_val(cur) == acc * 10 + d);
        }
        // acc * 10 + d stays a u64 exactly when acc is below the largest
        // u64 divided by ten, or equal to it with a last digit of five.
        let limit: u64 = 1844674407370955161;
        if acc > limit || (acc == limit && d > 5) {
            proof {
                let ds = numeral_digits(s@);
                lemma_digits_val_prefix(ds, i - start + 1);
                assert(ds.subrange(0, i - start + 1) =~= cur);
            }
            return None;
        }
        acc = acc * 10 + d;
        i = i + 1;
    }
    proof {
        assert(s@.subrange(start as int, len as int) =~= numeral_digits(s@));
    }
    Some(acc)
}

/// Law: parsing reads back what decimal formatting wrote — the numeral of
/// any `u64` is accepted by the parser's precondition-free contract and is
/// worth the number itself.
pub proof fn lemma_decimal_round_trip(n: u64)
    ensures
        is_u64_numeral(decimal(n as nat)),
        digits_val(numeral_digits(decimal(n as nat))) == n,
{
    lemma_decimal_digits(n as nat);
    assert(decimal(n as nat)[0] != '+');
    assert(numeral_digits(decimal(n as nat)) =~= decimal(n as nat));
    lemma_digits_val_decimal(n as nat);
}

/// The value of a numeral is the number it was formatted from.
proof fn lemma_digits_val_decimal(n: nat)
    ensures
        digits_val(decimal(n)) == n,
    decreases n,
{
    assert(decimal(n).len() >= 1) by {
        lemma_decimal_digits(n);
    }
    assert(digits_val(decimal(n)) == digits_val(decimal(n).drop_last()) * 10 + digit_val(
        decimal(n).last(),
    ));
    if n < 10 {
        lemma_digit_char_val(n);
        assert(decimal(n) =~= seq![digit_char(n)]);
        assert(decimal(n).drop_last() =~= Seq::<char>::empty());
        assert(digits_val(Seq::<char>::empty()) == 0);
        assert(decimal(n).last() == digit_char(n));
    } else {
        lemma_digits_val_decimal(n / 10);
        lemma_digit_char_val(n % 10);
        assert(decimal(n).drop_last() =~= decimal(n / 10));
        assert(decimal(n).last() == digit_char(n % 10));
        assert(digits_val(decimal(n)) == (n / 10) * 10 + (n % 10));
    }
}

} // verus!
