//! Decimal text: rendering page indices, stripping raw price and capacity
//! text, and parsing capacity digits with the gigabyte-to-megabyte scaling.

use vstd::prelude::*;
use crate::chars::{is_digit_char, is_price_char, digit_val, digit_char, price_char, digit_value};
use crate::text::to_chars;

verus! {

/// The digit character for a value in `0 ..= 9`.
pub open spec fn digit_char_of(d: int) -> char {
    if d == 0 { '0' }
    else if d == 1 { '1' }
    else if d == 2 { '2' }
    else if d == 3 { '3' }
    else if d == 4 { '4' }
    else if d == 5 { '5' }
    else if d == 6 { '6' }
    else if d == 7 { '7' }
    else if d == 8 { '8' }
    else { '9' }
}

/// Decimal rendering of a non-negative number, most significant digit first.
pub open spec fn dec_rep(n: int) -> Seq<char>
    decreases n,
{
    if n < 10 {
        seq![digit_char_of(if n < 0 { 0 } else { n % 10 })]
    } else {
        dec_rep(n / 10).push(digit_char_of(n % 10))
    }
}

/// Numeric value of a digit string, most significant digit first.
pub open spec fn dec_value(s: Seq<char>) -> int
    decreases s.len(),
{
    if s.len() == 0 {
        0
    } else {
        dec_value(s.drop_last()) * 10 + digit_val(s.last())
    }
}

/// Every character of `s` is a decimal digit.
pub open spec fn all_digits(s: Seq<char>) -> bool {
    forall|i: int| 0 <= i < s.len() ==> is_digit_char(s[i])
}

/// The subsequence of decimal digits of `s`, in order.
pub open spec fn digits_of(s: Seq<char>) -> Seq<char>
    decreases s.len(),
{
    if s.len() == 0 {
        Seq::<char>::empty()
    } else if is_digit_char(s.last()) {
        digits_of(s.drop_last()).push(s.last())
    } else {
        digits_of(s.drop_last())
    }
}

/// The subsequence of digits and dots of `s`, in order: what price
/// stripping keeps.
pub open spec fn price_chars_of(s: Seq<char>) -> Seq<char>
    decreases s.len(),
{
    if s.len() == 0 {
        Seq::<char>::empty()
    } else if is_price_char(s.last()) {
        price_chars_of(s.drop_last()).push(s.last())
    } else {
        price_chars_of(s.drop_last())
    }
}

/// Every character kept by price stripping is a digit or a dot.
pub proof fn lemma_price_chars_class(s: Seq<char>)
    ensures
        forall|i: int| 0 <= i < price_chars_of(s).len()
            ==> #[trigger] is_price_char(price_chars_of(s)[i]),
    decreases s.len(),
{
    if s.len() > 0 {
        lemma_price_chars_class(s.drop_last());
        assert forall|i: int| 0 <= i < price_chars_of(s).len()
            implies #[trigger] is_price_char(price_chars_of(s)[i]) by {
            if is_price_char(s.last()) {
                assert(price_chars_of(s) == price_chars_of(s.drop_last()).push(s.last()));
                if i < price_chars_of(s.drop_last()).len() {
                    assert(is_price_char(price_chars_of(s.drop_last())[i]));
                }
            } else {
                assert(price_chars_of(s) == price_chars_of(s.drop_last()));
                assert(is_price_char(price_chars_of(s.drop_last())[i]));
            }
        }
    }
}

pub proof fn lemma_dec_value_nonneg(s: Seq<char>)
    requires
        all_digits(s),
    ensures
        dec_value(s) >= 0,
    decreases s.len(),
{
    if s.len() > 0 {
        assert(all_digits(s.drop_last()));
        lemma_dec_value_nonneg(s.drop_last());
    }
}

/// The value of a digit string bounds the value of each of its prefixes.
pub proof fn lemma_dec_value_prefix(s: Seq<char>, i: int)
    requires
        all_digits(s),
        0 <= i <= s.len(),
    ensures
        dec_value(s.take(i)) <= dec_value(s),
    decreases s.len() - i,
{
    if i == s.len() {
        assert(s.take(i) =~= s);
    } else {
        lemma_dec_value_prefix(s, i + 1);
        assert(s.take(i + 1).drop_last() =~= s.take(i));
        assert(all_digits(s.take(i)));
        lemma_dec_value_nonneg(s.take(i));
        assert(dec_value(s.take(i + 1))
            == dec_value(s.take(i)) * 10 + digit_val(s.take(i + 1).last()));
    }
}

/// The digit character for a small value.
pub fn digit_char_exec(d: u32) -> (c: char)
    requires
        d <= 9,
    ensures
        c == digit_char_of(d as int),
{
    if d == 0 { '0' }
    else if d == 1 { '1' }
    else if d == 2 { '2' }
    else if d == 3 { '3' }
    else if d == 4 { '4' }
    else if d == 5 { '5' }
    else if d == 6 { '6' }
    else if d == 7 { '7' }
    else if d == 8 { '8' }
    else { '9' }
}

/// Appends the decimal rendering of `n` to `out`.
pub fn push_decimal(out: &mut Vec<char>, n: u64)
    ensures
        final(out)@ == old(out)@ + dec_rep(n as int),
    decreases n,
{
    if n < 10 {
        out.push(digit_char_exec(n as u32));
        proof {
            assert(final(out)@ =~= old(out)@ + dec_rep(n as int));
        }
    } else {
        push_decimal(out, n / 10);
        out.push(digit_char_exec((n % 10) as u32));
        proof {
            assert(final(out)@ =~= old(out)@ + dec_rep(n as int));
        }
    }
}

/// The decimal digits of `text`, everything else dropped.
pub fn strip_digits(text: &str) -> (r: Vec<char>)
    ensures
        r@ == digits_of(text@),
        all_digits(r@),
{
    let v = to_chars(text);
    let mut out: Vec<char> = Vec::new();
    let mut i: usize = 0;
    proof {
        assert(text@.take(0) =~= Seq::<char>::empty());
    }
    while i < v.len()
        invariant
            v@ == text@,
            i <= v@.len(),
            out@ == digits_of(text@.take(i as int)),
            all_digits(out@),
        decreases v@.len() - i,
    {
        proof {
            assert(text@.take(i + 1).drop_last() =~= text@.take(i as int));
            assert(text@.take(i + 1).last() == text@[i as int]);
        }
        if digit_char(v[i]) {
            out.push(v[i]);
        }
        i = i + 1;
    }
    proof {
        assert(text@.take(v@.len() as int) =~= text@);
    }
    out
}

/// The digits and dots of `text`, everything else dropped.
pub fn strip_price(text: &str) -> (r: Vec<char>)
    ensures
        r@ == price_chars_of(text@),
{
    let v = to_chars(text);
    let mut out: Vec<char> = Vec::new();
    let mut i: usize = 0;
    proof {
        assert(text@.take(0) =~= Seq::<char>::empty());
    }
    while i < v.len()
        invariant
            v@ == text@,
            i <= v@.len(),
            out@ == price_chars_of(text@.take(i as int)),
        decreases v@.len() - i,
    {
        proof {
            assert(text@.take(i + 1).drop_last() =~= text@.take(i as int));
            assert(text@.take(i + 1).last() == text@[i as int]);
        }
        if price_char(v[i]) {
            out.push(v[i]);
        }
        i = i + 1;
    }
    proof {
        assert(text@.take(v@.len() as int) =~= text@);
    }
    out
}

/// Parses a non-empty digit string and returns its value scaled by 1000,
/// or nothing when the scaled value would not fit in 32 bits.
pub fn scaled_value(digits: &Vec<char>) -> (r: Option<u32>)
    requires
        all_digits(digits@),
        digits@.len() > 0,
    ensures
        match r {
            Some(m) => dec_value(digits@) * 1000 <= u32::MAX
                && m == dec_value(digits@) * 1000,
            None => dec_value(digits@) * 1000 > u32::MAX,
        },
{
    let mut acc: u32 = 0;
    let mut i: usize = 0;
    proof {
        assert(digits@.take(0) =~= Seq::<char>::empty());
    }
    while i < digits.len()
        invariant
            all_digits(digits@),
            i <= digits@.len(),
            acc == dec_value(digits@.take(i as int)),
            acc <= 4294967,
        decreases digits@.len() - i,
    {
        let d = digit_value(digits[i]);
        let wide: u64 = acc as u64 * 10 + d as u64;
        proof {
            assert(digits@.take(i + 1).drop_last() =~= digits@.take(i as int));
            assert(digits@.take(i + 1).last() == digits@[i as int]);
            assert(dec_value(digits@.take(i + 1)) == acc * 10 + digit_val(digits@[i as int]));
        }
        if wide > 4294967 {
            proof {
                lemma_dec_value_prefix(digits@, i + 1);
            }
            return None;
        }
        acc = wide as u32;
        i = i + 1;
    }
    proof {
        assert(digits@.take(digits@.len() as int) =~= digits@);
    }
    Some(acc * 1000)
}

} // verus!
