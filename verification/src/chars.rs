//! Character classes used by the text grammars of the pipeline.

use vstd::prelude::*;

verus! {

/// An ASCII decimal digit.
pub open spec fn is_digit_char(c: char) -> bool {
    48 <= c as u32 && c as u32 <= 57
}

/// Numeric value of a decimal digit.
pub open spec fn digit_val(c: char) -> int {
    c as u32 - 48
}

/// A word character: ASCII letter, digit or underscore.
pub open spec fn is_word_char(c: char) -> bool {
    is_digit_char(c)
    || (65 <= c as u32 && c as u32 <= 90)
    || (97 <= c as u32 && c as u32 <= 122)
    || c as u32 == 95
}

/// An ASCII lower-case letter.
pub open spec fn is_lower_char(c: char) -> bool {
    97 <= c as u32 && c as u32 <= 122
}

/// Whitespace as the loose date form accepts it.
pub open spec fn is_space_char(c: char) -> bool {
    c as u32 == 32 || (9 <= c as u32 && c as u32 <= 13)
}

/// A character kept by price stripping: a digit or a dot.
pub open spec fn is_price_char(c: char) -> bool {
    is_digit_char(c) || c == '.'
}

/// Case-insensitive character code: lower-cases ASCII letters.
pub open spec fn lower_code(c: char) -> u32 {
    if 65 <= c as u32 && c as u32 <= 90 {
        (c as u32 + 32) as u32
    } else {
        c as u32
    }
}

pub fn digit_char(c: char) -> (b: bool)
    ensures
        b == is_digit_char(c),
{
    let u = c as u32;
    48 <= u && u <= 57
}

pub fn word_char(c: char) -> (b: bool)
    ensures
        b == is_word_char(c),
{
    let u = c as u32;
    (48 <= u && u <= 57) || (65 <= u && u <= 90) || (97 <= u && u <= 122) || u == 95
}

pub fn lower_char(c: char) -> (b: bool)
    ensures
        b == is_lower_char(c),
{
    let u = c as u32;
    97 <= u && u <= 122
}

pub fn space_char(c: char) -> (b: bool)
    ensures
        b == is_space_char(c),
{
    let u = c as u32;
    u == 32 || (9 <= u && u <= 13)
}

pub fn price_char(c: char) -> (b: bool)
    ensures
        b == is_price_char(c),
{
    let u = c as u32;
    (48 <= u && u <= 57) || c == '.'
}

pub fn digit_value(c: char) -> (v: u32)
    requires
        is_digit_char(c),
    ensures
        v == digit_val(c),
        v <= 9,
{
    c as u32 - 48
}

pub fn lower_code_of(c: char) -> (v: u32)
    ensures
        v == lower_code(c),
{
    let u = c as u32;
    if 65 <= u && u <= 90 {
        u + 32
    } else {
        u
    }
}

} // verus!
