//! The date resolver: finds the first date-like expression in free text and
//! normalizes it to `YYYY-MM-DD`.
//!
//! Four patterns are tried, in priority order, at each scan position:
//! 1. a one-or-two-digit day, a word, and a four-digit year;
//! 2. the dashed form `YYYY-MM-DD`;
//! 3. a loose form: a day number with an optional ordinal suffix and an
//!    optional `of`, a three-letter lower-case month word, a four-digit year;
//! 4. the literal word `tomorrow`.
//!
//! Only the first match in the text counts.  A first match under pattern 1
//! or 2 is parsed and, when it names a real calendar date, reformatted; a
//! first match under pattern 3 or 4 yields no date but still suppresses any
//! later match.

use vstd::prelude::*;
use vstd::string::StrSliceExecFns;
use crate::chars::{
    is_digit_char, is_word_char, is_lower_char, is_space_char, digit_val, lower_code,
    digit_char, word_char, lower_char, space_char, digit_value, lower_code_of,
};
use crate::numbers::{digit_char_of, digit_char_exec};
use crate::text::{to_chars, from_chars};

verus! {

// ---------------------------------------------------------------------------
// Runs of characters
// ---------------------------------------------------------------------------

/// First index at or after `j` that does not hold a word character.
pub open spec fn word_end(s: Seq<char>, j: int) -> int
    decreases s.len() - j,
{
    if 0 <= j < s.len() && is_word_char(s[j]) {
        word_end(s, j + 1)
    } else {
        j
    }
}

/// First index at or after `j` that does not hold whitespace.
pub open spec fn space_end(s: Seq<char>, j: int) -> int
    decreases s.len() - j,
{
    if 0 <= j < s.len() && is_space_char(s[j]) {
        space_end(s, j + 1)
    } else {
        j
    }
}

/// First index at or after `j` that does not hold a digit.
pub open spec fn digit_end(s: Seq<char>, j: int) -> int
    decreases s.len() - j,
{
    if 0 <= j < s.len() && is_digit_char(s[j]) {
        digit_end(s, j + 1)
    } else {
        j
    }
}

/// Four decimal digits stand at `i`.
pub open spec fn four_digits_at(s: Seq<char>, i: int) -> bool {
    0 <= i && i + 4 <= s.len() && is_digit_char(s[i]) && is_digit_char(s[i + 1])
        && is_digit_char(s[i + 2]) && is_digit_char(s[i + 3])
}

/// Value of the four digits at `i`.
pub open spec fn four_digit_val(s: Seq<char>, i: int) -> int {
    1000 * digit_val(s[i]) + 100 * digit_val(s[i + 1]) + 10 * digit_val(s[i + 2])
        + digit_val(s[i + 3])
}

/// Value of the two digits at `i`.
pub open spec fn two_digit_val(s: Seq<char>, i: int) -> int {
    10 * digit_val(s[i]) + digit_val(s[i + 1])
}

// ---------------------------------------------------------------------------
// Month names and the calendar
// ---------------------------------------------------------------------------

/// `a` and `b` are the same word up to ASCII case.
pub open spec fn matches_ci(a: Seq<char>, b: Seq<char>) -> bool {
    a.len() == b.len() && forall|k: int| 0 <= k < a.len() ==> lower_code(a[k]) == lower_code(b[k])
}

/// Month number of a word naming a month in full or by its three-letter
/// abbreviation, case-insensitively; zero for any other word.
pub open spec fn month_num(w: Seq<char>) -> int {
    if matches_ci(w, "january"@) || matches_ci(w, "jan"@) { 1 }
    else if matches_ci(w, "february"@) || matches_ci(w, "feb"@) { 2 }
    else if matches_ci(w, "march"@) || matches_ci(w, "mar"@) { 3 }
    else if matches_ci(w, "april"@) || matches_ci(w, "apr"@) { 4 }
    else if matches_ci(w, "may"@) { 5 }
    else if matches_ci(w, "june"@) || matches_ci(w, "jun"@) { 6 }
    else if matches_ci(w, "july"@) || matches_ci(w, "jul"@) { 7 }
    else if matches_ci(w, "august"@) || matches_ci(w, "aug"@) { 8 }
    else if matches_ci(w, "september"@) || matches_ci(w, "sep"@) { 9 }
    else if matches_ci(w, "october"@) || matches_ci(w, "oct"@) { 10 }
    else if matches_ci(w, "november"@) || matches_ci(w, "nov"@) { 11 }
    else if matches_ci(w, "december"@) || matches_ci(w, "dec"@) { 12 }
    else { 0 }
}

/// Gregorian leap year.
pub open spec fn is_leap(y: int) -> bool {
    y % 4 == 0 && (y % 100 != 0 || y % 400 == 0)
}

/// Days in a month of the Gregorian calendar.
pub open spec fn days_in_month(y: int, m: int) -> int {
    if m == 2 {
        if is_leap(y) { 29 } else { 28 }
    } else if m == 4 || m == 6 || m == 9 || m == 11 {
        30
    } else {
        31
    }
}

/// The canonical `YYYY-MM-DD` rendering of a calendar date.
pub open spec fn format_date(y: int, m: int, d: int) -> Seq<char> {
    seq![
        digit_char_of(y / 1000 % 10),
        digit_char_of(y / 100 % 10),
        digit_char_of(y / 10 % 10),
        digit_char_of(y % 10),
        '-',
        digit_char_of(m / 10),
        digit_char_of(m % 10),
        '-',
        digit_char_of(d / 10),
        digit_char_of(d % 10),
    ]
}

// ---------------------------------------------------------------------------
// The four patterns
// ---------------------------------------------------------------------------

/// Length of the day field of pattern 1 at `i`: two digits before a space,
/// one digit before a space, or zero when the pattern cannot start here.
pub open spec fn alt1_day_len(s: Seq<char>, i: int) -> int {
    if 0 <= i && i + 2 < s.len() && is_digit_char(s[i]) && is_digit_char(s[i + 1])
        && s[i + 2] == ' ' {
        2
    } else if 0 <= i && i + 1 < s.len() && is_digit_char(s[i]) && s[i + 1] == ' ' {
        1
    } else {
        0
    }
}

/// Pattern 1 (`day word year`) matches at `i`.
pub open spec fn alt1_at(s: Seq<char>, i: int) -> bool {
    let dl = alt1_day_len(s, i);
    let ms = i + dl + 1;
    let me = word_end(s, ms);
    dl > 0 && me > ms && me < s.len() && s[me] == ' ' && four_digits_at(s, me + 1)
}

/// Date produced by a pattern-1 match at `i`: defined when the word is a
/// month name and the day fits the month.
pub open spec fn alt1_result(s: Seq<char>, i: int) -> Option<Seq<char>> {
    let dl = alt1_day_len(s, i);
    let ms = i + dl + 1;
    let me = word_end(s, ms);
    let d = if dl == 2 { two_digit_val(s, i) } else { digit_val(s[i]) };
    let y = four_digit_val(s, me + 1);
    let m = month_num(s.subrange(ms, me));
    if 1 <= m && 1 <= d <= days_in_month(y, m) {
        Some(format_date(y, m, d))
    } else {
        None
    }
}

/// Pattern 2 (`YYYY-MM-DD`) matches at `i`.
pub open spec fn alt2_at(s: Seq<char>, i: int) -> bool {
    0 <= i && i + 10 <= s.len() && four_digits_at(s, i) && s[i + 4] == '-'
        && is_digit_char(s[i + 5]) && is_digit_char(s[i + 6]) && s[i + 7] == '-'
        && is_digit_char(s[i + 8]) && is_digit_char(s[i + 9])
}

/// Date produced by a pattern-2 match at `i`: the matched text itself,
/// defined when it names a real calendar date.
pub open spec fn alt2_result(s: Seq<char>, i: int) -> Option<Seq<char>> {
    let y = four_digit_val(s, i);
    let m = two_digit_val(s, i + 5);
    let d = two_digit_val(s, i + 8);
    if 1 <= m <= 12 && 1 <= d <= days_in_month(y, m) {
        Some(s.subrange(i, i + 10))
    } else {
        None
    }
}

/// Tail of pattern 3: a three-letter lower-case month word, whitespace, and
/// a four-digit year, starting at `q`.
pub open spec fn alt3_month_tail(s: Seq<char>, q: int) -> bool {
    0 <= q && q + 3 <= s.len() && is_lower_char(s[q]) && is_lower_char(s[q + 1])
        && is_lower_char(s[q + 2])
        && {
            let w = space_end(s, q + 3);
            w > q + 3 && four_digits_at(s, w)
        }
}

/// After the whitespace that follows the day of pattern 3: an optional
/// literal `of` with trailing whitespace, then the month tail.
pub open spec fn alt3_after_spaces(s: Seq<char>, p: int) -> bool {
    (p + 2 <= s.len() && s[p] == 'o' && s[p + 1] == 'f' && {
        let w = space_end(s, p + 2);
        w > p + 2 && alt3_month_tail(s, w)
    }) || alt3_month_tail(s, p)
}

/// Whitespace, then the rest of pattern 3, starting at `p`.
pub open spec fn alt3_ws_then(s: Seq<char>, p: int) -> bool {
    let w = space_end(s, p);
    w > p && alt3_after_spaces(s, w)
}

/// After the day digits of pattern 3: an optional two-letter ordinal
/// suffix, then whitespace and the rest.
pub open spec fn alt3_after_day(s: Seq<char>, e: int) -> bool {
    (e + 2 <= s.len() && is_lower_char(s[e]) && is_lower_char(s[e + 1])
        && alt3_ws_then(s, e + 2)) || alt3_ws_then(s, e)
}

/// Pattern 3 (the loose day-month-year form) matches at `i`.
pub open spec fn alt3_at(s: Seq<char>, i: int) -> bool {
    0 <= i && {
        let t = space_end(s, i);
        let e = digit_end(s, t);
        e > t && alt3_after_day(s, e)
    }
}

/// Pattern 4: the literal word `tomorrow` stands at `i`.
pub open spec fn alt4_at(s: Seq<char>, i: int) -> bool {
    0 <= i && i + 8 <= s.len() && s[i] == 't' && s[i + 1] == 'o' && s[i + 2] == 'm'
        && s[i + 3] == 'o' && s[i + 4] == 'r' && s[i + 5] == 'r' && s[i + 6] == 'o'
        && s[i + 7] == 'w'
}

/// Some pattern matches at `i`.
pub open spec fn match_at(s: Seq<char>, i: int) -> bool {
    alt1_at(s, i) || alt2_at(s, i) || alt3_at(s, i) || alt4_at(s, i)
}

/// Date produced by the highest-priority pattern matching at `i`.  A
/// pattern-3 or pattern-4 match produces none.
pub open spec fn match_result(s: Seq<char>, i: int) -> Option<Seq<char>> {
    if alt1_at(s, i) {
        alt1_result(s, i)
    } else if alt2_at(s, i) {
        alt2_result(s, i)
    } else {
        None
    }
}

/// Result of scanning from position `i` on: the first position with a
/// match decides the outcome.
pub open spec fn resolve_from(s: Seq<char>, i: int) -> Option<Seq<char>>
    decreases s.len() - i,
{
    if !(0 <= i < s.len()) {
        None
    } else if match_at(s, i) {
        match_result(s, i)
    } else {
        resolve_from(s, i + 1)
    }
}

/// The date the resolver owes for a text: the outcome of the scan from the
/// start.
pub open spec fn resolve_spec(s: Seq<char>) -> Option<Seq<char>> {
    resolve_from(s, 0)
}

// ---------------------------------------------------------------------------
// Executable scanner
// ---------------------------------------------------------------------------

fn word_end_exec(v: &Vec<char>, j: usize) -> (e: usize)
    requires
        j <= v@.len(),
    ensures
        e == word_end(v@, j as int),
        j <= e <= v@.len(),
    decreases v@.len() - j,
{
    let mut e = j;
    while e < v.len() && word_char(v[e])
        invariant
            j <= e <= v@.len(),
            word_end(v@, j as int) == word_end(v@, e as int),
        decreases v@.len() - e,
    {
        e = e + 1;
    }
    e
}

fn space_end_exec(v: &Vec<char>, j: usize) -> (e: usize)
    requires
        j <= v@.len(),
    ensures
        e == space_end(v@, j as int),
        j <= e <= v@.len(),
    decreases v@.len() - j,
{
    let mut e = j;
    while e < v.len() && space_char(v[e])
        invariant
            j <= e <= v@.len(),
            space_end(v@, j as int) == space_end(v@, e as int),
        decreases v@.len() - e,
    {
        e = e + 1;
    }
    e
}

fn digit_end_exec(v: &Vec<char>, j: usize) -> (e: usize)
    requires
        j <= v@.len(),
    ensures
        e == digit_end(v@, j as int),
        j <= e <= v@.len(),
    decreases v@.len() - j,
{
    let mut e = j;
    while e < v.len() && digit_char(v[e])
        invariant
            j <= e <= v@.len(),
            digit_end(v@, j as int) == digit_end(v@, e as int),
        decreases v@.len() - e,
    {
        e = e + 1;
    }
    e
}

fn four_digits_exec(v: &Vec<char>, i: usize) -> (b: bool)
    ensures
        b == four_digits_at(v@, i as int),
{
    let n: usize = v.len();
    i <= n && n - i >= 4 && digit_char(v[i]) && digit_char(v[i + 1]) && digit_char(v[i + 2])
        && digit_char(v[i + 3])
}

fn four_digit_value(v: &Vec<char>, i: usize) -> (y: u32)
    requires
        four_digits_at(v@, i as int),
    ensures
        y == four_digit_val(v@, i as int),
        y <= 9999,
{
    let _n: usize = v.len();
    1000 * digit_value(v[i]) + 100 * digit_value(v[i + 1]) + 10 * digit_value(v[i + 2])
        + digit_value(v[i + 3])
}

fn two_digit_value(v: &Vec<char>, i: usize) -> (d: u32)
    requires
        0 <= i as int,
        i + 2 <= v@.len(),
        is_digit_char(v@[i as int]),
        is_digit_char(v@[i as int + 1]),
    ensures
        d == two_digit_val(v@, i as int),
        d <= 99,
{
    let _n: usize = v.len();
    10 * digit_value(v[i]) + digit_value(v[i + 1])
}

/// Case-insensitive comparison of a word against a fixed name.
fn eq_ci(w: &Vec<char>, name: &str) -> (b: bool)
    ensures
        b == matches_ci(w@, name@),
{
    let n = name.unicode_len();
    if w.len() != n {
        return false;
    }
    let mut k: usize = 0;
    while k < n
        invariant
            n == name@.len(),
            w@.len() == n,
            k <= n,
            forall|t: int| 0 <= t < k ==> lower_code(w@[t]) == lower_code(name@[t]),
        decreases n - k,
    {
        if lower_code_of(w[k]) != lower_code_of(name.get_char(k)) {
            return false;
        }
        k = k + 1;
    }
    true
}

/// Month number of a word, zero when it names no month.
fn month_of(w: &Vec<char>) -> (m: u32)
    ensures
        m == month_num(w@),
        m <= 12,
{
    if eq_ci(w, "january") || eq_ci(w, "jan") { 1 }
    else if eq_ci(w, "february") || eq_ci(w, "feb") { 2 }
    else if eq_ci(w, "march") || eq_ci(w, "mar") { 3 }
    else if eq_ci(w, "april") || eq_ci(w, "apr") { 4 }
    else if eq_ci(w, "may") { 5 }
    else if eq_ci(w, "june") || eq_ci(w, "jun") { 6 }
    else if eq_ci(w, "july") || eq_ci(w, "jul") { 7 }
    else if eq_ci(w, "august") || eq_ci(w, "aug") { 8 }
    else if eq_ci(w, "september") || eq_ci(w, "sep") { 9 }
    else if eq_ci(w, "october") || eq_ci(w, "oct") { 10 }
    else if eq_ci(w, "november") || eq_ci(w, "nov") { 11 }
    else if eq_ci(w, "december") || eq_ci(w, "dec") { 12 }
    else { 0 }
}

fn days_in_month_exec(y: u32, m: u32) -> (n: u32)
    requires
        1 <= m <= 12,
    ensures
        n == days_in_month(y as int, m as int),
{
    if m == 2 {
        if y % 4 == 0 && (y % 100 != 0 || y % 400 == 0) { 29 } else { 28 }
    } else if m == 4 || m == 6 || m == 9 || m == 11 {
        30
    } else {
        31
    }
}

fn format_date_exec(y: u32, m: u32, d: u32) -> (r: Vec<char>)
    requires
        y <= 9999,
        1 <= m <= 12,
        1 <= d <= 31,
    ensures
        r@ == format_date(y as int, m as int, d as int),
{
    let mut r: Vec<char> = Vec::new();
    r.push(digit_char_exec(y / 1000 % 10));
    r.push(digit_char_exec(y / 100 % 10));
    r.push(digit_char_exec(y / 10 % 10));
    r.push(digit_char_exec(y % 10));
    r.push('-');
    r.push(digit_char_exec(m / 10));
    r.push(digit_char_exec(m % 10));
    r.push('-');
    r.push(digit_char_exec(d / 10));
    r.push(digit_char_exec(d % 10));
    proof {
        assert(r@ =~= format_date(y as int, m as int, d as int));
    }
    r
}

fn alt1_check(v: &Vec<char>, i: usize) -> (b: bool)
    ensures
        b == alt1_at(v@, i as int),
{
    let n: usize = v.len();
    let dl: usize = if i < n && n - i > 2 && digit_char(v[i]) && digit_char(v[i + 1])
        && v[i + 2] == ' ' {
        2
    } else if i < n && n - i > 1 && digit_char(v[i]) && v[i + 1] == ' ' {
        1
    } else {
        return false;
    };
    let ms = i + dl + 1;
    let me = word_end_exec(v, ms);
    me > ms && me < v.len() && v[me] == ' ' && four_digits_exec(v, me + 1)
}

/// Evaluates a pattern-1 match at `i`.
fn eval_alt1(v: &Vec<char>, i: usize) -> (r: Option<String>)
    requires
        alt1_at(v@, i as int),
    ensures
        match r {
            Some(s) => alt1_result(v@, i as int) == Some(s@),
            None => alt1_result(v@, i as int) == Option::<Seq<char>>::None,
        },
{
    let n: usize = v.len();
    let dl: usize = if n - i > 2 && digit_char(v[i]) && digit_char(v[i + 1])
        && v[i + 2] == ' ' {
        2
    } else {
        1
    };
    let d: u32 = if dl == 2 { two_digit_value(v, i) } else { digit_value(v[i]) };
    let ms = i + dl + 1;
    let me = word_end_exec(v, ms);
    let mut word: Vec<char> = Vec::new();
    let mut k = ms;
    proof {
        assert(v@.subrange(ms as int, ms as int) =~= Seq::<char>::empty());
    }
    while k < me
        invariant
            ms <= k <= me <= v@.len(),
            word@ == v@.subrange(ms as int, k as int),
        decreases me - k,
    {
        word.push(v[k]);
        proof {
            assert(v@.subrange(ms as int, k + 1)
                =~= v@.subrange(ms as int, k as int).push(v@[k as int]));
        }
        k = k + 1;
    }
    let m = month_of(&word);
    let y = four_digit_value(v, me + 1);
    if 1 <= m && 1 <= d && d <= days_in_month_exec(y, m) {
        Some(from_chars(&format_date_exec(y, m, d)))
    } else {
        None
    }
}

fn alt2_check(v: &Vec<char>, i: usize) -> (b: bool)
    ensures
        b == alt2_at(v@, i as int),
{
    let n: usize = v.len();
    i <= n && n - i >= 10 && four_digits_exec(v, i) && v[i + 4] == '-' && digit_char(v[i + 5])
        && digit_char(v[i + 6]) && v[i + 7] == '-' && digit_char(v[i + 8])
        && digit_char(v[i + 9])
}

/// Evaluates a pattern-2 match at `i`.
fn eval_alt2(v: &Vec<char>, i: usize) -> (r: Option<String>)
    requires
        alt2_at(v@, i as int),
    ensures
        match r {
            Some(s) => alt2_result(v@, i as int) == Some(s@),
            None => alt2_result(v@, i as int) == Option::<Seq<char>>::None,
        },
{
    let _n: usize = v.len();
    let y = four_digit_value(v, i);
    let m = two_digit_value(v, i + 5);
    let d = two_digit_value(v, i + 8);
    if 1 <= m && m <= 12 && 1 <= d && d <= days_in_month_exec(y, m) {
        let mut out: Vec<char> = Vec::new();
        let mut k = i;
        proof {
            assert(v@.subrange(i as int, i as int) =~= Seq::<char>::empty());
        }
        while k < i + 10
            invariant
                i <= k <= i + 10,
                i + 10 <= v@.len(),
                v@.len() <= usize::MAX,
                out@ == v@.subrange(i as int, k as int),
            decreases i + 10 - k,
        {
            out.push(v[k]);
            proof {
                assert(v@.subrange(i as int, k + 1)
                    =~= v@.subrange(i as int, k as int).push(v@[k as int]));
            }
            k = k + 1;
        }
        Some(from_chars(&out))
    } else {
        None
    }
}

fn alt3_month_tail_exec(v: &Vec<char>, q: usize) -> (b: bool)
    requires
        q <= v@.len(),
    ensures
        b == alt3_month_tail(v@, q as int),
{
    let n: usize = v.len();
    if n - q >= 3 && lower_char(v[q]) && lower_char(v[q + 1]) && lower_char(v[q + 2]) {
        let w = space_end_exec(v, q + 3);
        w > q + 3 && four_digits_exec(v, w)
    } else {
        false
    }
}

fn alt3_after_spaces_exec(v: &Vec<char>, p: usize) -> (b: bool)
    requires
        p <= v@.len(),
    ensures
        b == alt3_after_spaces(v@, p as int),
{
    let n: usize = v.len();
    if n - p >= 2 && v[p] == 'o' && v[p + 1] == 'f' {
        let w = space_end_exec(v, p + 2);
        if w > p + 2 && alt3_month_tail_exec(v, w) {
            return true;
        }
    }
    alt3_month_tail_exec(v, p)
}

fn alt3_ws_then_exec(v: &Vec<char>, p: usize) -> (b: bool)
    requires
        p <= v@.len(),
    ensures
        b == alt3_ws_then(v@, p as int),
{
    let w = space_end_exec(v, p);
    w > p && alt3_after_spaces_exec(v, w)
}

fn alt3_check(v: &Vec<char>, i: usize) -> (b: bool)
    requires
        i <= v@.len(),
    ensures
        b == alt3_at(v@, i as int),
{
    let t = space_end_exec(v, i);
    let e = digit_end_exec(v, t);
    if e == t {
        return false;
    }
    let n: usize = v.len();
    if n - e >= 2 && lower_char(v[e]) && lower_char(v[e + 1]) && alt3_ws_then_exec(v, e + 2) {
        return true;
    }
    alt3_ws_then_exec(v, e)
}

fn alt4_check(v: &Vec<char>, i: usize) -> (b: bool)
    ensures
        b == alt4_at(v@, i as int),
{
    let n: usize = v.len();
    i <= n && n - i >= 8 && v[i] == 't' && v[i + 1] == 'o' && v[i + 2] == 'm' && v[i + 3] == 'o'
        && v[i + 4] == 'r' && v[i + 5] == 'r' && v[i + 6] == 'o' && v[i + 7] == 'w'
}

/// Finds the first date-like expression in `text` and returns it as a
/// canonical `YYYY-MM-DD` string, when its first match names a real date.
pub fn resolve_date(text: &str) -> (r: Option<String>)
    ensures
        match r {
            Some(d) => resolve_spec(text@) == Some(d@),
            None => resolve_spec(text@) == Option::<Seq<char>>::None,
        },
{
    let v = to_chars(text);
    let n = v.len();
    let mut i: usize = 0;
    while i < n
        invariant
            v@ == text@,
            n == v@.len(),
            i <= n,
            resolve_from(text@, 0) == resolve_from(text@, i as int),
        decreases n - i,
    {
        if alt1_check(&v, i) {
            return eval_alt1(&v, i);
        }
        if alt2_check(&v, i) {
            return eval_alt2(&v, i);
        }
        if alt3_check(&v, i) || alt4_check(&v, i) {
            return None;
        }
        i = i + 1;
    }
    None
}

} // verus!
