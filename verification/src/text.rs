//! Text utilities: moving between `String` and character vectors, substring
//! search, and the relative-path rewrite applied to image addresses.

use vstd::prelude::*;
use vstd::string::StrSliceExecFns;

verus! {

/// Relies on `String::push`: appends one character at the end of the string.
#[verifier::external_body]
fn push_char(s: &mut String, c: char)
    ensures
        final(s)@ == old(s)@.push(c),
{
    s.push(c)
}

/// The characters of `s`, in order.
pub fn to_chars(s: &str) -> (r: Vec<char>)
    ensures
        r@ == s@,
{
    let n = s.unicode_len();
    let mut r: Vec<char> = Vec::new();
    let mut i: usize = 0;
    while i < n
        invariant
            n == s@.len(),
            i <= n,
            r@ == s@.take(i as int),
        decreases n - i,
    {
        r.push(s.get_char(i));
        proof {
            assert(s@.take(i + 1) =~= s@.take(i as int).push(s@[i as int]));
        }
        i = i + 1;
    }
    proof {
        assert(s@.take(n as int) =~= s@);
    }
    r
}

/// The string holding exactly the characters of `v`.
pub fn from_chars(v: &Vec<char>) -> (r: String)
    ensures
        r@ == v@,
{
    let mut r = String::new();
    let mut i: usize = 0;
    while i < v.len()
        invariant
            i <= v@.len(),
            r@ == v@.take(i as int),
        decreases v@.len() - i,
    {
        push_char(&mut r, v[i]);
        proof {
            assert(v@.take(i + 1) =~= v@.take(i as int).push(v@[i as int]));
        }
        i = i + 1;
    }
    proof {
        assert(v@.take(v@.len() as int) =~= v@);
    }
    r
}

/// The needle `n` occurs in `h` starting at position `i`.
pub open spec fn matches_at(h: Seq<char>, n: Seq<char>, i: int) -> bool {
    0 <= i && i + n.len() <= h.len() && h.subrange(i, i + n.len()) == n
}

/// The needle `n` occurs somewhere in `h`.
pub open spec fn contains_seq(h: Seq<char>, n: Seq<char>) -> bool {
    exists|i: int| matches_at(h, n, i)
}

/// Whether `needle` occurs as a contiguous substring of `hay`.
pub fn str_contains(hay: &str, needle: &str) -> (b: bool)
    ensures
        b == contains_seq(hay@, needle@),
{
    let h = to_chars(hay);
    let n = to_chars(needle);
    if n.len() > h.len() {
        proof {
            assert(forall|i: int| !matches_at(hay@, needle@, i));
        }
        return false;
    }
    if n.len() == 0 {
        proof {
            assert(hay@.subrange(0, 0) =~= needle@);
            assert(matches_at(hay@, needle@, 0));
        }
        return true;
    }
    let hl = h.len();
    let nl = n.len();
    let last_start = hl - nl;
    let mut i: usize = 0;
    while i <= last_start
        invariant
            h@ == hay@,
            n@ == needle@,
            hl == h@.len(),
            nl == n@.len(),
            1 <= nl <= hl,
            last_start == h@.len() - n@.len(),
            i <= last_start + 1,
            forall|j: int| 0 <= j < i ==> !matches_at(hay@, needle@, j),
        decreases last_start + 1 - i,
    {
        let mut k: usize = 0;
        let mut hit = true;
        while k < n.len()
            invariant
                h@ == hay@,
                n@ == needle@,
                hl == h@.len(),
                nl == n@.len(),
                i + n@.len() <= h@.len(),
                k <= n@.len(),
                hit ==> forall|t: int| 0 <= t < k ==> h@[i + t] == n@[t],
                !hit ==> !matches_at(hay@, needle@, i as int),
            decreases n@.len() - k,
        {
            if h[i + k] != n[k] {
                proof {
                    if matches_at(hay@, needle@, i as int) {
                        assert(hay@.subrange(i as int, i + needle@.len())[k as int]
                            == needle@[k as int]);
                    }
                }
                hit = false;
                k = n.len();
            } else {
                k = k + 1;
            }
        }
        if hit {
            proof {
                assert(hay@.subrange(i as int, i + needle@.len()) =~= needle@);
                assert(matches_at(hay@, needle@, i as int));
            }
            return true;
        }
        i = i + 1;
    }
    proof {
        assert forall|j: int| !matches_at(hay@, needle@, j) by {
            if 0 <= j <= last_start {
                assert(!matches_at(hay@, needle@, j));
            }
        }
    }
    false
}

/// Result of replacing every occurrence of `".."` in `s` by `b`, scanning
/// left to right over non-overlapping occurrences.
pub open spec fn replace_dots(s: Seq<char>, b: Seq<char>) -> Seq<char>
    decreases s.len(),
{
    if s.len() >= 2 && s[0] == '.' && s[1] == '.' {
        b + replace_dots(s.skip(2), b)
    } else if s.len() >= 1 {
        seq![s[0]] + replace_dots(s.skip(1), b)
    } else {
        Seq::<char>::empty()
    }
}

/// Rewrites every `".."` in `s` to `base`, as the image-address
/// normalization demands for relative paths such as `../image.jpg`.
pub fn replace_dotdot(s: &str, base: &str) -> (r: String)
    ensures
        r@ == replace_dots(s@, base@),
{
    let v = to_chars(s);
    let b = to_chars(base);
    let mut out: Vec<char> = Vec::new();
    let mut i: usize = 0;
    proof {
        assert(s@.skip(0) =~= s@);
        assert(Seq::<char>::empty() + replace_dots(s@, base@) =~= replace_dots(s@, base@));
    }
    while i < v.len()
        invariant
            v@ == s@,
            b@ == base@,
            i <= v@.len(),
            replace_dots(s@, base@) == out@ + replace_dots(s@.skip(i as int), base@),
        decreases v@.len() - i,
    {
        if i + 1 < v.len() && v[i] == '.' && v[i + 1] == '.' {
            let ghost pre = out@;
            let mut j: usize = 0;
            while j < b.len()
                invariant
                    b@ == base@,
                    j <= b@.len(),
                    out@ == pre + b@.take(j as int),
                decreases b@.len() - j,
            {
                out.push(b[j]);
                proof {
                    assert(b@.take(j + 1) =~= b@.take(j as int).push(b@[j as int]));
                }
                j = j + 1;
            }
            proof {
                assert(b@.take(b@.len() as int) =~= b@);
                assert(s@.skip(i as int).skip(2) =~= s@.skip(i + 2));
                assert(replace_dots(s@.skip(i as int), base@)
                    == base@ + replace_dots(s@.skip(i + 2), base@));
                assert(pre + (base@ + replace_dots(s@.skip(i + 2), base@))
                    =~= (pre + base@) + replace_dots(s@.skip(i + 2), base@));
            }
            i = i + 2;
        } else {
            out.push(v[i]);
            proof {
                assert(s@.skip(i as int).skip(1) =~= s@.skip(i + 1));
                assert(s@.skip(i as int)[0] == s@[i as int]);
                assert(replace_dots(s@.skip(i as int), base@)
                    == seq![s@[i as int]] + replace_dots(s@.skip(i + 1), base@));
                assert(out@.drop_last() + (seq![s@[i as int]]
                    + replace_dots(s@.skip(i + 1), base@))
                    =~= out@ + replace_dots(s@.skip(i + 1), base@));
            }
            i = i + 1;
        }
    }
    proof {
        assert(s@.skip(s@.len() as int) =~= Seq::<char>::empty());
        assert(out@ + Seq::<char>::empty() =~= out@);
    }
    from_chars(&out)
}

} // verus!
