//! Field normalization and variant expansion: one raw fragment in, one
//! strict record per colour option out.

use vstd::prelude::*;
use crate::chars::is_digit_char;
use crate::numbers::{price_chars_of, digits_of, dec_value, strip_price};
use crate::record::{ProductRecord, RecordView, RawFragment, FragView, is_complete};
use crate::text::{contains_seq, replace_dots, str_contains, replace_dotdot};
use crate::dates::{resolve_spec, resolve_date};

verus! {

/// A fatal normalization failure: the fragment passed the completeness
/// check, yet a numeric field could not be parsed.
#[derive(Debug, Clone, Copy, PartialEq, Eq, Structural)]
pub enum PipelineError {
    /// The stripped price text was not a plain decimal number.
    BadPrice,
    /// The capacity digits were absent or their scaled value overflows.
    BadCapacity,
}

/// The phrase whose presence marks an item as in stock.
pub open spec fn in_stock_phrase() -> Seq<char> {
    "Availability: In Stock"@
}

/// The phrase whose presence marks an item as out of stock.
pub open spec fn out_of_stock_phrase() -> Seq<char> {
    "Availability: Out of Stock"@
}

/// Number of dots in a price text.
pub open spec fn dot_count(s: Seq<char>) -> int
    decreases s.len(),
{
    if s.len() == 0 {
        0
    } else {
        dot_count(s.drop_last()) + if s.last() == '.' { 1int } else { 0int }
    }
}

/// Some character of `s` is a digit.
pub open spec fn has_digit(s: Seq<char>) -> bool {
    exists|i: int| 0 <= i < s.len() && is_digit_char(s[i])
}

/// A stripped price parses as a plain decimal number: at least one digit
/// and at most one dot.
pub open spec fn valid_price(s: Seq<char>) -> bool {
    has_digit(s) && dot_count(s) <= 1
}

/// The normalized price of a raw price text: the text stripped to digits
/// and dots, absent when nothing is left.
pub open spec fn price_of(raw: Seq<char>) -> Option<Seq<char>> {
    if price_chars_of(raw).len() == 0 {
        None
    } else {
        Some(price_chars_of(raw))
    }
}

/// The raw price text is acceptable: nothing numeric at all, or a plain
/// decimal number.
pub open spec fn price_ok(raw: Seq<char>) -> bool {
    price_chars_of(raw).len() == 0 || valid_price(price_chars_of(raw))
}

/// The normalized capacity of a raw capacity text: its digits read as a
/// number and scaled from gigabytes to megabytes, absent when the text
/// holds no digits or the scaled value does not fit 32 bits.
pub open spec fn capacity_of(raw: Seq<char>) -> Option<int> {
    let ds = digits_of(raw);
    if ds.len() == 0 {
        None
    } else if dec_value(ds) * 1000 > u32::MAX {
        None
    } else {
        Some(dec_value(ds) * 1000)
    }
}

/// The absolute image address: the source attribute with every `".."`
/// rewritten to the site's base address; empty when the attribute was
/// absent.
pub open spec fn image_url_of(src: Option<Seq<char>>, base: Seq<char>) -> Seq<char> {
    match src {
        Some(s) => replace_dots(s, base),
        None => Seq::<char>::empty(),
    }
}

/// The canonical shipping date of a record: empty when either text carries
/// the out-of-stock phrase, otherwise whatever the date resolver finds in
/// the shipping text, or empty when it finds nothing.
pub open spec fn shipping_date_of(avail: Seq<char>, ship: Seq<char>) -> Seq<char> {
    if contains_seq(avail, out_of_stock_phrase()) || contains_seq(ship, out_of_stock_phrase()) {
        Seq::<char>::empty()
    } else {
        match resolve_spec(ship) {
            Some(d) => d,
            None => Seq::<char>::empty(),
        }
    }
}

/// The record owed for a complete fragment and one of its colours.
pub open spec fn record_of(f: FragView, base: Seq<char>, colour: Seq<char>) -> RecordView {
    RecordView {
        title: f.title.unwrap(),
        price: price_of(f.price.unwrap()),
        image_url: image_url_of(f.image.unwrap(), base),
        capacity_mb: capacity_of(f.capacity.unwrap()).unwrap() as u32,
        colour: colour,
        availability_text: f.availability.unwrap(),
        is_available: contains_seq(f.availability.unwrap(), in_stock_phrase()),
        shipping_text: f.shipping.unwrap(),
        shipping_date: shipping_date_of(f.availability.unwrap(), f.shipping.unwrap()),
    }
}

/// The records owed for one fragment: none when it is incomplete, else one
/// per colour, in colour order.
pub open spec fn fragment_records(f: FragView, base: Seq<char>) -> Seq<RecordView> {
    if is_complete(f) {
        f.colours.map_values(|c: Seq<char>| record_of(f, base, c))
    } else {
        Seq::<RecordView>::empty()
    }
}

/// The fragment normalizes without a fatal error.  Incomplete fragments
/// and fragments without colours are skipped, never fatal.
pub open spec fn fragment_ok(f: FragView) -> bool {
    ||| !is_complete(f)
    ||| f.colours.len() == 0
    ||| (price_ok(f.price.unwrap()) && capacity_of(f.capacity.unwrap()) is Some)
}

/// The error owed for a fragment that does not normalize: a bad price is
/// found before a bad capacity.
pub open spec fn fragment_error(f: FragView) -> PipelineError {
    if !price_ok(f.price.unwrap()) {
        PipelineError::BadPrice
    } else {
        PipelineError::BadCapacity
    }
}

/// Out of stock forces an empty date: when the availability text carries
/// the out-of-stock phrase, the shipping date of every record is empty,
/// whatever the shipping text holds — even a parseable date there is
/// ignored.
pub proof fn lemma_out_of_stock_empty_date(avail: Seq<char>, ship: Seq<char>)
    requires
        contains_seq(avail, out_of_stock_phrase()),
    ensures
        shipping_date_of(avail, ship) == Seq::<char>::empty(),
{
}

/// Variant fan-out: a complete fragment yields exactly one record per
/// colour option, in order, and any two of its records agree in every
/// field but the colour.
pub proof fn lemma_variant_fanout(f: FragView, base: Seq<char>)
    requires
        is_complete(f),
    ensures
        fragment_records(f, base).len() == f.colours.len(),
        forall|i: int| 0 <= i < f.colours.len()
            ==> #[trigger] fragment_records(f, base)[i] == record_of(f, base, f.colours[i]),
        forall|i: int, j: int|
            #![trigger fragment_records(f, base)[i], fragment_records(f, base)[j]]
            0 <= i < f.colours.len() && 0 <= j < f.colours.len()
            ==> fragment_records(f, base)[i] == (RecordView {
                colour: f.colours[i],
                ..fragment_records(f, base)[j]
            }),
{
    assert forall|i: int, j: int|
        #![trigger fragment_records(f, base)[i], fragment_records(f, base)[j]]
        0 <= i < f.colours.len() && 0 <= j < f.colours.len()
        implies fragment_records(f, base)[i] == (RecordView {
            colour: f.colours[i],
            ..fragment_records(f, base)[j]
        }) by {
        assert(fragment_records(f, base)[i] == record_of(f, base, f.colours[i]));
        assert(fragment_records(f, base)[j] == record_of(f, base, f.colours[j]));
        assert(record_of(f, base, f.colours[i]) =~= RecordView {
            colour: f.colours[i],
            ..record_of(f, base, f.colours[j])
        });
    }
}

/// Strips a raw price text and rejects what does not parse as a decimal
/// number.
pub fn normalize_price(text: &str) -> (r: Result<Option<String>, PipelineError>)
    ensures
        match r {
            Ok(p) => price_ok(text@) && opt_price_view(p) == price_of(text@),
            Err(e) => !price_ok(text@) && e == PipelineError::BadPrice,
        },
{
    let stripped = strip_price(text);
    if stripped.len() == 0 {
        return Ok(None);
    }
    let mut dots: usize = 0;
    let mut digit_seen = false;
    let mut i: usize = 0;
    let ghost sp = price_chars_of(text@);
    proof {
        crate::numbers::lemma_price_chars_class(text@);
    }
    while i < stripped.len()
        invariant
            sp == price_chars_of(text@),
            stripped@ == sp,
            i <= sp.len(),
            dots == dot_count(sp.take(i as int)),
            digit_seen == has_digit(sp.take(i as int)),
            dots <= i,
        decreases sp.len() - i,
    {
        proof {
            crate::numbers::lemma_price_chars_class(text@);
            assert(sp.take(i + 1).drop_last() =~= sp.take(i as int));
            assert(sp.take(i + 1).last() == sp[i as int]);
        }
        if stripped[i] == '.' {
            dots = dots + 1;
            proof {
                if has_digit(sp.take(i as int)) {
                    let w = choose|k: int| 0 <= k < i && #[trigger] is_digit_char(sp.take(i as int)[k]);
                    assert(is_digit_char(sp.take(i + 1)[w]));
                }
                if has_digit(sp.take(i + 1)) {
                    let w = choose|k: int| 0 <= k < i + 1 && #[trigger] is_digit_char(sp.take(i + 1)[k]);
                    assert(is_digit_char(sp.take(i as int)[w]));
                }
            }
        } else {
            proof {
                assert(crate::chars::is_price_char(sp[i as int]));
                assert(is_digit_char(sp[i as int]));
                assert(is_digit_char(sp.take(i + 1)[i as int]));
            }
            digit_seen = true;
        }
        i = i + 1;
    }
    proof {
        assert(sp.take(sp.len() as int) =~= sp);
    }
    if digit_seen && dots <= 1 {
        Ok(Some(crate::text::from_chars(&stripped)))
    } else {
        Err(PipelineError::BadPrice)
    }
}

/// View of an optional price string.
pub open spec fn opt_price_view(p: Option<String>) -> Option<Seq<char>> {
    match p {
        Some(s) => Some(s@),
        None => None,
    }
}

/// Parses the digits of a raw capacity text and scales them to megabytes.
pub fn normalize_capacity(text: &str) -> (r: Option<u32>)
    ensures
        match r {
            Some(m) => capacity_of(text@) == Some(m as int),
            None => capacity_of(text@) is None,
        },
{
    let ds = crate::numbers::strip_digits(text);
    if ds.len() == 0 {
        return None;
    }
    crate::numbers::scaled_value(&ds)
}

/// Rewrites the image source attribute to an absolute address.
pub fn normalize_image(src: &Option<String>, base: &str) -> (r: String)
    ensures
        r@ == image_url_of(crate::record::opt_view(*src), base@),
{
    match src {
        Some(s) => replace_dotdot(s.as_str(), base),
        None => String::new(),
    }
}

/// Computes the canonical shipping date for a record.
pub fn compute_shipping_date(avail: &str, ship: &str) -> (r: String)
    ensures
        r@ == shipping_date_of(avail@, ship@),
{
    if str_contains(avail, "Availability: Out of Stock")
        || str_contains(ship, "Availability: Out of Stock") {
        String::new()
    } else {
        match resolve_date(ship) {
            Some(d) => d,
            None => String::new(),
        }
    }
}

/// Normalizes one fragment and expands its colour variants: one record per
/// colour, all other fields shared.  An incomplete fragment, and a fragment
/// without colours, yields no records; a numeric field that does not parse
/// is a fatal error.
pub fn process_fragment(f: &RawFragment, base: &str) -> (r: Result<
    Vec<ProductRecord>,
    PipelineError,
>)
    ensures
        match r {
            Ok(recs) => fragment_ok(f@) && recs@.map_values(|x: ProductRecord| x@)
                == fragment_records(f@, base@),
            Err(e) => !fragment_ok(f@) && e == fragment_error(f@),
        },
{
    let (title, price_text, capacity_text, image, avail, ship) = match (
        &f.title,
        &f.price,
        &f.capacity,
        &f.image,
        &f.availability,
        &f.shipping,
    ) {
        (Some(t), Some(p), Some(c), Some(im), Some(a), Some(sh)) => (t, p, c, im, a, sh),
        _ => {
            let empty: Vec<ProductRecord> = Vec::new();
            proof {
                assert(fragment_records(f@, base@) =~= Seq::<RecordView>::empty());
                assert(empty@.map_values(|x: ProductRecord| x@)
                    =~= Seq::<RecordView>::empty());
            }
            return Ok(empty);
        },
    };
    if f.colours.len() == 0 {
        let empty: Vec<ProductRecord> = Vec::new();
        proof {
            assert(f@.colours.len() == 0);
            assert(fragment_records(f@, base@) =~= Seq::<RecordView>::empty());
            assert(empty@.map_values(|x: ProductRecord| x@)
                =~= Seq::<RecordView>::empty());
        }
        return Ok(empty);
    }
    let price = match normalize_price(price_text.as_str()) {
        Ok(p) => p,
        Err(e) => {
            return Err(e);
        },
    };
    let capacity = match normalize_capacity(capacity_text.as_str()) {
        Some(c) => c,
        None => {
            return Err(PipelineError::BadCapacity);
        },
    };
    let image_url = normalize_image(image, base);
    let is_avail = str_contains(avail.as_str(), "Availability: In Stock");
    let date = compute_shipping_date(avail.as_str(), ship.as_str());
    let mut out: Vec<ProductRecord> = Vec::new();
    let mut i: usize = 0;
    let ghost owed = fragment_records(f@, base@);
    proof {
        assert(owed.len() == f@.colours.len());
    }
    while i < f.colours.len()
        invariant
            owed == fragment_records(f@, base@),
            is_complete(f@),
            owed.len() == f@.colours.len(),
            f@.colours.len() == f.colours@.len(),
            i <= f.colours@.len(),
            out@.map_values(|x: ProductRecord| x@) == owed.take(i as int),
            title@ == f@.title.unwrap(),
            opt_price_view(price) == price_of(f@.price.unwrap()),
            capacity_of(f@.capacity.unwrap()) == Some(capacity as int),
            image_url@ == image_url_of(f@.image.unwrap(), base@),
            is_avail == contains_seq(f@.availability.unwrap(), in_stock_phrase()),
            avail@ == f@.availability.unwrap(),
            ship@ == f@.shipping.unwrap(),
            date@ == shipping_date_of(f@.availability.unwrap(), f@.shipping.unwrap()),
        decreases f.colours@.len() - i,
    {
        let price_copy = match &price {
            Some(p) => Some(p.clone()),
            None => None,
        };
        let rec = ProductRecord {
            title: title.clone(),
            price: price_copy,
            image_url: image_url.clone(),
            capacity_mb: capacity,
            colour: f.colours[i].clone(),
            availability_text: avail.clone(),
            is_available: is_avail,
            shipping_text: ship.clone(),
            shipping_date: date.clone(),
        };
        proof {
            assert(f@.colours[i as int] == f.colours@[i as int]@);
            assert(rec@ =~= record_of(f@, base@, f@.colours[i as int]));
            assert(owed[i as int] == record_of(f@, base@, f@.colours[i as int]));
            assert(out@.push(rec).map_values(|x: ProductRecord| x@)
                =~= out@.map_values(|x: ProductRecord| x@).push(rec@));
            assert(owed.take(i + 1) =~= owed.take(i as int).push(owed[i as int]));
        }
        out.push(rec);
        i = i + 1;
    }
    proof {
        assert(owed.take(owed.len() as int) =~= owed);
    }
    Ok(out)
}

} // verus!
