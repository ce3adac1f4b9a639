//! The data model: the raw field bag handed in for one product fragment,
//! and the strict output record.

use vstd::prelude::*;

verus! {

/// Mathematical value of a product record.
#[verifier::ext_equal]
pub ghost struct RecordView {
    pub title: Seq<char>,
    pub price: Option<Seq<char>>,
    pub image_url: Seq<char>,
    pub capacity_mb: u32,
    pub colour: Seq<char>,
    pub availability_text: Seq<char>,
    pub is_available: bool,
    pub shipping_text: Seq<char>,
    pub shipping_date: Seq<char>,
}

/// One output record: a single colour variant of a product, with every
/// field normalized.  `price` is absent when the source text held no
/// digits or dots; `shipping_date` is empty when no date could be
/// determined or the item is out of stock.
#[derive(Debug)]
pub struct ProductRecord {
    pub title: String,
    pub price: Option<String>,
    pub image_url: String,
    pub capacity_mb: u32,
    pub colour: String,
    pub availability_text: String,
    pub is_available: bool,
    pub shipping_text: String,
    pub shipping_date: String,
}

/// View of an optional string.
pub open spec fn opt_view(o: Option<String>) -> Option<Seq<char>> {
    match o {
        Some(s) => Some(s@),
        None => None,
    }
}

impl View for ProductRecord {
    type V = RecordView;

    open spec fn view(&self) -> RecordView {
        RecordView {
            title: self.title@,
            price: opt_view(self.price),
            image_url: self.image_url@,
            capacity_mb: self.capacity_mb,
            colour: self.colour@,
            availability_text: self.availability_text@,
            is_available: self.is_available,
            shipping_text: self.shipping_text@,
            shipping_date: self.shipping_date@,
        }
    }
}

impl PartialEq for ProductRecord {
    /// Full structural equality over all fields: the dedup key.
    fn eq(&self, other: &Self) -> (r: bool) {
        let price_eq = match (&self.price, &other.price) {
            (Some(a), Some(b)) => a.eq(b),
            (None, None) => true,
            _ => false,
        };
        let r = price_eq && self.title == other.title && self.image_url == other.image_url
            && self.capacity_mb == other.capacity_mb && self.colour == other.colour
            && self.availability_text == other.availability_text
            && self.is_available == other.is_available
            && self.shipping_text == other.shipping_text
            && self.shipping_date == other.shipping_date;
        proof {
            if r {
                assert(opt_view(self.price) == opt_view(other.price));
                assert(self@ =~~= other@);
            }
        }
        r
    }
}

impl Eq for ProductRecord {}

impl vstd::std_specs::cmp::PartialEqSpecImpl for ProductRecord {
    open spec fn obeys_eq_spec() -> bool {
        true
    }

    open spec fn eq_spec(&self, other: &Self) -> bool {
        self@ == other@
    }
}

/// Mathematical value of a raw fragment.
#[verifier::ext_equal]
pub ghost struct FragView {
    pub title: Option<Seq<char>>,
    pub price: Option<Seq<char>>,
    pub capacity: Option<Seq<char>>,
    pub image: Option<Option<Seq<char>>>,
    pub availability: Option<Seq<char>>,
    pub shipping: Option<Seq<char>>,
    pub colours: Seq<Seq<char>>,
}

/// The raw field bag located for one product fragment.  A `None` in one of
/// the six required fields means the sub-node was absent; `image` holds the
/// image node's optional source attribute.  `colours` lists the fragment's
/// colour-variant identifiers in document order.
#[derive(Debug)]
pub struct RawFragment {
    pub title: Option<String>,
    pub price: Option<String>,
    pub capacity: Option<String>,
    pub image: Option<Option<String>>,
    pub availability: Option<String>,
    pub shipping: Option<String>,
    pub colours: Vec<String>,
}

impl View for RawFragment {
    type V = FragView;

    open spec fn view(&self) -> FragView {
        FragView {
            title: opt_view(self.title),
            price: opt_view(self.price),
            capacity: opt_view(self.capacity),
            image: match self.image {
                Some(a) => Some(opt_view(a)),
                None => None,
            },
            availability: opt_view(self.availability),
            shipping: opt_view(self.shipping),
            colours: self.colours@.map_values(|c: String| c@),
        }
    }
}

/// Every required sub-node of the fragment was found.  Fragments that are
/// not complete yield no records at all.
pub open spec fn is_complete(f: FragView) -> bool {
    &&& f.title is Some
    &&& f.price is Some
    &&& f.capacity is Some
    &&& f.image is Some
    &&& f.availability is Some
    &&& f.shipping is Some
}

} // verus!
