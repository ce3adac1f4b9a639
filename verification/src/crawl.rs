//! The paginator: page addresses, per-page folding into the deduplicator,
//! and the termination decision.
//!
//! Fetching and parsing a page are the caller's work; the crawler is handed
//! each page's raw fragments and decides everything else: it normalizes and
//! expands them, folds the records into the deduplicating collection, steps
//! the page index, and says whether the crawl goes on.  A page without
//! fragments stops the crawl and leaves the collection untouched.

use vstd::prelude::*;
use crate::dedup::{Deduplicator, insert_one};
use crate::numbers::{dec_rep, push_decimal};
use crate::pipeline::{
    PipelineError, fragment_records, fragment_ok, fragment_error, process_fragment,
};
use crate::record::{ProductRecord, RawFragment, FragView, RecordView};
use crate::text::{to_chars, from_chars};

verus! {

/// Left-to-right insertion of a batch of records.
pub open spec fn insert_all(s: Seq<RecordView>, rs: Seq<RecordView>) -> Seq<RecordView>
    decreases rs.len(),
{
    if rs.len() == 0 {
        s
    } else {
        insert_one(insert_all(s, rs.drop_last()), rs.last())
    }
}

/// The records owed for a whole page, fragment by fragment, in order.
pub open spec fn page_records(frags: Seq<FragView>, base: Seq<char>) -> Seq<RecordView>
    decreases frags.len(),
{
    if frags.len() == 0 {
        Seq::<RecordView>::empty()
    } else {
        page_records(frags.drop_last(), base) + fragment_records(frags.last(), base)
    }
}

/// Every fragment of the page normalizes without a fatal error.
pub open spec fn page_ok(frags: Seq<FragView>) -> bool {
    forall|i: int| 0 <= i < frags.len() ==> fragment_ok(#[trigger] frags[i])
}

/// Inserting a concatenation is inserting one batch after the other.
pub proof fn lemma_insert_all_concat(s: Seq<RecordView>, a: Seq<RecordView>, b: Seq<RecordView>)
    ensures
        insert_all(s, a + b) == insert_all(insert_all(s, a), b),
    decreases b.len(),
{
    if b.len() == 0 {
        assert(a + b =~= a);
    } else {
        lemma_insert_all_concat(s, a, b.drop_last());
        assert((a + b).drop_last() =~= a + b.drop_last());
        assert((a + b).last() == b.last());
    }
}

/// Drives the crawl over a paginated listing: accumulates each page's
/// records and stops at the first page without product fragments.
pub struct Crawler {
    acc: Deduplicator,
    next_page: u64,
}

impl Crawler {
    /// The deduplicated records accumulated so far.
    pub closed spec fn views(&self) -> Seq<RecordView> {
        self.acc.views()
    }

    /// The index of the page the crawler will ask for next.
    pub closed spec fn page(&self) -> u64 {
        self.next_page
    }

    pub closed spec fn wf(&self) -> bool {
        self.acc.wf()
    }

    /// A fresh crawl starts at page one with nothing collected.
    pub fn new() -> (c: Self)
        ensures
            c.wf(),
            c.views() == Seq::<RecordView>::empty(),
            c.page() == 1,
    {
        Crawler { acc: Deduplicator::new(), next_page: 1 }
    }

    /// The index of the page the crawler will ask for next.
    pub fn page_index(&self) -> (n: u64)
        ensures
            n == self.page(),
    {
        self.next_page
    }

    /// The address of the page to fetch next: the base address, a slash,
    /// and the page index in decimal.
    pub fn current_url(&self, base: &str) -> (r: String)
        ensures
            r@ == base@ + seq!['/'] + dec_rep(self.page() as int),
    {
        let mut out = to_chars(base);
        out.push('/');
        push_decimal(&mut out, self.next_page);
        proof {
            assert(out@ =~= base@ + seq!['/'] + dec_rep(self.next_page as int));
        }
        from_chars(&out)
    }

    /// Folds one fetched page into the crawl.  Returns whether the crawl
    /// goes on: a page without fragments stops it and changes nothing, any
    /// other page has all its fragments' records inserted in order and the
    /// page index stepped.  A fragment that does not normalize aborts the
    /// crawl with the first error found.
    pub fn on_page(&mut self, frags: &Vec<RawFragment>, base: &str) -> (r: Result<
        bool,
        PipelineError,
    >)
        requires
            old(self).wf(),
            old(self).page() < u64::MAX,
        ensures
            match r {
                Ok(cont) => {
                    &&& final(self).wf()
                    &&& page_ok(frags@.map_values(|f: RawFragment| f@))
                    &&& final(self).views() == insert_all(
                        old(self).views(),
                        page_records(frags@.map_values(|f: RawFragment| f@), base@),
                    )
                    &&& cont == (frags@.len() > 0)
                    &&& (frags@.len() == 0 ==> final(self).views() == old(self).views())
                    &&& final(self).page() == if cont {
                        old(self).page() + 1
                    } else {
                        old(self).page() as int
                    }
                },
                Err(e) => {
                    &&& final(self).wf()
                    &&& final(self).page() == old(self).page()
                    &&& exists|i: int|
                        {
                            &&& 0 <= i < frags@.len()
                            &&& !fragment_ok(#[trigger] frags@[i]@)
                            &&& e == fragment_error(frags@[i]@)
                            &&& forall|j: int| 0 <= j < i ==> fragment_ok(#[trigger] frags@[j]@)
                        }
                },
            },
    {
        let ghost fvs = frags@.map_values(|f: RawFragment| f@);
        if frags.len() == 0 {
            proof {
                assert(fvs.len() == 0);
            }
            return Ok(false);
        }
        let mut i: usize = 0;
        while i < frags.len()
            invariant
                old(self).wf(),
                self.wf(),
                fvs == frags@.map_values(|f: RawFragment| f@),
                i <= frags@.len(),
                self.views() == insert_all(
                    old(self).views(),
                    page_records(fvs.take(i as int), base@),
                ),
                self.page() == old(self).page(),
                forall|j: int| 0 <= j < i ==> fragment_ok(#[trigger] fvs[j]),
            decreases frags@.len() - i,
        {
            let recs = match process_fragment(&frags[i], base) {
                Ok(rs) => rs,
                Err(e) => {
                    proof {
                        assert(fvs[i as int] == frags@[i as int]@);
                        assert forall|j: int| 0 <= j < i
                            implies fragment_ok(#[trigger] frags@[j]@) by {
                            assert(fvs[j] == frags@[j]@);
                            assert(fragment_ok(fvs[j]));
                        }
                    }
                    return Err(e);
                },
            };
            let ghost mid = self.views();
            let ghost owed = fragment_records(fvs[i as int], base@);
            let mut k: usize = 0;
            while k < recs.len()
                invariant
                    self.wf(),
                    k <= recs@.len(),
                    recs@.map_values(|x: ProductRecord| x@) == owed,
                    owed.len() == recs@.len(),
                    self.views() == insert_all(mid, owed.take(k as int)),
                    self.page() == old(self).page(),
                decreases recs@.len() - k,
            {
                let ghost before = self.views();
                let rec_i = clone_record(&recs[k]);
                self.acc.insert(rec_i);
                proof {
                    assert(recs@[k as int]@ == owed[k as int]);
                    assert(owed.take(k + 1).drop_last() =~= owed.take(k as int));
                    assert(owed.take(k + 1).last() == owed[k as int]);
                    assert(self.views() == insert_one(before, owed[k as int]));
                }
                k = k + 1;
            }
            proof {
                assert(owed.take(owed.len() as int) =~= owed);
                assert(fvs.take(i + 1).drop_last() =~= fvs.take(i as int));
                assert(fvs.take(i + 1).last() == fvs[i as int]);
                lemma_insert_all_concat(
                    old(self).views(),
                    page_records(fvs.take(i as int), base@),
                    owed,
                );
                assert(page_records(fvs.take(i + 1), base@)
                    == page_records(fvs.take(i as int), base@) + owed);
            }
            i = i + 1;
        }
        proof {
            assert(fvs.take(fvs.len() as int) =~= fvs);
        }
        self.next_page = self.next_page + 1;
        Ok(true)
    }

    /// Ends the crawl and hands out the deduplicated records.
    pub fn finish(self) -> (out: Vec<ProductRecord>)
        requires
            self.wf(),
        ensures
            out@.map_values(|r: ProductRecord| r@) == self.views(),
            forall|i: int, j: int| 0 <= i < j < out@.len() ==> out@[i]@ != out@[j]@,
    {
        self.acc.finalize()
    }
}

/// A field-for-field copy of a record.
fn clone_record(r: &ProductRecord) -> (c: ProductRecord)
    ensures
        c@ == r@,
{
    let price = match &r.price {
        Some(p) => Some(p.clone()),
        None => None,
    };
    let c = ProductRecord {
        title: r.title.clone(),
        price,
        image_url: r.image_url.clone(),
        capacity_mb: r.capacity_mb,
        colour: r.colour.clone(),
        availability_text: r.availability_text.clone(),
        is_available: r.is_available,
        shipping_text: r.shipping_text.clone(),
        shipping_date: r.shipping_date.clone(),
    };
    proof {
        assert(c@ =~~= r@);
    }
    c
}

} // verus!
