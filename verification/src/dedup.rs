//! The deduplicating collection: records are keyed by full structural
//! equality of all fields, and inserting an equal record is a no-op.

use vstd::prelude::*;
use crate::record::{ProductRecord, RecordView};

verus! {

/// Effect of one insertion on the collected sequence: appended when new,
/// dropped when an equal record is already present.
pub open spec fn insert_one(s: Seq<RecordView>, v: RecordView) -> Seq<RecordView> {
    if s.contains(v) {
        s
    } else {
        s.push(v)
    }
}

/// Inserting the same record a second time changes nothing: the
/// deduplicated collection, and so its size, stays as it was.
pub proof fn lemma_insert_idempotent(s: Seq<RecordView>, v: RecordView)
    ensures
        insert_one(insert_one(s, v), v) == insert_one(s, v),
{
    if !s.contains(v) {
        assert(s.push(v)[s.len() as int] == v);
        assert(s.push(v).contains(v));
    }
}

/// Collects records across pages, discarding exact repeats.
pub struct Deduplicator {
    records: Vec<ProductRecord>,
}

impl Deduplicator {
    /// The records collected so far, in insertion order of their first
    /// occurrence.
    pub closed spec fn views(&self) -> Seq<RecordView> {
        self.records@.map_values(|r: ProductRecord| r@)
    }

    /// No two collected records are equal: the collection's invariant.
    pub closed spec fn wf(&self) -> bool {
        forall|i: int, j: int| 0 <= i < j < self.views().len()
            ==> self.views()[i] != self.views()[j]
    }

    pub fn new() -> (d: Self)
        ensures
            d.wf(),
            d.views() == Seq::<RecordView>::empty(),
    {
        let d = Deduplicator { records: Vec::new() };
        proof {
            assert(d.views() =~= Seq::<RecordView>::empty());
        }
        d
    }

    pub fn len(&self) -> (n: usize)
        ensures
            n == self.views().len(),
    {
        self.records.len()
    }

    /// Adds a record unless an equal one is already present.
    pub fn insert(&mut self, r: ProductRecord)
        requires
            old(self).wf(),
        ensures
            final(self).wf(),
            final(self).views() == insert_one(old(self).views(), r@),
    {
        let n = self.records.len();
        let mut i: usize = 0;
        while i < n
            invariant
                self.wf(),
                self.views() == old(self).views(),
                n == self.records@.len(),
                i <= n,
                forall|j: int| 0 <= j < i ==> self.views()[j] != r@,
            decreases n - i,
        {
            if self.records[i].eq(&r) {
                proof {
                    assert(self.views()[i as int] == r@);
                    assert(self.views().contains(r@));
                }
                return;
            }
            proof {
                assert(self.views()[i as int] == self.records@[i as int]@);
            }
            i = i + 1;
        }
        proof {
            assert forall|j: int| 0 <= j < self.views().len()
                implies self.views()[j] != r@ by {}
            if self.views().contains(r@) {
                let w = choose|k: int| 0 <= k < self.views().len() && self.views()[k] == r@;
                assert(self.views()[w] != r@);
            }
        }
        let ghost pre = self.views();
        self.records.push(r);
        proof {
            assert(self.views() =~= pre.push(r@));
        }
    }

    /// Hands the deduplicated collection out, consumed exactly once.
    pub fn finalize(self) -> (out: Vec<ProductRecord>)
        requires
            self.wf(),
        ensures
            out@.map_values(|r: ProductRecord| r@) == self.views(),
            forall|i: int, j: int| 0 <= i < j < out@.len() ==> out@[i]@ != out@[j]@,
    {
        proof {
            assert forall|i: int, j: int| 0 <= i < j < self.records@.len()
                implies self.records@[i]@ != self.records@[j]@ by {
                assert(self.views()[i] == self.records@[i]@);
                assert(self.views()[j] == self.records@[j]@);
            }
        }
        self.records
    }
}

} // verus!
