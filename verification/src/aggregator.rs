//! The shared failure collection: an insertion-ordered sequence that workers
//! append typed failure records into, read once after every worker has
//! terminated.
//!
//! In the running program one instance sits behind a mutual-exclusion lock
//! shared by all workers, so the appends are serialized into some arrival
//! order. The contracts below pin down every such serialized history: an
//! append only ever adds one record at the end, so no interleaving loses,
//! duplicates or corrupts a record.

use crate::worker::Failure;
use vstd::prelude::*;

verus! {

/// Insertion-ordered collection of the failure records of all workers.
pub struct Aggregator {
    records: Vec<Failure>,
}

impl View for Aggregator {
    type V = Seq<Failure>;

    closed spec fn view(&self) -> Seq<Failure> {
        self.records@
    }
}

impl Aggregator {
    /// An empty aggregator, ready before fan-out begins.
    pub fn new() -> (a: Aggregator)
        ensures
            a@ == Seq::<Failure>::empty(),
    {
        Aggregator { records: Vec::new() }
    }

    /// Number of records collected so far.
    pub fn len(&self) -> (n: usize)
        ensures
            n == self@.len(),
    {
        self.records.len()
    }

    /// Insert one record at the end; every earlier record stays untouched.
    pub fn append(&mut self, f: Failure)
        ensures
            final(self)@ == old(self)@.push(f),
    {
        self.records.push(f);
    }

    /// A copy of the full current contents, in insertion order.
    pub fn drain_snapshot(&self) -> (r: Vec<Failure>)
        ensures
            r@ == self@,
    {
        let mut r: Vec<Failure> = Vec::new();
        let mut i: usize = 0;
        while i < self.records.len()
            invariant
                i <= self.records.len(),
                r@ =~= self@.take(i as int),
            decreases self.records.len() - i,
        {
            r.push(self.records[i].duplicate());
            i = i + 1;
        }
        assert(r@ =~= self@);
        r
    }
}

/// The aggregator contents after a sequence of appends, starting from `init`:
/// the history one serialization of concurrent appenders leaves behind.
pub open spec fn apply_appends(init: Seq<Failure>, appended: Seq<Failure>) -> Seq<Failure>
    decreases appended.len(),
{
    if appended.len() == 0 {
        init
    } else {
        apply_appends(init.push(appended[0]), appended.skip(1))
    }
}

/// Appends lose, duplicate and corrupt nothing: however concurrent appends
/// were serialized by the lock — `appended` lists them in that arrival
/// order — the final contents are exactly the prior contents followed by
/// those records, each one intact.
pub proof fn lemma_appends_preserve_all(init: Seq<Failure>, appended: Seq<Failure>)
    ensures
        apply_appends(init, appended) == init + appended,
    decreases appended.len(),
{
    if appended.len() == 0 {
        assert(apply_appends(init, appended) =~= init + appended);
    } else {
        lemma_appends_preserve_all(init.push(appended[0]), appended.skip(1));
        assert(init.push(appended[0]) + appended.skip(1) =~= init + appended);
    }
}

} // verus!
