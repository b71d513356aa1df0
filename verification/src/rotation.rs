//! Rotation across configured entropy sources.
//!
//! A live stream that is down or frozen returns byte-identical or
//! narrowly-repeating segments, so a repeat among the last few observed
//! samples is the signal that the current source is no longer useful. The
//! state below keeps the catalog index and a short ring of recent samples;
//! its methods take the index decision, while the fetch itself runs outside,
//! between the two method calls, so no lock is held across I/O.

use vstd::prelude::*;

verus! {

/// How many recent samples the degeneracy check looks at.
pub const SAMPLE_WINDOW: usize = 5;

/// No value appears twice in the sequence.
pub open spec fn spec_all_distinct(s: Seq<u32>) -> bool {
    forall|i: int, j: int| 0 <= i < j < s.len() ==> s[i] != s[j]
}

/// The window is full and holds a repeated value: the current source is
/// judged frozen.
pub open spec fn spec_degenerate(s: Seq<u32>) -> bool {
    s.len() >= SAMPLE_WINDOW && !spec_all_distinct(s)
}

/// The index the next fetch uses: advanced by one on a degenerate window,
/// then wrapped to zero when it runs off the end of the catalog.
pub open spec fn spec_next_index(index: nat, degenerate: bool, catalog_len: nat) -> nat {
    let advanced: int = if degenerate {
        index as int + 1
    } else {
        index as int
    };
    if advanced >= catalog_len {
        0
    } else {
        advanced as nat
    }
}

/// The ring of recent samples after pushing `v`: the oldest entry leaves
/// once the window is full.
pub open spec fn spec_ring_push(s: Seq<u32>, v: u32) -> Seq<u32> {
    if s.len() < SAMPLE_WINDOW {
        s.push(v)
    } else {
        s.subrange(1, s.len() as int).push(v)
    }
}

/// The shared rotation state: which catalog entry the next fetch uses, and
/// the recent samples the degeneracy check reads.
pub struct RotationState {
    pub source_index: usize,
    pub values: Vec<u32>,
}

impl RotationState {
    /// At most `SAMPLE_WINDOW` samples are ever retained.
    pub open spec fn wf(&self) -> bool {
        self.values@.len() <= SAMPLE_WINDOW
    }

    /// A fresh state: catalog start, no samples seen.
    pub fn new() -> (st: Self)
        ensures
            st.wf(),
            st.source_index == 0,
            st.values@ =~= Seq::<u32>::empty(),
    {
        Self { source_index: 0, values: Vec::new() }
    }

    /// Whether the retained samples hold a repeat. The window is small, so a
    /// pairwise scan is enough.
    fn has_duplicate(&self) -> (r: bool)
        ensures
            r == !spec_all_distinct(self.values@),
    {
        let n = self.values.len();
        let mut i: usize = 0;
        while i < n
            invariant
                i <= n,
                n == self.values@.len(),
                forall|p: int, q: int| 0 <= p < q < self.values@.len() && p < i
                    ==> self.values@[p] != self.values@[q],
            decreases n - i,
        {
            let mut j: usize = i + 1;
            while j < n
                invariant
                    i < j <= n,
                    i < n,
                    n == self.values@.len(),
                    forall|q: int| i < q < j ==> self.values@[i as int] != self.values@[q],
                decreases n - j,
            {
                if self.values[i] == self.values[j] {
                    return true;
                }
                j += 1;
            }
            i += 1;
        }
        false
    }

    /// Decide which catalog entry the coming fetch uses and move the index
    /// there: forward by one when the sample window has gone degenerate,
    /// wrapped to the catalog start when it runs off the end.
    pub fn select_source(&mut self, catalog_len: usize) -> (idx: usize)
        requires
            catalog_len >= 1,
            old(self).wf(),
        ensures
            final(self).wf(),
            idx == spec_next_index(
                old(self).source_index as nat,
                spec_degenerate(old(self).values@),
                catalog_len as nat,
            ),
            idx < catalog_len,
            final(self).source_index == idx,
            final(self).values == old(self).values,
    {
        let degenerate = self.values.len() >= SAMPLE_WINDOW && self.has_duplicate();
        let idx = if degenerate {
            if self.source_index >= catalog_len - 1 {
                0
            } else {
                self.source_index + 1
            }
        } else {
            if self.source_index >= catalog_len {
                0
            } else {
                self.source_index
            }
        };
        self.source_index = idx;
        idx
    }

    /// Record the sample derived from a completed fetch, evicting the oldest
    /// one once the window is full. Nothing is recorded for a failed fetch,
    /// so an abandoned call leaves the state as it was.
    pub fn record_sample(&mut self, v: u32)
        requires
            old(self).wf(),
        ensures
            final(self).wf(),
            final(self).values@ =~= spec_ring_push(old(self).values@, v),
            final(self).source_index == old(self).source_index,
    {
        if self.values.len() >= SAMPLE_WINDOW {
            self.values.remove(0);
        }
        self.values.push(v);
    }
}

/// A window filled by one repeated sample rotates the index forward by one,
/// modulo the catalog size: the source that produced it is skipped on the
/// next fetch.
pub proof fn lemma_repeated_samples_rotate(s: Seq<u32>, index: nat, catalog_len: nat)
    requires
        s.len() == SAMPLE_WINDOW,
        forall|k: int| 0 <= k < s.len() ==> #[trigger] s[k] == s[0],
        index < catalog_len,
    ensures
        spec_next_index(index, spec_degenerate(s), catalog_len) == ((index + 1) as int) % (
        catalog_len as int),
{
    assert(s[0] == s[1]);
    assert(!spec_all_distinct(s));
    if index + 1 >= catalog_len {
        assert(index + 1 == catalog_len);
        assert(((index + 1) as int) % (catalog_len as int) == 0) by (nonlinear_arith)
            requires
                index + 1 == catalog_len,
                catalog_len >= 1,
        ;
    } else {
        assert(((index + 1) as int) % (catalog_len as int) == index + 1) by (nonlinear_arith)
            requires
                0 <= index + 1 < catalog_len,
        ;
    }
}

/// A window of five pairwise-distinct samples leaves the index unchanged.
pub proof fn lemma_distinct_samples_hold(s: Seq<u32>, index: nat, catalog_len: nat)
    requires
        s.len() == SAMPLE_WINDOW,
        spec_all_distinct(s),
        index < catalog_len,
    ensures
        spec_next_index(index, spec_degenerate(s), catalog_len) == index,
{
}

} // verus!
