//! The sliding-window rate limiter behind anonymous requests.
//!
//! The table maps a client address to the instant its window expires,
//! measured in unix seconds. Entries are written on every allowed anonymous
//! request and overwritten once stale; nothing evicts them, so the table
//! grows with the number of distinct addresses seen.

use vstd::prelude::*;

verus! {

/// How long one anonymous window lasts, in seconds.
pub const RATE_WINDOW_SECONDS: i64 = 30;

/// What the rate limiter answers an anonymous request.
#[derive(Clone, Copy, Debug, PartialEq, Eq, Structural)]
pub enum RateDecision {
    /// The request passes; a fresh window now stands against its address.
    Allowed,
    /// The request is rejected; its address may try again once the given
    /// whole seconds have passed, unless it presents an API key.
    Limited { wait_seconds: i64 },
}

/// The expiry stored for `ip`: the value of its first matching entry.
pub open spec fn spec_lookup(entries: Seq<(String, i64)>, ip: Seq<char>) -> Option<i64>
    decreases entries.len(),
{
    if entries.len() == 0 {
        None
    } else if entries[0].0@ == ip {
        Some(entries[0].1)
    } else {
        spec_lookup(entries.drop_first(), ip)
    }
}

/// An entry whose key matches, with none before it, is the lookup result.
proof fn lemma_lookup_at(entries: Seq<(String, i64)>, ip: Seq<char>, j: int)
    requires
        0 <= j < entries.len(),
        entries[j].0@ == ip,
        forall|k: int| 0 <= k < j ==> #[trigger] entries[k].0@ != ip,
    ensures
        spec_lookup(entries, ip) == Some(entries[j].1),
    decreases entries.len(),
{
    if j > 0 {
        lemma_lookup_at(entries.drop_first(), ip, j - 1);
    }
}

/// When no entry's key matches, the lookup comes back empty.
proof fn lemma_lookup_none(entries: Seq<(String, i64)>, ip: Seq<char>)
    requires
        forall|k: int| 0 <= k < entries.len() ==> #[trigger] entries[k].0@ != ip,
    ensures
        spec_lookup(entries, ip) is None,
    decreases entries.len(),
{
    if entries.len() > 0 {
        lemma_lookup_none(entries.drop_first(), ip);
    }
}

/// Overwriting the first matching entry makes its value the lookup result.
proof fn lemma_lookup_update_same(entries: Seq<(String, i64)>, j: int, pair: (String, i64))
    requires
        0 <= j < entries.len(),
        entries[j].0@ == pair.0@,
        forall|k: int| 0 <= k < j ==> #[trigger] entries[k].0@ != pair.0@,
    ensures
        spec_lookup(entries.update(j, pair), pair.0@) == Some(pair.1),
    decreases entries.len(),
{
    let updated = entries.update(j, pair);
    if j == 0 {
        assert(updated[0] == pair);
    } else {
        assert(updated[0] == entries[0]);
        assert(updated.drop_first() =~= entries.drop_first().update(j - 1, pair));
        lemma_lookup_update_same(entries.drop_first(), j - 1, pair);
    }
}

/// Overwriting an entry in place, key kept, leaves every other key's lookup
/// as it was.
proof fn lemma_lookup_update_other(
    entries: Seq<(String, i64)>,
    j: int,
    pair: (String, i64),
    q: Seq<char>,
)
    requires
        0 <= j < entries.len(),
        entries[j].0@ == pair.0@,
        q != pair.0@,
    ensures
        spec_lookup(entries.update(j, pair), q) == spec_lookup(entries, q),
    decreases entries.len(),
{
    let updated = entries.update(j, pair);
    if j == 0 {
        assert(updated[0] == pair);
        assert(updated.drop_first() =~= entries.drop_first());
    } else {
        assert(updated[0] == entries[0]);
        if entries[0].0@ != q {
            assert(updated.drop_first() =~= entries.drop_first().update(j - 1, pair));
            lemma_lookup_update_other(entries.drop_first(), j - 1, pair, q);
        }
    }
}

/// Appending an entry answers lookups its key was missing from, and no
/// other.
proof fn lemma_lookup_push(entries: Seq<(String, i64)>, pair: (String, i64), q: Seq<char>)
    ensures
        spec_lookup(entries.push(pair), q) == (if spec_lookup(entries, q) is Some {
            spec_lookup(entries, q)
        } else if pair.0@ == q {
            Some(pair.1)
        } else {
            None
        }),
    decreases entries.len(),
{
    let pushed = entries.push(pair);
    if entries.len() == 0 {
        assert(pushed[0] == pair);
    } else {
        assert(pushed[0] == entries[0]);
        assert(pushed.drop_first() =~= entries.drop_first().push(pair));
        lemma_lookup_push(entries.drop_first(), pair, q);
    }
}

/// The rate-limit table: one expiry per client address.
pub struct RateTable {
    pub entries: Vec<(String, i64)>,
}

impl RateTable {
    /// Expiries are instants in unix seconds, never negative.
    pub open spec fn wf(&self) -> bool {
        forall|k: int| 0 <= k < self.entries@.len() ==> (#[trigger] self.entries@[k]).1 >= 0
    }

    /// The expiry currently standing against an address, if any.
    pub open spec fn spec_expiry(&self, ip: Seq<char>) -> Option<i64> {
        spec_lookup(self.entries@, ip)
    }

    /// An empty table: no address is limited.
    pub fn new() -> (t: Self)
        ensures
            t.wf(),
            forall|q: Seq<char>| t.spec_expiry(q) is None,
    {
        RateTable { entries: Vec::new() }
    }

    /// Gate one anonymous request from `ip` at instant `now`: reject it with
    /// the whole seconds left while a window still stands, otherwise let it
    /// through and stand a fresh window of `RATE_WINDOW_SECONDS` against the
    /// address. An authorized request never reaches this table.
    pub fn check_and_update(&mut self, ip: &String, now: i64) -> (r: RateDecision)
        requires
            old(self).wf(),
            0 <= now,
            now + RATE_WINDOW_SECONDS <= i64::MAX,
        ensures
            final(self).wf(),
            ({
                let prior = old(self).spec_expiry(ip@);
                if prior is Some && prior->Some_0 > now {
                    &&& r == (RateDecision::Limited { wait_seconds: (prior->Some_0 - now) as i64 })
                    &&& final(self).entries@ == old(self).entries@
                } else {
                    &&& r == RateDecision::Allowed
                    &&& final(self).spec_expiry(ip@) == Some((now + RATE_WINDOW_SECONDS) as i64)
                    &&& forall|q: Seq<char>|
                        q != ip@ ==> final(self).spec_expiry(q) == old(self).spec_expiry(q)
                }
            }),
    {
        let n = self.entries.len();
        let mut i: usize = 0;
        while i < n && !(self.entries[i].0 == *ip)
            invariant
                i <= n,
                n == self.entries@.len(),
                forall|k: int| 0 <= k < i ==> (#[trigger] self.entries@[k]).0@ != ip@,
            decreases n - i,
        {
            i += 1;
        }
        if i < n {
            proof {
                lemma_lookup_at(self.entries@, ip@, i as int);
            }
            let expiry = self.entries[i].1;
            if expiry > now {
                return RateDecision::Limited { wait_seconds: expiry - now };
            }
            let ghost before = self.entries@;
            let fresh = (ip.clone(), now + RATE_WINDOW_SECONDS);
            self.entries[i] = fresh;
            proof {
                assert(self.entries@ =~= before.update(i as int, fresh));
                lemma_lookup_update_same(before, i as int, fresh);
                assert forall|q: Seq<char>| q != ip@ implies spec_lookup(self.entries@, q)
                    == spec_lookup(before, q) by {
                    lemma_lookup_update_other(before, i as int, fresh, q);
                }
            }
            return RateDecision::Allowed;
        }
        proof {
            lemma_lookup_none(self.entries@, ip@);
        }
        let ghost before = self.entries@;
        let fresh = (ip.clone(), now + RATE_WINDOW_SECONDS);
        self.entries.push(fresh);
        proof {
            assert(self.entries@ =~= before.push(fresh));
            lemma_lookup_push(before, fresh, ip@);
            assert forall|q: Seq<char>| q != ip@ implies spec_lookup(self.entries@, q)
                == spec_lookup(before, q) by {
                lemma_lookup_push(before, fresh, q);
            }
        }
        RateDecision::Allowed
    }
}

/// The window an allowed anonymous request stands: until
/// `RATE_WINDOW_SECONDS` have passed, the expiry now held against the
/// address rejects a repeat, with a positive remaining wait of at most the
/// window length; from the expiry instant on it blocks nothing.
pub proof fn lemma_window_after_allowed(table: RateTable, ip: Seq<char>, now: i64, t: i64)
    requires
        table.spec_expiry(ip) == Some((now + RATE_WINDOW_SECONDS) as i64),
        0 <= now,
        now + RATE_WINDOW_SECONDS <= i64::MAX,
        now <= t,
    ensures
        t < now + RATE_WINDOW_SECONDS ==> table.spec_expiry(ip)->Some_0 > t && 0 < table.spec_expiry(
            ip,
        )->Some_0 - t <= RATE_WINDOW_SECONDS,
        t >= now + RATE_WINDOW_SECONDS ==> !(table.spec_expiry(ip)->Some_0 > t),
{
}


} // verus!
