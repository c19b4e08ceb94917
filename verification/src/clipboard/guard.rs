//! Suppression of the change notifications caused by our own clipboard
//! writes: the digests written recently, bounded in number and in age.

use vstd::prelude::*;
use std::collections::VecDeque;

verus! {

/// How many digests are remembered at most.
pub const GUARD_CAPACITY: usize = 64;

/// The monotonic clock the guard reads, as an external type.
#[verifier::external_type_specification]
#[verifier::external_body]
pub struct ExInstant(std::time::Instant);

/// Wraps `std::time::Instant::now`. Nothing is promised of the value.
#[verifier::external_body]
fn instant_now() -> std::time::Instant {
    std::time::Instant::now()
}

/// Wraps `Instant::elapsed`, in whole milliseconds. The value depends on
/// the clock; nothing is promised of it.
#[verifier::external_body]
fn millis_since(origin: &std::time::Instant) -> u64 {
    origin.elapsed().as_millis() as u64
}

/// `a - b`, or 0 when `b > a`.
pub open spec fn age(now: u64, then: u64) -> int {
    if now >= then { now - then } else { 0 }
}

/// The remembered digests with the times they were written (milliseconds
/// on the guard's clock), oldest first.
pub struct SelfWriteGuard {
    entries: VecDeque<([u8; 32], u64)>,
    ttl_ms: u64,
    origin: std::time::Instant,
}

/// The entries after dropping, from the front, every entry older than
/// `ttl` at time `now`.
pub open spec fn prune_spec(s: Seq<([u8; 32], u64)>, now: u64, ttl: u64) -> Seq<([u8; 32], u64)>
    decreases s.len(),
{
    if s.len() > 0 && age(now, s[0].1) > ttl {
        prune_spec(s.drop_first(), now, ttl)
    } else {
        s
    }
}

/// The entries after remembering `d` written at `now`: appended, and the
/// oldest dropped when there are more than the capacity.
pub open spec fn register_spec(s: Seq<([u8; 32], u64)>, d: [u8; 32], now: u64) -> Seq<([u8; 32], u64)> {
    let e = s.push((d, now));
    if e.len() > GUARD_CAPACITY { e.drop_first() } else { e }
}

/// Whether `d` is among the entries.
pub open spec fn holds_digest(s: Seq<([u8; 32], u64)>, d: [u8; 32]) -> bool {
    exists|i: int| 0 <= i < s.len() && (#[trigger] s[i]).0@ == d@
}

impl SelfWriteGuard {
    pub closed spec fn entries_spec(&self) -> Seq<([u8; 32], u64)> {
        self.entries@
    }

    pub closed spec fn ttl(&self) -> u64 {
        self.ttl_ms
    }

    pub open spec fn well_formed(&self) -> bool {
        self.entries_spec().len() <= GUARD_CAPACITY
    }

    /// An empty guard that remembers digests for `ttl_ms` milliseconds.
    pub fn new(ttl_ms: u64) -> (r: Self)
        ensures
            r.well_formed(),
            r.entries_spec().len() == 0,
            r.ttl() == ttl_ms,
    {
        SelfWriteGuard { entries: VecDeque::new(), ttl_ms, origin: instant_now() }
    }

    /// Remember `digest` as written at time `now`.
    pub fn register_at(&mut self, digest: [u8; 32], now: u64)
        requires
            old(self).well_formed(),
        ensures
            final(self).well_formed(),
            final(self).entries_spec() == register_spec(old(self).entries_spec(), digest, now),
            final(self).ttl() == old(self).ttl(),
    {
        self.entries.push_back((digest, now));
        if self.entries.len() > GUARD_CAPACITY {
            self.entries.pop_front();
        }
    }

    /// Forget the digests older than the time-to-live at `now`, oldest
    /// first, then tell whether `digest` is still remembered.
    pub fn contains_at(&mut self, digest: &[u8; 32], now: u64) -> (r: bool)
        requires
            old(self).well_formed(),
        ensures
            final(self).well_formed(),
            final(self).entries_spec() == prune_spec(old(self).entries_spec(), now, old(self).ttl()),
            final(self).ttl() == old(self).ttl(),
            r == holds_digest(final(self).entries_spec(), *digest),
    {
        loop
            invariant
                self.entries@.len() <= GUARD_CAPACITY,
                self.ttl_ms == old(self).ttl_ms,
                prune_spec(self.entries@, now, self.ttl_ms) == prune_spec(old(self).entries@, now, old(self).ttl_ms),
            ensures
                self.entries@.len() <= GUARD_CAPACITY,
                self.ttl_ms == old(self).ttl_ms,
                self.entries@ == prune_spec(old(self).entries@, now, old(self).ttl_ms),
            decreases self.entries@.len(),
        {
            if self.entries.len() == 0 {
                break;
            }
            let ts = self.entries[0].1;
            let expired = if now >= ts { now - ts > self.ttl_ms } else { false };
            if !expired {
                break;
            }
            let ghost before = self.entries@;
            self.entries.pop_front();
            assert(self.entries@ =~= before.drop_first());
        }
        let mut i: usize = 0;
        while i < self.entries.len()
            invariant
                i <= self.entries@.len(),
                self.entries@.len() <= GUARD_CAPACITY,
                self.ttl_ms == old(self).ttl_ms,
                self.entries@ == prune_spec(old(self).entries@, now, old(self).ttl_ms),
                forall|j: int| 0 <= j < i ==> self.entries@[j].0@ != digest@,
            decreases self.entries@.len() - i,
        {
            if same_digest(&self.entries[i].0, digest) {
                assert(self.entries@[i as int].0@ == digest@);
                return true;
            }
            i += 1;
        }
        false
    }

    /// Remember `digest` as written now.
    pub fn register(&mut self, digest: [u8; 32])
        requires
            old(self).well_formed(),
        ensures
            final(self).well_formed(),
            final(self).ttl() == old(self).ttl(),
            exists|now: u64| final(self).entries_spec() == register_spec(old(self).entries_spec(), digest, now),
    {
        let now = millis_since(&self.origin);
        self.register_at(digest, now);
    }

    /// Whether `digest` was written within the time-to-live, forgetting the
    /// expired digests.
    pub fn contains(&mut self, digest: &[u8; 32]) -> (r: bool)
        requires
            old(self).well_formed(),
        ensures
            final(self).well_formed(),
            final(self).ttl() == old(self).ttl(),
            exists|now: u64| final(self).entries_spec() == prune_spec(old(self).entries_spec(), now, old(self).ttl()),
            r == holds_digest(final(self).entries_spec(), *digest),
    {
        let now = millis_since(&self.origin);
        self.contains_at(digest, now)
    }
}

fn same_digest(a: &[u8; 32], b: &[u8; 32]) -> (r: bool)
    ensures
        r == (a@ == b@),
{
    let mut i: usize = 0;
    while i < 32
        invariant
            i <= 32,
            a@.len() == 32,
            b@.len() == 32,
            forall|j: int| 0 <= j < i ==> a@[j] == b@[j],
        decreases 32 - i,
    {
        if a[i] != b[i] {
            return false;
        }
        i += 1;
    }
    assert(a@ =~= b@);
    true
}

proof fn lemma_prune_suffix(s: Seq<([u8; 32], u64)>, now: u64, ttl: u64)
    ensures
        exists|k: int| 0 <= k <= s.len() && prune_spec(s, now, ttl) == s.skip(k),
        s.len() > 0 && age(now, s.last().1) <= ttl ==> prune_spec(s, now, ttl).len() > 0
            && prune_spec(s, now, ttl).last() == s.last(),
    decreases s.len(),
{
    if s.len() > 0 && age(now, s[0].1) > ttl {
        lemma_prune_suffix(s.drop_first(), now, ttl);
        let k = choose|k: int| 0 <= k <= s.drop_first().len() && prune_spec(s.drop_first(), now, ttl) == s.drop_first().skip(k);
        assert(s.drop_first().skip(k) =~= s.skip(k + 1));
        if s.len() == 1 {
            assert(s.last() == s[0]);
        } else {
            assert(s.drop_first().last() == s.last());
        }
    } else {
        assert(s.skip(0) =~= s);
    }
}

/// A digest just written is recognised as our own write for the whole
/// time-to-live.
pub proof fn lemma_recall_within_ttl(s: Seq<([u8; 32], u64)>, d: [u8; 32], written: u64, now: u64, ttl: u64)
    requires
        s.len() <= GUARD_CAPACITY,
        age(now, written) <= ttl,
    ensures
        holds_digest(prune_spec(register_spec(s, d, written), now, ttl), d),
{
    let r = register_spec(s, d, written);
    assert(r.last() == (d, written));
    lemma_prune_suffix(r, now, ttl);
    let p = prune_spec(r, now, ttl);
    assert(p[p.len() - 1] == (d, written));
}

/// Once every remembered write is older than the time-to-live, nothing is
/// recognised and the guard is empty.
pub proof fn lemma_all_expire(s: Seq<([u8; 32], u64)>, d: [u8; 32], now: u64, ttl: u64)
    requires
        forall|i: int| 0 <= i < s.len() ==> age(now, (#[trigger] s[i]).1) > ttl,
    ensures
        prune_spec(s, now, ttl).len() == 0,
        !holds_digest(prune_spec(s, now, ttl), d),
    decreases s.len(),
{
    if s.len() > 0 {
        assert(age(now, s[0].1) > ttl);
        assert forall|i: int| 0 <= i < s.drop_first().len() implies age(now, (#[trigger] s.drop_first()[i]).1) > ttl by {
            assert(s.drop_first()[i] == s[i + 1]);
        }
        lemma_all_expire(s.drop_first(), d, now, ttl);
    }
}

/// The guard never remembers more than its capacity.
pub proof fn lemma_register_bounded(s: Seq<([u8; 32], u64)>, d: [u8; 32], now: u64)
    requires
        s.len() <= GUARD_CAPACITY,
    ensures
        register_spec(s, d, now).len() <= GUARD_CAPACITY,
        register_spec(s, d, now).last() == (d, now),
{
}

} // verus!
