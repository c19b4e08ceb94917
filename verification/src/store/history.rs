//! The decisions the history store makes over its records: de-duplication
//! keys, blob offloading, eviction plans and the order of recent items.

use vstd::prelude::*;
use crate::ids::{from_be, ClipId};
use crate::error::{CnxError, Result};
use crate::model::{BlobId, ClipItem, PayloadRef, PayloadStorage};
use crate::ordering::{ranked_desc, sort_by_rank, sort_ranked, Ranked};
use crate::text::{contains_at, chars_of, contains, contains_spec, decimal, decimal_chars, push_all, push_str, string_of};

verus! {

/// Inline payloads above this many bytes move to the blob store.
pub const BLOB_OFFLOAD_THRESHOLD: usize = 256 * 1024;

pub fn needs_offload(len: usize) -> (r: bool)
    ensures
        r == (len > BLOB_OFFLOAD_THRESHOLD),
{
    len > BLOB_OFFLOAD_THRESHOLD
}

/// How far eviction goes.
#[derive(Clone, Copy, Debug)]
pub enum EvictionPolicy {
    /// Until at most this many items remain.
    UntilCount(u64),
    /// Until the stored bytes are at most this many.
    UntilBytes(u64),
}

/// Whether the store is over the policy's target.
pub open spec fn over_target(policy: EvictionPolicy, count: u64, bytes: u64) -> bool {
    match policy {
        EvictionPolicy::UntilCount(t) => count > t,
        EvictionPolicy::UntilBytes(t) => bytes > t,
    }
}

pub fn eviction_needed(policy: EvictionPolicy, count: u64, bytes: u64) -> (r: bool)
    ensures
        r == over_target(policy, count, bytes),
{
    match policy {
        EvictionPolicy::UntilCount(t) => count > t,
        EvictionPolicy::UntilBytes(t) => bytes > t,
    }
}

/// One stored record as an eviction scan sees it, oldest first.
#[derive(Clone, Copy, Debug)]
pub struct ScannedItem {
    pub created_at: i64,
    pub id: [u8; 16],
    pub sealed_len: usize,
    pub digest: [u8; 32],
    pub pinned: bool,
}

/// Positions of the unpinned records, in scan order.
pub open spec fn unpinned_positions(s: Seq<ScannedItem>) -> Seq<int>
    decreases s.len(),
{
    if s.len() == 0 {
        Seq::empty()
    } else {
        unpinned_positions(s.drop_last()) + (if s.last().pinned { Seq::empty() } else { seq![s.len() - 1] })
    }
}

pub open spec fn sat_sub(a: int, b: int) -> int {
    if a > b { a - b } else { 0 }
}

/// How many of the candidates, oldest first, must go before the running
/// byte total `acc` is at most `target`.
pub open spec fn bytes_to_remove(s: Seq<ScannedItem>, cands: Seq<int>, acc: int, target: int) -> nat
    decreases cands.len(),
{
    if cands.len() == 0 || acc <= target {
        0
    } else {
        1 + bytes_to_remove(s, cands.drop_first(), sat_sub(acc, s[cands[0]].sealed_len as int), target)
    }
}

/// The positions an eviction removes: the oldest unpinned records, as many
/// as the count excess for a count policy, or as many as bring the byte
/// total to the target for a byte policy.
pub open spec fn eviction_plan_spec(policy: EvictionPolicy, count: u64, bytes: u64, s: Seq<ScannedItem>) -> Seq<int> {
    let c = unpinned_positions(s);
    match policy {
        EvictionPolicy::UntilCount(t) => {
            let excess = sat_sub(count as int, t as int);
            c.take(if excess < c.len() { excess } else { c.len() as int })
        },
        EvictionPolicy::UntilBytes(t) => c.take(bytes_to_remove(s, c, bytes as int, t as int) as int),
    }
}

proof fn lemma_unpinned_positions(s: Seq<ScannedItem>)
    ensures
        forall|k: int| 0 <= k < unpinned_positions(s).len() ==> 0 <= #[trigger] unpinned_positions(s)[k] < s.len()
            && !s[unpinned_positions(s)[k]].pinned,
        forall|k: int, l: int| 0 <= k < l < unpinned_positions(s).len() ==> unpinned_positions(s)[k] < unpinned_positions(s)[l],
        unpinned_positions(s).len() <= s.len(),
    decreases s.len(),
{
    if s.len() > 0 {
        lemma_unpinned_positions(s.drop_last());
        let p = unpinned_positions(s.drop_last());
        assert forall|k: int| 0 <= k < p.len() implies !s[p[k]].pinned by {
            assert(s[p[k]] == s.drop_last()[p[k]]);
        }
    }
}

proof fn lemma_bytes_to_remove_bound(s: Seq<ScannedItem>, cands: Seq<int>, acc: int, target: int)
    ensures
        bytes_to_remove(s, cands, acc, target) <= cands.len(),
    decreases cands.len(),
{
    if cands.len() > 0 && acc > target {
        lemma_bytes_to_remove_bound(s, cands.drop_first(), sat_sub(acc, s[cands[0]].sealed_len as int), target);
    }
}

/// Positions (into `scanned`, oldest first) of the records to evict.
pub fn plan_eviction(policy: EvictionPolicy, count: u64, bytes: u64, scanned: &Vec<ScannedItem>) -> (r: Vec<usize>)
    ensures
        r@.map_values(|i: usize| i as int) == eviction_plan_spec(policy, count, bytes, scanned@),
{
    let mut cands: Vec<usize> = Vec::new();
    let mut i: usize = 0;
    while i < scanned.len()
        invariant
            i <= scanned.len(),
            cands@.map_values(|x: usize| x as int) == unpinned_positions(scanned@.take(i as int)),
        decreases scanned.len() - i,
    {
        assert(scanned@.take(i + 1).drop_last() =~= scanned@.take(i as int));
        if !scanned[i].pinned {
            let ghost before = cands@;
            cands.push(i);
            assert(cands@.map_values(|x: usize| x as int) =~= before.map_values(|x: usize| x as int).push(i as int));
        }
        i += 1;
    }
    assert(scanned@.take(scanned.len() as int) =~= scanned@);
    let ghost c = unpinned_positions(scanned@);
    proof {
        lemma_unpinned_positions(scanned@);
    }
    let mut out: Vec<usize> = Vec::new();
    match policy {
        EvictionPolicy::UntilCount(t) => {
            let excess: u64 = if count > t { count - t } else { 0 };
            let mut k: usize = 0;
            while k < cands.len() && (k as u64) < excess
                invariant
                    k <= cands.len(),
                    k as int <= excess as int,
                    excess as int == sat_sub(count as int, t as int),
                    cands@.map_values(|x: usize| x as int) == c,
                    out@.map_values(|x: usize| x as int) == c.take(k as int),
                decreases cands.len() - k,
            {
                let ghost before = out@;
                assert(cands@.map_values(|x: usize| x as int)[k as int] == cands@[k as int] as int);
                out.push(cands[k]);
                assert(out@.map_values(|x: usize| x as int) =~= before.map_values(|x: usize| x as int).push(cands@[k as int] as int));
                assert(out@.map_values(|x: usize| x as int) =~= c.take(k + 1));
                k += 1;
            }
            assert(out@.map_values(|x: usize| x as int) =~= eviction_plan_spec(policy, count, bytes, scanned@));
        },
        EvictionPolicy::UntilBytes(t) => {
            let mut acc: u64 = bytes;
            let mut k: usize = 0;
            assert(c.skip(0) =~= c);
            while k < cands.len() && acc > t
                invariant
                    k <= cands.len(),
                    cands@.map_values(|x: usize| x as int) == c,
                    forall|j: int| 0 <= j < c.len() ==> 0 <= #[trigger] c[j] < scanned@.len(),
                    out@.map_values(|x: usize| x as int) == c.take(k as int),
                    bytes_to_remove(scanned@, c, bytes as int, t as int)
                        == k + bytes_to_remove(scanned@, c.skip(k as int), acc as int, t as int),
                decreases cands.len() - k,
            {
                let ghost rest = c.skip(k as int);
                assert(rest[0] == c[k as int]);
                assert(rest.drop_first() =~= c.skip(k + 1));
                assert(cands@.map_values(|x: usize| x as int)[k as int] == cands@[k as int] as int);
                let len = scanned[cands[k]].sealed_len as u64;
                acc = if acc > len { acc - len } else { 0 };
                let ghost before = out@;
                out.push(cands[k]);
                assert(out@.map_values(|x: usize| x as int) =~= before.map_values(|x: usize| x as int).push(cands@[k as int] as int));
                assert(out@.map_values(|x: usize| x as int) =~= c.take(k + 1));
                k += 1;
            }
            proof {
                lemma_bytes_to_remove_bound(scanned@, c.skip(k as int), acc as int, t as int);
                if k < cands.len() {
                    assert(bytes_to_remove(scanned@, c.skip(k as int), acc as int, t as int) == 0);
                } else {
                    assert(c.skip(k as int).len() == 0);
                }
            }
            assert(out@.map_values(|x: usize| x as int) =~= eviction_plan_spec(policy, count, bytes, scanned@));
        },
    }
    out
}

/// Eviction never removes a pinned record, removes records oldest first,
/// and, under a count policy, removes the count excess when there are
/// enough unpinned records (all of them otherwise).
pub proof fn lemma_eviction_plan(policy: EvictionPolicy, count: u64, bytes: u64, s: Seq<ScannedItem>)
    ensures
        forall|k: int| 0 <= k < eviction_plan_spec(policy, count, bytes, s).len()
            ==> 0 <= #[trigger] eviction_plan_spec(policy, count, bytes, s)[k] < s.len()
            && !s[eviction_plan_spec(policy, count, bytes, s)[k]].pinned,
        forall|k: int, l: int| 0 <= k < l < eviction_plan_spec(policy, count, bytes, s).len()
            ==> eviction_plan_spec(policy, count, bytes, s)[k] < eviction_plan_spec(policy, count, bytes, s)[l],
        policy matches EvictionPolicy::UntilCount(t) ==> eviction_plan_spec(policy, count, bytes, s).len()
            == (if sat_sub(count as int, t as int) < unpinned_positions(s).len() { sat_sub(count as int, t as int) } else { unpinned_positions(s).len() as int }),
        !over_target(policy, count, bytes) ==> eviction_plan_spec(policy, count, bytes, s).len() == 0,
{
    lemma_unpinned_positions(s);
    let c = unpinned_positions(s);
    lemma_bytes_to_remove_bound(s, c, bytes as int, match policy { EvictionPolicy::UntilBytes(t) => t as int, _ => 0 });
}

/// The byte total after removing the first `n` of the candidates, oldest
/// first, from a total of `acc`.
pub open spec fn bytes_left(s: Seq<ScannedItem>, cands: Seq<int>, acc: int, n: nat) -> int
    decreases n,
{
    if n == 0 || cands.len() == 0 {
        acc
    } else {
        bytes_left(s, cands.drop_first(), sat_sub(acc, s[cands[0]].sealed_len as int), (n - 1) as nat)
    }
}

proof fn lemma_bytes_to_remove_meets_target(s: Seq<ScannedItem>, cands: Seq<int>, acc: int, target: int)
    ensures
        bytes_to_remove(s, cands, acc, target) == cands.len()
            || bytes_left(s, cands, acc, bytes_to_remove(s, cands, acc, target)) <= target,
        forall|m: nat| m < bytes_to_remove(s, cands, acc, target) ==> #[trigger] bytes_left(s, cands, acc, m) > target,
    decreases cands.len(),
{
    if cands.len() > 0 && acc > target {
        let acc2 = sat_sub(acc, s[cands[0]].sealed_len as int);
        lemma_bytes_to_remove_meets_target(s, cands.drop_first(), acc2, target);
        assert forall|m: nat| m < bytes_to_remove(s, cands, acc, target) implies #[trigger] bytes_left(s, cands, acc, m) > target by {
            if m > 0 {
                assert(bytes_left(s, cands, acc, m) == bytes_left(s, cands.drop_first(), acc2, (m - 1) as nat));
            }
        }
    }
}

/// Under a byte policy, eviction removes the oldest unpinned records just
/// until the stored bytes are within the target: after the plan the total
/// is at most the target (or no unpinned record is left), and any shorter
/// prefix of it would leave the total above the target.
pub proof fn lemma_byte_eviction_meets_target(count: u64, bytes: u64, target: u64, s: Seq<ScannedItem>)
    ensures
        ({
            let c = unpinned_positions(s);
            let n = eviction_plan_spec(EvictionPolicy::UntilBytes(target), count, bytes, s).len();
            &&& n == c.len() || bytes_left(s, c, bytes as int, n) <= target
            &&& forall|m: nat| m < n ==> #[trigger] bytes_left(s, c, bytes as int, m) > target
        }),
{
    let c = unpinned_positions(s);
    lemma_bytes_to_remove_bound(s, c, bytes as int, target as int);
    lemma_bytes_to_remove_meets_target(s, c, bytes as int, target as int);
}

/// The record ids stored in the digest index are 16-byte ULIDs; anything
/// else is ignored.
pub fn clip_id_from_index(bytes: &[u8]) -> (r: Option<ClipId>)
    ensures
        r is Some <==> bytes@.len() == 16,
        r matches Some(id) ==> id.0 == from_be(bytes@),
{
    if bytes.len() != 16 {
        return None;
    }
    let mut a = [0u8; 16];
    let mut i: usize = 0;
    while i < 16
        invariant
            i <= 16,
            bytes@.len() == 16,
            a@.len() == 16,
            forall|j: int| 0 <= j < i ==> a@[j] == bytes@[j],
        decreases 16 - i,
    {
        a[i] = bytes[i];
        i += 1;
    }
    assert(a@ =~= bytes@);
    Some(ClipId::from_bytes(a))
}

/// Name for `str::to_lowercase` (Unicode lower-casing) of a text.
pub uninterp spec fn lowercased(s: Seq<char>) -> Seq<char>;

/// Wraps `str::to_lowercase`; the result is named [`lowercased`].
#[verifier::external_body]
pub(crate) fn to_lowercase(s: &str) -> (r: String)
    ensures
        r@ == lowercased(s@),
{
    s.to_lowercase()
}

/// Whether an item passes the optional search filter: its preview contains
/// the query, ignoring case; an item without a preview never matches a
/// query.
pub open spec fn query_matches_spec(preview: Option<Seq<char>>, query: Option<Seq<char>>) -> bool {
    match query {
        None => true,
        Some(q) => match preview {
            None => false,
            Some(p) => contains_spec(lowercased(p), lowercased(q)),
        },
    }
}

pub open spec fn preview_view(item: ClipItem) -> Option<Seq<char>> {
    match item.text_preview {
        Some(p) => Some(p@),
        None => None,
    }
}

pub fn query_matches(item: &ClipItem, query: Option<&str>) -> (r: bool)
    ensures
        r == query_matches_spec(preview_view(*item), match query { Some(q) => Some(q@), None => None }),
{
    match query {
        None => true,
        Some(q) => match &item.text_preview {
            None => false,
            Some(p) => {
                let lp = chars_of(to_lowercase(p.as_str()).as_str());
                let lq = chars_of(to_lowercase(q).as_str());
                contains(&lp, &lq)
            },
        },
    }
}

impl Ranked for ClipItem {
    /// Pinned items rank above the others.
    open spec fn rank(&self) -> int {
        if self.pinned { 1 } else { 0 }
    }

    fn rank_of(&self) -> (r: i64) {
        if self.pinned { 1 } else { 0 }
    }
}

/// Pinned items first; within each group the given (newest-first) order is
/// kept.
pub fn pinned_first(items: &mut Vec<ClipItem>)
    ensures
        final(items)@ == sort_ranked(old(items)@),
{
    sort_by_rank(items);
}


/// Gathers the answer of a recent-items listing. The store offers records
/// newest first while [`RecentCollector::wants_more`] holds, skipping the
/// ones it cannot open; records that match the query are kept.
pub struct RecentCollector {
    limit: usize,
    query: Option<String>,
    items: Vec<ClipItem>,
}

pub open spec fn opt_text_view(q: Option<String>) -> Option<Seq<char>> {
    match q {
        Some(s) => Some(s@),
        None => None,
    }
}

impl RecentCollector {
    pub closed spec fn kept(&self) -> Seq<ClipItem> {
        self.items@
    }

    pub closed spec fn limit_spec(&self) -> usize {
        self.limit
    }

    pub closed spec fn query_spec(&self) -> Option<Seq<char>> {
        opt_text_view(self.query)
    }

    /// A listing of at most `limit` records matching `query`.
    pub fn new(limit: usize, query: Option<&str>) -> (r: Self)
        ensures
            r.kept().len() == 0,
            r.limit_spec() == limit,
            r.query_spec() == match query { Some(q) => Some(q@), None => None::<Seq<char>> },
    {
        let query = match query {
            Some(q) => Some(q.to_owned()),
            None => None,
        };
        RecentCollector { limit, query, items: Vec::new() }
    }

    /// Whether more records are wanted: fewer than the limit are kept.
    pub fn wants_more(&self) -> (r: bool)
        ensures
            r == (self.kept().len() < self.limit_spec()),
    {
        self.items.len() < self.limit
    }

    /// Offer the next record, while more are wanted; it is kept when it
    /// matches the query.
    pub fn offer(&mut self, item: ClipItem)
        requires
            old(self).kept().len() < old(self).limit_spec(),
        ensures
            final(self).limit_spec() == old(self).limit_spec(),
            final(self).query_spec() == old(self).query_spec(),
            query_matches_spec(preview_view(item), old(self).query_spec()) ==> final(self).kept() == old(self).kept().push(item),
            !query_matches_spec(preview_view(item), old(self).query_spec()) ==> final(self).kept() == old(self).kept(),
    {
        let keep = match &self.query {
            Some(q) => query_matches(&item, Some(q.as_str())),
            None => query_matches(&item, None),
        };
        if keep {
            self.items.push(item);
        }
    }

    /// The kept records, pinned ones first, otherwise in the order offered.
    pub fn finish(self) -> (r: Vec<ClipItem>)
        requires
            self.kept().len() <= self.limit_spec(),
        ensures
            r@ == sort_ranked(self.kept()),
            r@.len() <= self.limit_spec(),
            ranked_desc(r@),
            r@.to_multiset() == self.kept().to_multiset(),
    {
        let mut items = self.items;
        pinned_first(&mut items);
        proof {
            crate::ordering::lemma_sort_ranked(self.items@);
        }
        items
    }
}

/// A record moved to the top of the history: both timestamps set to `now`.
pub open spec fn bumped(item: ClipItem, now: i64) -> ClipItem {
    ClipItem { created_at: now, updated_at: now, ..item }
}

/// A record whose pin was flipped at `now`.
pub open spec fn pin_toggled(item: ClipItem, now: i64) -> ClipItem {
    ClipItem { pinned: !item.pinned, updated_at: now, ..item }
}

/// Move a record to the top of the history: both timestamps set to `now`,
/// nothing else changed.
pub fn bump_record(item: &mut ClipItem, now: i64)
    ensures
        *final(item) == bumped(*old(item), now),
{
    item.created_at = now;
    item.updated_at = now;
}

/// Flip a record's pin, stamping the change at `now`; the new pin state.
pub fn toggle_pin_record(item: &mut ClipItem, now: i64) -> (r: bool)
    ensures
        *final(item) == pin_toggled(*old(item), now),
        r == final(item).pinned,
{
    item.pinned = !item.pinned;
    item.updated_at = now;
    item.pinned
}

/// Toggling a pin twice gives the record back as it was, but for the time of
/// the last change.
pub proof fn lemma_pin_toggle_twice(item: ClipItem, first: i64, second: i64)
    ensures
        pin_toggled(pin_toggled(item, first), second) == (ClipItem { updated_at: second, ..item }),
        pin_toggled(item, first).pinned != item.pinned,
{
}

/// A bumped record is newer than every record created before `now`, and
/// keeps its identity, content and pin.
pub proof fn lemma_bump_is_newest(item: ClipItem, other: ClipItem, now: i64)
    requires
        other.created_at < now,
    ensures
        bumped(item, now).created_at > other.created_at,
        bumped(item, now).id == item.id,
        bumped(item, now).digest == item.digest,
        bumped(item, now).pinned == item.pinned,
        bumped(item, now).payloads == item.payloads,
{
}

/// The schema version this store writes.
pub const CURRENT_SCHEMA_VERSION: u64 = 1;

/// What opening a store does about its schema version: nothing when it is
/// current, stamp the current version when it is older (no data changes
/// between them), refuse when a newer program wrote it.
pub fn migration_needed(stored: u64) -> (r: Result<bool>)
    ensures
        stored == CURRENT_SCHEMA_VERSION ==> r == Ok::<bool, CnxError>(false),
        stored < CURRENT_SCHEMA_VERSION ==> r == Ok::<bool, CnxError>(true),
        stored > CURRENT_SCHEMA_VERSION ==> (r matches Err(CnxError::Storage(m))
            && m@ == "database was created by a newer ClipNoteX (v"@ + decimal(stored as nat) + "); refusing to downgrade"@),
{
    if stored == CURRENT_SCHEMA_VERSION {
        return Ok(false);
    }
    if stored > CURRENT_SCHEMA_VERSION {
        let mut m: Vec<char> = Vec::new();
        push_str(&mut m, "database was created by a newer ClipNoteX (v");
        push_all(&mut m, &decimal_chars(stored));
        push_str(&mut m, "); refusing to downgrade");
        return Err(CnxError::Storage(string_of(&m)));
    }
    Ok(true)
}

/// Positions of the inline payloads too large to stay inline.
pub open spec fn offload_positions(ps: Seq<PayloadRef>) -> Seq<int>
    decreases ps.len(),
{
    if ps.len() == 0 {
        Seq::empty()
    } else {
        offload_positions(ps.drop_last()) + (match ps.last().storage {
            PayloadStorage::Inline(b) => if b@.len() > BLOB_OFFLOAD_THRESHOLD { seq![ps.len() - 1] } else { Seq::empty() },
            _ => Seq::empty(),
        })
    }
}

/// Which payloads of a record move to the blob store, in order.
pub fn payloads_to_offload(ps: &Vec<PayloadRef>) -> (r: Vec<usize>)
    ensures
        r@.map_values(|i: usize| i as int) == offload_positions(ps@),
{
    let mut out: Vec<usize> = Vec::new();
    let mut i: usize = 0;
    while i < ps.len()
        invariant
            i <= ps.len(),
            out@.map_values(|k: usize| k as int) == offload_positions(ps@.take(i as int)),
        decreases ps.len() - i,
    {
        let ghost before = out@;
        let big = match &ps[i].storage {
            PayloadStorage::Inline(b) => needs_offload(b.len()),
            _ => false,
        };
        if big {
            out.push(i);
        }
        proof {
            let t = ps@.take(i + 1);
            assert(t.drop_last() =~= ps@.take(i as int));
            assert(t.last() == ps@[i as int]);
            assert(out@.map_values(|k: usize| k as int) =~= offload_positions(t));
        }
        i += 1;
    }
    assert(ps@.take(ps.len() as int) =~= ps@);
    out
}

/// A payload now kept in the blob store under `id`.
pub fn move_to_blob(p: &mut PayloadRef, id: BlobId)
    ensures
        final(p).storage == PayloadStorage::Blob(id),
        final(p).format_id == old(p).format_id,
        final(p).compression == old(p).compression,
        final(p).raw_size == old(p).raw_size,
{
    p.storage = PayloadStorage::Blob(id);
}

/// A query found anywhere in the preview, ignoring case, matches; a
/// match means the query occurs somewhere in it; no query matches every
/// item; an item without a preview matches no query.
pub proof fn lemma_query_matches_anywhere(p: Seq<char>, q: Seq<char>, i: int, item_preview: Option<Seq<char>>)
    ensures
        contains_at(lowercased(p), lowercased(q), i) ==> query_matches_spec(Some(p), Some(q)),
        query_matches_spec(Some(p), Some(q)) ==> exists|k: int| contains_at(lowercased(p), lowercased(q), k),
        query_matches_spec(item_preview, None),
        !query_matches_spec(None, Some(q)),
{
}

} // verus!
