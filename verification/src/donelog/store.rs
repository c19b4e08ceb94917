//! What the DONE LOG store decides over its records: how an entry is keyed
//! in the date index, what its sealed records are bound to, where an id's
//! capture time is found, and in which order entries are listed.
//!
//! The date index is ordered by `(year * 1000 + day of year, captured_at,
//! id bytes)`, so a day's entries form one range, in capture order.

use vstd::prelude::*;
use crate::donelog::{DoneEntry, DoneView};
use crate::ids::{be_bytes, ClipId};
use crate::ordering::{sort_by_rank, sort_ranked, Ranked};

verus! {

/// A key of the date index.
pub type DateIndexKey = (i32, i64, [u8; 16]);

/// Byte `i` (0 = most significant) of the big-endian two's-complement form
/// of `v`.
pub open spec fn be_byte64(v: i64, i: int) -> u8 {
    (((v as u64) >> ((56 - 8 * i) as u64)) & 0xff) as u8
}

/// The 8 big-endian bytes of `v`, as `i64::to_be_bytes` gives them.
pub open spec fn be_bytes64(v: i64) -> Seq<u8> {
    Seq::new(8, |i: int| be_byte64(v, i))
}

/// The additional data every sealed record of an entry is bound to: the
/// big-endian bytes of its capture time.
pub fn entry_aad(captured_at: i64) -> (r: [u8; 8])
    ensures
        r@ == be_bytes64(captured_at),
{
    let v = captured_at as u64;
    let mut out = [0u8; 8];
    let mut i: usize = 0;
    while i < 8
        invariant
            i <= 8,
            v == captured_at as u64,
            out@.len() == 8,
            forall|j: int| 0 <= j < i ==> out@[j] == be_byte64(captured_at, j),
        decreases 8 - i,
    {
        let shift: u64 = (56 - 8 * i) as u64;
        out[i] = ((v >> shift) & 0xff) as u8;
        i += 1;
    }
    assert(out@ =~= be_bytes64(captured_at));
    out
}

/// The date-index key of an entry.
pub open spec fn index_key_spec(e: DoneEntry) -> (int, i64, Seq<u8>) {
    (e.date.index_key_spec(), e.captured_at, be_bytes(e.id.0))
}

/// The date-index key of an entry: its day, its capture time, its id.
pub fn index_key(entry: &DoneEntry) -> (r: DateIndexKey)
    requires
        entry.date.valid(),
    ensures
        (r.0 as int, r.1, r.2@) == index_key_spec(*entry),
{
    (entry.date.index_key(), entry.captured_at, entry.id.as_bytes())
}

/// The capture time of the first index key that holds `id`, if any.
pub open spec fn first_captured_at(keys: Seq<DateIndexKey>, id: ClipId) -> Option<i64>
    decreases keys.len(),
{
    if keys.len() == 0 {
        None
    } else if keys[0].2@ == be_bytes(id.0) {
        Some(keys[0].1)
    } else {
        first_captured_at(keys.drop_first(), id)
    }
}

fn same_id_bytes(a: &[u8; 16], b: &[u8; 16]) -> (r: bool)
    ensures
        r == (a@ == b@),
{
    let mut i: usize = 0;
    while i < 16
        invariant
            i <= 16,
            a@.len() == 16,
            b@.len() == 16,
            forall|j: int| 0 <= j < i ==> a@[j] == b@[j],
        decreases 16 - i,
    {
        if a[i] != b[i] {
            return false;
        }
        i += 1;
    }
    assert(a@ =~= b@);
    true
}

/// The first index key that holds `id`, if any.
pub open spec fn first_index_key(keys: Seq<DateIndexKey>, id: ClipId) -> Option<DateIndexKey>
    decreases keys.len(),
{
    if keys.len() == 0 {
        None
    } else if keys[0].2@ == be_bytes(id.0) {
        Some(keys[0])
    } else {
        first_index_key(keys.drop_first(), id)
    }
}

/// Scans the date index, in its order, for the key of `id`: its day, its
/// capture time and its id.
pub fn find_index_key(keys: &[DateIndexKey], id: &ClipId) -> (r: Option<DateIndexKey>)
    ensures
        r == first_index_key(keys@, *id),
{
    let want = id.as_bytes();
    let mut i: usize = 0;
    assert(keys@.skip(0) =~= keys@);
    while i < keys.len()
        invariant
            i <= keys.len(),
            want@ == be_bytes(id.0),
            first_index_key(keys@, *id) == first_index_key(keys@.skip(i as int), *id),
        decreases keys.len() - i,
    {
        let ghost rest = keys@.skip(i as int);
        assert(rest[0] == keys@[i as int]);
        if same_id_bytes(&keys[i].2, &want) {
            return Some(keys[i]);
        }
        assert(rest.drop_first() =~= keys@.skip(i + 1));
        i += 1;
    }
    None
}

/// Scans the date index, in its order, for the capture time of `id`: the
/// sealed records of an entry are bound to it.
pub fn find_captured_at(keys: &[DateIndexKey], id: &ClipId) -> (r: Option<i64>)
    ensures
        r == first_captured_at(keys@, *id),
{
    let want = id.as_bytes();
    let mut i: usize = 0;
    assert(keys@.skip(0) =~= keys@);
    while i < keys.len()
        invariant
            i <= keys.len(),
            want@ == be_bytes(id.0),
            first_captured_at(keys@, *id) == first_captured_at(keys@.skip(i as int), *id),
        decreases keys.len() - i,
    {
        let ghost rest = keys@.skip(i as int);
        assert(rest[0] == keys@[i as int]);
        if same_id_bytes(&keys[i].2, &want) {
            return Some(keys[i].1);
        }
        assert(rest.drop_first() =~= keys@.skip(i + 1));
        i += 1;
    }
    None
}

impl Ranked for DoneView {
    /// Later captures rank higher.
    open spec fn rank(&self) -> int {
        self.entry.captured_at as int
    }

    fn rank_of(&self) -> (r: i64) {
        self.entry.captured_at
    }
}

/// Newest capture first; entries captured at the same instant keep their
/// order.
pub fn newest_first(views: &mut Vec<DoneView>)
    ensures
        final(views)@ == sort_ranked(old(views)@),
{
    sort_by_rank(views);
}

/// At most `limit` entries, newest first.
pub fn most_recent(views: Vec<DoneView>, limit: usize) -> (r: Vec<DoneView>)
    ensures
        r@ == sort_ranked(views@).take(if limit < views@.len() { limit as int } else { views@.len() as int }),
{
    let mut v = views;
    newest_first(&mut v);
    proof {
        crate::ordering::lemma_sort_ranked(views@);
    }
    v.truncate(limit);
    assert(v@ =~= sort_ranked(views@).take(if limit < views@.len() { limit as int } else { views@.len() as int }));
    v
}

} // verus!
