//! What the capture loop decides for each clipboard change, and the quota
//! it enforces afterwards.

use vstd::prelude::*;
use crate::bus::SkipReason;
use crate::clipboard::CapturedItem;
use crate::donelog::dates::utc_now_millis;
use crate::ids::ClipId;
use crate::model::{ClipItem, ClipKind, Compression, PayloadData, PayloadRef, PayloadStorage, SourceApp};
use crate::settings::{EvictionPolicy as Priority, HistoryConfig};
use crate::store::history::EvictionPolicy;
use crate::text::{prefix_chars, same_text, take_chars, utf8_str};
use vstd::string::{StrSliceExecFns, StringSliceAdditionalSpecFns};
use vstd::utf8::{decode_utf8, valid_utf8};

verus! {

/// The format ids that carry plain text.
pub open spec fn text_formats() -> Seq<Seq<char>> {
    seq!["public.utf8-plain-text"@, "public.utf16-plain-text"@, "CF_UNICODETEXT"@, "CF_TEXT"@, "CF_OEMTEXT"@]
}

/// Whether a payload format carries plain text.
pub fn is_text(format_id: &str) -> (r: bool)
    ensures
        r == text_formats().contains(format_id@),
{
    let r = same_text(format_id, "public.utf8-plain-text") || same_text(format_id, "public.utf16-plain-text")
        || same_text(format_id, "CF_UNICODETEXT") || same_text(format_id, "CF_TEXT")
        || same_text(format_id, "CF_OEMTEXT");
    proof {
        let f = text_formats();
        if r {
            if format_id@ == f[0] {} else if format_id@ == f[1] {} else if format_id@ == f[2] {}
            else if format_id@ == f[3] {} else { assert(format_id@ == f[4]); }
        } else {
            assert forall|k: int| 0 <= k < f.len() implies f[k] != format_id@ by {}
        }
    }
    r
}

/// Index of the first payload in a text format, or the number of payloads.
pub open spec fn first_text_payload(ps: Seq<PayloadData>) -> int
    decreases ps.len(),
{
    if ps.len() == 0 || text_formats().contains(ps[0].format_id@) {
        0
    } else {
        1 + first_text_payload(ps.drop_first())
    }
}

/// How many characters of text an item's preview keeps.
pub const PREVIEW_CHARS: usize = 256;

/// The preview of a capture: the first 256 characters of its first text
/// payload, when that payload is UTF-8; `None` otherwise.
pub open spec fn preview_spec(ps: Seq<PayloadData>) -> Option<Seq<char>> {
    let k = first_text_payload(ps);
    if 0 <= k < ps.len() && valid_utf8(ps[k].bytes@) {
        Some(prefix_chars(decode_utf8(ps[k].bytes@), PREVIEW_CHARS as nat))
    } else {
        None
    }
}

/// The bytes of all payloads together.
pub open spec fn total_bytes_spec(ps: Seq<PayloadData>) -> int
    decreases ps.len(),
{
    if ps.len() == 0 {
        0
    } else {
        total_bytes_spec(ps.drop_last()) + ps.last().bytes@.len()
    }
}

proof fn lemma_first_text_payload(ps: Seq<PayloadData>)
    ensures
        0 <= first_text_payload(ps) <= ps.len(),
        first_text_payload(ps) < ps.len() ==> text_formats().contains(ps[first_text_payload(ps)].format_id@),
        forall|j: int| 0 <= j < first_text_payload(ps) ==> !text_formats().contains(#[trigger] ps[j].format_id@),
    decreases ps.len(),
{
    if ps.len() > 0 && !text_formats().contains(ps[0].format_id@) {
        lemma_first_text_payload(ps.drop_first());
        assert forall|j: int| 0 <= j < first_text_payload(ps) implies !text_formats().contains(#[trigger] ps[j].format_id@) by {
            if j > 0 {
                assert(ps[j] == ps.drop_first()[j - 1]);
            }
        }
    }
}

proof fn lemma_first_text_payload_at(ps: Seq<PayloadData>, k: int)
    requires
        0 <= k <= ps.len(),
        k < ps.len() ==> text_formats().contains(ps[k].format_id@),
        forall|j: int| 0 <= j < k ==> !text_formats().contains(#[trigger] ps[j].format_id@),
    ensures
        first_text_payload(ps) == k,
    decreases ps.len(),
{
    if k > 0 {
        assert(!text_formats().contains(ps[0].format_id@));
        assert forall|j: int| 0 <= j < k - 1 implies !text_formats().contains(#[trigger] ps.drop_first()[j].format_id@) by {
            assert(ps.drop_first()[j] == ps[j + 1]);
        }
        lemma_first_text_payload_at(ps.drop_first(), k - 1);
    }
}

fn capture_preview(ps: &Vec<PayloadData>) -> (r: Option<String>)
    ensures
        r matches Some(s) ==> preview_spec(ps@) == Some(s@),
        r is None ==> preview_spec(ps@) is None,
{
    let mut i: usize = 0;
    while i < ps.len()
        invariant
            i <= ps.len(),
            forall|j: int| 0 <= j < i ==> !text_formats().contains(#[trigger] ps@[j].format_id@),
        decreases ps.len() - i,
    {
        if is_text(ps[i].format_id.as_str()) {
            proof {
                lemma_first_text_payload_at(ps@, i as int);
            }
            return match utf8_str(ps[i].bytes.as_slice()) {
                Some(s) => Some(take_chars(s, PREVIEW_CHARS)),
                None => None,
            };
        }
        i += 1;
    }
    proof {
        lemma_first_text_payload_at(ps@, i as int);
    }
    None
}

fn total_bytes(ps: &Vec<PayloadData>) -> (r: u64)
    requires
        total_bytes_spec(ps@) <= u64::MAX,
    ensures
        r == total_bytes_spec(ps@),
{
    let mut total: u64 = 0;
    let mut i: usize = 0;
    while i < ps.len()
        invariant
            i <= ps.len(),
            total_bytes_spec(ps@) <= u64::MAX,
            total == total_bytes_spec(ps@.take(i as int)),
        decreases ps.len() - i,
    {
        proof {
            lemma_total_bytes_prefix(ps@, i as int + 1);
            assert(ps@.take(i + 1).drop_last() =~= ps@.take(i as int));
        }
        total = total + ps[i].bytes.len() as u64;
        i += 1;
    }
    assert(ps@.take(ps.len() as int) =~= ps@);
    total
}

proof fn lemma_total_bytes_prefix(ps: Seq<PayloadData>, k: int)
    requires
        0 <= k <= ps.len(),
    ensures
        0 <= total_bytes_spec(ps.take(k)) <= total_bytes_spec(ps),
    decreases ps.len(),
{
    if ps.len() > 0 {
        if k == ps.len() {
            assert(ps.take(k) =~= ps);
            lemma_total_bytes_prefix(ps.drop_last(), k - 1);
        } else {
            lemma_total_bytes_prefix(ps.drop_last(), k);
            assert(ps.drop_last().take(k) =~= ps.take(k));
        }
    }
}

/// A payload kept in the record itself: same format, as is, uncompressed.
pub open spec fn inline_ref_of(r: PayloadRef, p: PayloadData) -> bool {
    &&& r.format_id@ == p.format_id@
    &&& r.compression == Compression::Uncompressed
    &&& r.storage matches PayloadStorage::Inline(b) && b@ == p.bytes@
    &&& r.raw_size == p.bytes@.len()
}

/// One inline payload reference per captured payload, in order.
pub fn payload_refs(ps: &Vec<PayloadData>) -> (r: Vec<PayloadRef>)
    ensures
        r@.len() == ps@.len(),
        forall|i: int| 0 <= i < ps@.len() ==> inline_ref_of(#[trigger] r@[i], ps@[i]),
{
    let mut out: Vec<PayloadRef> = Vec::new();
    let mut i: usize = 0;
    while i < ps.len()
        invariant
            i <= ps.len(),
            out@.len() == i,
            forall|j: int| 0 <= j < i ==> inline_ref_of(#[trigger] out@[j], ps@[j]),
        decreases ps.len() - i,
    {
        let p = &ps[i];
        let bytes = copy_bytes(&p.bytes);
        out.push(PayloadRef {
            format_id: p.format_id.clone(),
            compression: Compression::Uncompressed,
            storage: PayloadStorage::Inline(bytes),
            raw_size: p.bytes.len() as u64,
        });
        i += 1;
    }
    out
}

fn copy_bytes(b: &Vec<u8>) -> (r: Vec<u8>)
    ensures
        r@ == b@,
{
    let mut out: Vec<u8> = Vec::new();
    let mut i: usize = 0;
    while i < b.len()
        invariant
            i <= b.len(),
            out@ == b@.take(i as int),
        decreases b.len() - i,
    {
        out.push(b[i]);
        assert(b@.take(i as int).push(b@[i as int]) =~= b@.take(i + 1));
        i += 1;
    }
    assert(b@.take(b.len() as int) =~= b@);
    out
}

/// The history record of a capture: a fresh id, the capture time as both
/// timestamps, the capture's source, kind and digest, one inline payload
/// reference per captured payload, its text preview and its total byte
/// count; unpinned and untagged.
pub fn build_clip_item(captured: &CapturedItem) -> (r: ClipItem)
    requires
        total_bytes_spec(captured.payloads@) <= u64::MAX,
    ensures
        r.created_at == captured.captured_at,
        r.updated_at == captured.captured_at,
        r.source_app == captured.source_app,
        r.primary_kind == captured.primary_kind,
        r.payloads@.len() == captured.payloads@.len(),
        forall|i: int| 0 <= i < captured.payloads@.len() ==> inline_ref_of(#[trigger] r.payloads@[i], captured.payloads@[i]),
        r.digest == captured.digest,
        match r.text_preview {
            Some(p) => preview_spec(captured.payloads@) == Some(p@),
            None => preview_spec(captured.payloads@) is None,
        },
        !r.pinned,
        r.tags@.len() == 0,
        r.total_bytes == total_bytes_spec(captured.payloads@),
{
    ClipItem {
        id: ClipId::new(),
        created_at: captured.captured_at,
        updated_at: captured.captured_at,
        source_app: captured.source_app.copied(),
        primary_kind: captured.primary_kind,
        payloads: payload_refs(&captured.payloads),
        digest: captured.digest,
        text_preview: capture_preview(&captured.payloads),
        pinned: false,
        tags: Vec::new(),
        total_bytes: total_bytes(&captured.payloads),
    }
}

/// What the capture loop does with one change.
pub enum CaptureAction {
    /// Announce the change as skipped, for this reason.
    Skip(SkipReason),
    /// Store this record, then announce it as captured.
    Store(ClipItem),
}

/// The capture loop's decision: a change the exclusion filter blocks is
/// skipped as excluded; any other becomes a history record.
pub fn capture_action(captured: &CapturedItem, blocked: bool) -> (r: CaptureAction)
    requires
        total_bytes_spec(captured.payloads@) <= u64::MAX,
    ensures
        blocked ==> r == CaptureAction::Skip(SkipReason::Excluded),
        !blocked ==> (r matches CaptureAction::Store(item) && item.created_at == captured.captured_at
            && item.digest == captured.digest && item.total_bytes == total_bytes_spec(captured.payloads@)),
{
    if blocked {
        CaptureAction::Skip(SkipReason::Excluded)
    } else {
        CaptureAction::Store(build_clip_item(captured))
    }
}

/// Name for the BLAKE3 hash of some bytes.
pub uninterp spec fn blake3_digest(data: Seq<u8>) -> Seq<u8>;

/// Wraps `blake3::hash`: the 32-byte digest, named [`blake3_digest`].
#[verifier::external_body]
pub(crate) fn blake3_hash(data: &[u8]) -> (r: [u8; 32])
    ensures
        r@ == blake3_digest(data@),
{
    blake3::hash(data).into()
}

/// A capture of UTF-8 text from an unknown application, as the clipboard
/// would report it now: one `public.utf8-plain-text` payload, its BLAKE3
/// digest, kind text.
pub fn synthesize_text_capture(text: &str) -> (r: CapturedItem)
    ensures
        r.source_app.is_unknown(),
        r.payloads@.len() == 1,
        r.payloads@[0].format_id@ == "public.utf8-plain-text"@,
        r.payloads@[0].bytes@ == text.spec_bytes(),
        r.primary_kind == ClipKind::Text,
        r.digest@ == blake3_digest(text.spec_bytes()),
{
    let bytes = text.as_bytes_vec();
    let digest = blake3_hash(bytes.as_slice());
    let mut payloads: Vec<PayloadData> = Vec::new();
    payloads.push(PayloadData { format_id: "public.utf8-plain-text".to_owned(), bytes });
    CapturedItem {
        source_app: SourceApp::default(),
        payloads,
        primary_kind: ClipKind::Text,
        digest,
        captured_at: utc_now_millis(),
    }
}

/// The store eviction the history settings call for: by count under count
/// priority, by size under size priority.
pub fn eviction_target(cfg: &HistoryConfig) -> (r: EvictionPolicy)
    ensures
        cfg.eviction_policy == Priority::CountPriority ==> r == EvictionPolicy::UntilCount(cfg.max_items),
        cfg.eviction_policy == Priority::SizePriority ==> r == EvictionPolicy::UntilBytes(cfg.max_bytes),
{
    match cfg.eviction_policy {
        Priority::CountPriority => EvictionPolicy::UntilCount(cfg.max_items),
        Priority::SizePriority => EvictionPolicy::UntilBytes(cfg.max_bytes),
    }
}

} // verus!
