//! Addresses of content-addressed blob files.

use vstd::prelude::*;
use crate::capture::{blake3_digest, blake3_hash};
use crate::model::BlobId;
use crate::text::{chars_of, path_join_spec, path_push, slice_chars, string_of};

verus! {

pub open spec fn hex_digit(v: u8) -> char {
    if v < 10 { (48 + v) as char } else { (87 + v) as char }
}

/// Lower-case hex of the bytes, two digits per byte.
pub open spec fn hex_spec(b: Seq<u8>) -> Seq<char>
    decreases b.len(),
{
    if b.len() == 0 {
        Seq::empty()
    } else {
        hex_spec(b.drop_last()) + seq![hex_digit(b.last() / 16), hex_digit(b.last() % 16)]
    }
}

fn digit(v: u8) -> (c: char)
    requires
        v < 16,
    ensures
        c == hex_digit(v),
{
    if v < 10 { (48 + v) as char } else { (87 + v) as char }
}

proof fn lemma_hex_len(b: Seq<u8>)
    ensures
        hex_spec(b).len() == 2 * b.len(),
    decreases b.len(),
{
    if b.len() > 0 {
        lemma_hex_len(b.drop_last());
    }
}

/// The 64 lower-case hex digits of a blob id.
pub fn hex_two(b: &[u8; 32]) -> (r: Vec<char>)
    ensures
        r@ == hex_spec(b@),
        r@.len() == 64,
{
    let mut s: Vec<char> = Vec::new();
    let mut i: usize = 0;
    while i < 32
        invariant
            i <= 32,
            b@.len() == 32,
            s@ == hex_spec(b@.take(i as int)),
        decreases 32 - i,
    {
        assert(b@.take(i + 1).drop_last() =~= b@.take(i as int));
        s.push(digit(b[i] / 16));
        s.push(digit(b[i] % 16));
        assert(s@ =~= hex_spec(b@.take(i + 1)));
        i += 1;
    }
    assert(b@.take(32) =~= b@);
    proof {
        lemma_hex_len(b@);
    }
    s
}

proof fn lemma_hex_no_slash(b: Seq<u8>)
    ensures
        forall|i: int| 0 <= i < hex_spec(b).len() ==> #[trigger] hex_spec(b)[i] != '/',
    decreases b.len(),
{
    if b.len() > 0 {
        lemma_hex_no_slash(b.drop_last());
        let h = hex_spec(b);
        let p = hex_spec(b.drop_last());
        assert forall|i: int| 0 <= i < h.len() implies #[trigger] h[i] != '/' by {
            if i < p.len() {
                assert(h[i] == p[i]);
            }
        }
    }
}

proof fn lemma_hex_digit_injective(a: u8, b: u8)
    requires
        a < 16,
        b < 16,
        hex_digit(a) == hex_digit(b),
    ensures
        a == b,
{
}

/// Distinct byte strings of one length have distinct hex.
proof fn lemma_hex_injective(a: Seq<u8>, b: Seq<u8>)
    requires
        a.len() == b.len(),
        hex_spec(a) == hex_spec(b),
    ensures
        a == b,
    decreases a.len(),
{
    if a.len() > 0 {
        let ha = hex_spec(a);
        let n: int = hex_spec(a.drop_last()).len() as int;
        lemma_hex_len(a.drop_last());
        lemma_hex_len(b.drop_last());
        assert(ha[n] == hex_digit(a.last() / 16));
        assert(hex_spec(b)[n] == hex_digit(b.last() / 16));
        assert(ha[n + 1] == hex_digit(a.last() % 16));
        assert(hex_spec(b)[n + 1] == hex_digit(b.last() % 16));
        lemma_hex_digit_injective(a.last() / 16, b.last() / 16);
        lemma_hex_digit_injective(a.last() % 16, b.last() % 16);
        assert(ha.take(n) =~= hex_spec(a.drop_last()));
        assert(hex_spec(b).take(n) =~= hex_spec(b.drop_last()));
        lemma_hex_injective(a.drop_last(), b.drop_last());
        assert(a.last() == b.last());
        assert(a =~= b.drop_last().push(b.last()));
        assert(b =~= b.drop_last().push(b.last()));
    }
}

/// The content address of some bytes: their BLAKE3 digest.
pub fn blob_id_of(bytes: &[u8]) -> (r: BlobId)
    ensures
        r.0@ == blake3_digest(bytes@),
{
    BlobId(blake3_hash(bytes))
}

/// Blob files live under a root directory, fanned out by the first two hex
/// digits of their id.
pub struct BlobStore {
    root: String,
}

/// `root/hh/rest`, where `hh` are the first two hex digits of the id.
pub open spec fn blob_path_spec(root: Seq<char>, id: BlobId) -> Seq<char> {
    let hex = hex_spec(id.0@);
    path_join_spec(path_join_spec(root, hex.take(2)), hex.skip(2))
}

impl BlobStore {
    pub closed spec fn root_view(&self) -> Seq<char> {
        self.root@
    }

    pub fn new(root: String) -> (r: Self)
        ensures
            r.root_view() == root@,
    {
        BlobStore { root }
    }

    pub fn path(&self, id: &BlobId) -> (r: String)
        ensures
            r@ == blob_path_spec(self.root_view(), *id),
    {
        let hex = hex_two(&id.0);
        let mut out = chars_of(self.root.as_str());
        path_push(&mut out, &slice_chars(&hex, 0, 2));
        path_push(&mut out, &slice_chars(&hex, 2, 64));
        assert(hex@.subrange(0, 2) =~= hex@.take(2));
        assert(hex@.subrange(2, 64) =~= hex@.skip(2));
        string_of(&out)
    }

    /// Distinct blob ids are kept at distinct paths under one root.
    pub proof fn lemma_paths_distinct(root: Seq<char>, a: BlobId, b: BlobId)
        requires
            a != b,
        ensures
            blob_path_spec(root, a) != blob_path_spec(root, b),
    {
        let ha = hex_spec(a.0@);
        let hb = hex_spec(b.0@);
        lemma_hex_len(a.0@);
        lemma_hex_len(b.0@);
        lemma_hex_no_slash(a.0@);
        lemma_hex_no_slash(b.0@);
        let base = if root.len() == 0 || root.last() == '/' { root } else { root + seq!['/'] };
        let pa = path_join_spec(root, ha.take(2));
        let pb = path_join_spec(root, hb.take(2));
        assert(pa =~= base + ha.take(2));
        assert(pb =~= base + hb.take(2));
        assert(pa.last() == ha[1]);
        assert(pb.last() == hb[1]);
        assert(pa.last() != '/');
        assert(pb.last() != '/');
        let xa = blob_path_spec(root, a);
        let xb = blob_path_spec(root, b);
        assert(xa =~= base + ha.take(2) + seq!['/'] + ha.skip(2));
        assert(xb =~= base + hb.take(2) + seq!['/'] + hb.skip(2));
        if xa == xb {
            let k = base.len();
            assert forall|i: int| 0 <= i < 64 implies ha[i] == hb[i] by {
                if i < 2 {
                    assert(xa[k + i] == ha[i]);
                    assert(xb[k + i] == hb[i]);
                } else {
                    assert(xa[k + 1 + i] == ha[i]);
                    assert(xb[k + 1 + i] == hb[i]);
                }
            }
            assert(ha =~= hb);
            lemma_hex_injective(a.0@, b.0@);
            assert(a.0 =~= b.0);
        }
    }

    pub fn root(&self) -> (r: &str)
        ensures
            r@ == self.root_view(),
    {
        self.root.as_str()
    }
}

} // verus!
