//! Identifiers: clip ids (ULIDs) and hotkey ids.

use vstd::prelude::*;

verus! {

/// A clipboard item id: a ULID, held as its 128-bit value.
#[derive(Clone, Copy, Debug, PartialEq, Eq, Hash)]
pub struct ClipId(pub u128);

/// Byte `i` (0 = most significant) of the big-endian form of `v`.
pub open spec fn be_byte(v: u128, i: int) -> u8 {
    ((v >> ((120 - 8 * i) as u128)) & 0xff) as u8
}

/// The 16 big-endian bytes of a 128-bit value.
pub open spec fn be_bytes(v: u128) -> Seq<u8> {
    Seq::new(16, |i: int| be_byte(v, i))
}

/// The value whose big-endian bytes are `b`.
pub open spec fn from_be(b: Seq<u8>) -> u128
    decreases b.len(),
{
    if b.len() == 0 {
        0
    } else {
        ((from_be(b.drop_last()) << 8u128) | (b.last() as u128)) as u128
    }
}

/// The Crockford base-32 digit of a value below 32:
/// `0123456789ABCDEFGHJKMNPQRSTVWXYZ`.
pub open spec fn crockford_char(d: int) -> char {
    if d < 10 {
        (48 + d) as char
    } else if d < 18 {
        (55 + d) as char
    } else if d < 20 {
        (56 + d) as char
    } else if d < 22 {
        (57 + d) as char
    } else if d < 27 {
        (58 + d) as char
    } else {
        (59 + d) as char
    }
}

/// The value of a byte read as a Crockford base-32 digit, in either case,
/// or -1 for any other byte.
pub open spec fn crockford_value(b: u8) -> int {
    let u: int = if 97 <= b <= 122 { b - 32 } else { b as int };
    if 48 <= u <= 57 {
        u - 48
    } else if 65 <= u <= 72 {
        u - 55
    } else if u == 74 || u == 75 {
        u - 56
    } else if u == 77 || u == 78 {
        u - 57
    } else if 80 <= u <= 84 {
        u - 58
    } else if 86 <= u <= 90 {
        u - 59
    } else {
        -1
    }
}

/// Digit `i` (0 = most significant) of the 26 five-bit digits of `v`; the
/// first holds only the top three bits.
pub open spec fn ulid_digit(v: u128, i: int) -> u128 {
    (v >> ((125 - 5 * i) as u128)) & 31
}

/// The 26-character Crockford base-32 text of a ULID value, as
/// `ulid::Ulid::to_string` writes it.
pub open spec fn ulid_text(v: u128) -> Seq<char> {
    Seq::new(26, |i: int| crockford_char(ulid_digit(v, i) as int))
}

/// The number written by Crockford digits, most significant first.
pub open spec fn digits_value(b: Seq<u8>) -> int
    decreases b.len(),
{
    if b.len() == 0 {
        0
    } else {
        digits_value(b.drop_last()) * 32 + crockford_value(b.last())
    }
}

/// What `ulid::Ulid::from_string` gives for a text (its error by its
/// `Display` text): refused unless the text is 26 bytes long, then refused
/// unless every byte is a Crockford digit; otherwise the number the digits
/// write, kept to its low 128 bits.
pub open spec fn ulid_parse(s: Seq<char>) -> core::result::Result<u128, Seq<char>> {
    let b = vstd::utf8::encode_utf8(s);
    if b.len() != 26 {
        Err("invalid length"@)
    } else if exists|i: int| 0 <= i < 26 && crockford_value(#[trigger] b[i]) < 0 {
        Err("invalid character"@)
    } else {
        Ok((digits_value(b) % 0x1_0000_0000_0000_0000_0000_0000_0000_0000int) as u128)
    }
}

/// Wraps `ulid::Ulid::new`: a fresh ULID from the current time and
/// randomness. Nothing is promised of the value.
#[verifier::external_body]
fn fresh_ulid() -> u128 {
    ulid::Ulid::new().0
}

/// Wraps `ulid::Ulid::to_string`, which writes the value as
/// [`ulid_text`] states.
#[verifier::external_body]
fn ulid_to_string(v: u128) -> (r: String)
    ensures
        r@ == ulid_text(v),
{
    ulid::Ulid(v).to_string()
}

/// A successful decoding of `v`.
pub open spec fn decoded(v: u128) -> core::result::Result<u128, Seq<char>> {
    Ok(v)
}

/// The view of a decoding outcome.
pub open spec fn parse_view(r: core::result::Result<u128, String>) -> core::result::Result<u128, Seq<char>> {
    match r {
        Ok(v) => Ok(v),
        Err(e) => Err(e@),
    }
}

/// Wraps `ulid::Ulid::from_string` (with the error's `Display` text),
/// which decodes as [`ulid_parse`] states.
#[verifier::external_body]
fn ulid_from_string(s: &str) -> (r: core::result::Result<u128, String>)
    ensures
        parse_view(r) == ulid_parse(s@),
{
    ulid::Ulid::from_string(s).map(|u| u.0).map_err(|e| e.to_string())
}

impl ClipId {
    /// A fresh id.
    pub fn new() -> (r: Self) {
        ClipId(fresh_ulid())
    }

    /// The 16 big-endian bytes of the id.
    pub fn as_bytes(&self) -> (r: [u8; 16])
        ensures
            r@ == be_bytes(self.0),
    {
        let v = self.0;
        let mut out = [0u8; 16];
        let mut i: usize = 0;
        while i < 16
            invariant
                i <= 16,
                out@.len() == 16,
                forall|j: int| 0 <= j < i ==> out@[j] == be_byte(v, j),
            decreases 16 - i,
        {
            let shift: u128 = (120 - 8 * i) as u128;
            out[i] = ((v >> shift) & 0xff) as u8;
            i += 1;
        }
        assert(out@ =~= be_bytes(v));
        out
    }

    /// The id whose big-endian bytes are given.
    pub fn from_bytes(b: [u8; 16]) -> (r: Self)
        ensures
            r.0 == from_be(b@),
    {
        let mut v: u128 = 0;
        let mut i: usize = 0;
        while i < 16
            invariant
                i <= 16,
                b@.len() == 16,
                v == from_be(b@.take(i as int)),
            decreases 16 - i,
        {
            assert(b@.take(i + 1).drop_last() =~= b@.take(i as int));
            v = (v << 8u128) | (b[i] as u128);
            i += 1;
        }
        assert(b@.take(16) =~= b@);
        ClipId(v)
    }

    /// The ULID text of the id; parsing it gives the id back.
    pub fn to_text(&self) -> (r: String)
        ensures
            r@ == ulid_text(self.0),
            r@.len() == 26,
            ulid_parse(r@) == decoded(self.0),
    {
        let r = ulid_to_string(self.0);
        proof {
            lemma_ulid_text_roundtrip(self.0);
        }
        r
    }

    /// The id written as the given ULID text, or why it is none.
    pub fn parse(s: &str) -> (r: core::result::Result<Self, String>)
        ensures
            r matches Ok(id) ==> ulid_parse(s@) == decoded(id.0),
            r matches Err(e) ==> ulid_parse(s@) == parse_view(Err(e)),
    {
        match ulid_from_string(s) {
            Ok(v) => Ok(ClipId(v)),
            Err(e) => Err(e),
        }
    }
}

proof fn lemma_be_prefix(v: u128, k: nat)
    requires
        1 <= k <= 16,
    ensures
        from_be(be_bytes(v).take(k as int)) == v >> ((128 - 8 * k) as u128),
    decreases k,
{
    let b = be_bytes(v);
    assert(b.take(k as int).drop_last() =~= b.take(k - 1));
    assert(b.take(k as int).last() == be_byte(v, k - 1));
    if k == 1 {
        assert(b.take(0) =~= Seq::<u8>::empty());
        assert(from_be(b.take(0)) == 0);
        assert(be_byte(v, 0) == ((v >> 120u128) & 0xff) as u8);
        let x: u128 = 0;
        assert((((x << 8u128) | ((v >> 120u128) & 0xff) as u8 as u128) as u128) == v >> 120u128) by (bit_vector)
            requires x == 0u128;
    } else {
        lemma_be_prefix(v, (k - 1) as nat);
        let s: u128 = (128 - 8 * k) as u128;
        assert(from_be(b.take(k - 1)) == v >> (s + 8));
        assert(be_byte(v, k - 1) == ((v >> s) & 0xff) as u8);
        assert(from_be(b.take(k as int)) == ((from_be(b.take(k - 1)) << 8u128) | (be_byte(v, k - 1) as u128)) as u128);
        assert(((((v >> (s + 8)) << 8u128) | ((v >> s) & 0xff) as u8 as u128) as u128) == v >> s) by (bit_vector)
            requires s <= 112u128;
    }
}

/// Reading an id back from its bytes gives the same id.
pub proof fn lemma_bytes_roundtrip(v: u128)
    ensures
        from_be(be_bytes(v)) == v,
{
    lemma_be_prefix(v, 16);
    assert(be_bytes(v).take(16) =~= be_bytes(v));
    assert(v >> 0u128 == v) by (bit_vector);
}

proof fn lemma_crockford_digit(d: int)
    requires
        0 <= d < 32,
    ensures
        '\0' <= crockford_char(d) <= '\u{7f}',
        crockford_value(crockford_char(d) as u8) == d,
{
}

proof fn lemma_ulid_prefix(v: u128, b: Seq<u8>, n: int)
    requires
        1 <= n <= 26,
        b.len() == 26,
        forall|i: int| 0 <= i < 26 ==> crockford_value(#[trigger] b[i]) == ulid_digit(v, i),
    ensures
        digits_value(b.take(n)) == v >> ((130 - 5 * n) as u128),
    decreases n,
{
    assert(b.take(n).drop_last() =~= b.take(n - 1));
    assert(b.take(n).last() == b[n - 1]);
    if n == 1 {
        assert(b.take(0) =~= Seq::<u8>::empty());
        assert(digits_value(b.take(0)) == 0);
        assert(crockford_value(b[0]) == ulid_digit(v, 0));
        assert(((v >> 125u128) & 31) == v >> 125u128) by (bit_vector);
    } else {
        lemma_ulid_prefix(v, b, n - 1);
        let s: u128 = (130 - 5 * n) as u128;
        assert(digits_value(b.take(n - 1)) == v >> (s + 5));
        assert(crockford_value(b[n - 1]) == ulid_digit(v, n - 1));
        assert(ulid_digit(v, n - 1) == (v >> s) & 31);
        assert((v >> (s + 5)) * 32 + ((v >> s) & 31) == v >> s) by (bit_vector)
            requires s <= 120u128;
    }
}

/// Reading the ULID text of a value gives the value back.
pub proof fn lemma_ulid_text_roundtrip(v: u128)
    ensures
        ulid_text(v).len() == 26,
        ulid_parse(ulid_text(v)) == decoded(v),
{
    let t = ulid_text(v);
    assert forall|i: int| 0 <= i < 26 implies ulid_digit(v, i) < 32 by {
        let s: u128 = (125 - 5 * i) as u128;
        assert(((v >> s) & 31) < 32) by (bit_vector);
    }
    assert forall|i: int| 0 <= i < 26 implies '\0' <= #[trigger] t[i] <= '\u{7f}'
        && crockford_value(t[i] as u8) == ulid_digit(v, i) by {
        lemma_crockford_digit(ulid_digit(v, i) as int);
    }
    vstd::utf8::is_ascii_chars_encode_utf8(t);
    let b = vstd::utf8::encode_utf8(t);
    assert forall|i: int| 0 <= i < 26 implies crockford_value(#[trigger] b[i]) == ulid_digit(v, i) by {
        assert(b[i] == t[i] as u8);
    }
    lemma_ulid_prefix(v, b, 26);
    assert(b.take(26) =~= b);
    assert(v >> 0u128 == v) by (bit_vector);
}

/// The global shortcuts; they order as declared.
#[derive(Clone, Copy, Debug, Eq, PartialEq, Structural, Hash, Ord, PartialOrd)]
pub enum HotkeyId {
    ShowHistory,
    ShowSnippets,
    PastePlain,
    PasteFormat,
    PasteFull,
    DoneCapture,
}

/// A hotkey's place in declaration order, from 0.
pub open spec fn hotkey_rank(id: HotkeyId) -> int {
    match id {
        HotkeyId::ShowHistory => 0,
        HotkeyId::ShowSnippets => 1,
        HotkeyId::PastePlain => 2,
        HotkeyId::PasteFormat => 3,
        HotkeyId::PasteFull => 4,
        HotkeyId::DoneCapture => 5,
    }
}

/// The hotkeys in declaration order.
pub open spec fn all_hotkeys() -> Seq<HotkeyId> {
    seq![
        HotkeyId::ShowHistory,
        HotkeyId::ShowSnippets,
        HotkeyId::PastePlain,
        HotkeyId::PasteFormat,
        HotkeyId::PasteFull,
        HotkeyId::DoneCapture,
    ]
}

} // verus!
