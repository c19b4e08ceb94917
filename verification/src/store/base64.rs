//! URL-safe base64 without padding, used to keep the data keys in the OS
//! keychain as text.

use vstd::prelude::*;
use crate::text::string_push;
use vstd::string::StringSliceAdditionalSpecFns;

verus! {

/// The character of a 6-bit value in the alphabet
/// `A-Z a-z 0-9 - _`.
pub open spec fn sextet_char(v: u8) -> char {
    if v < 26 {
        (65 + v) as char
    } else if v < 52 {
        (97 + (v - 26)) as char
    } else if v < 62 {
        (48 + (v - 52)) as char
    } else if v == 62 {
        '-'
    } else {
        '_'
    }
}

/// The 6-bit value of an alphabet byte, or 255 for any other byte.
pub open spec fn sextet_of(b: u8) -> u8 {
    if 65 <= b <= 90 {
        (b - 65) as u8
    } else if 97 <= b <= 122 {
        (b - 97 + 26) as u8
    } else if 48 <= b <= 57 {
        (b - 48 + 52) as u8
    } else if b == 45 {
        62
    } else if b == 95 {
        63
    } else {
        255
    }
}

/// The sextets of one chunk of up to three bytes: two for one byte, three
/// for two, four for three.
pub open spec fn chunk_sextets(c: Seq<u8>) -> Seq<u8> {
    let b0 = c[0] as u32;
    let b1 = if c.len() > 1 { c[1] as u32 } else { 0u32 };
    let b2 = if c.len() > 2 { c[2] as u32 } else { 0u32 };
    let n = (b0 << 16u32) | (b1 << 8u32) | b2;
    let s = seq![((n >> 18u32) & 0x3f) as u8, ((n >> 12u32) & 0x3f) as u8];
    let s = if c.len() > 1 { s.push(((n >> 6u32) & 0x3f) as u8) } else { s };
    if c.len() > 2 { s.push((n & 0x3f) as u8) } else { s }
}

pub open spec fn chunk_len(len: nat, size: nat) -> nat {
    if len < size { len } else { size }
}

/// The sextets of all of `data`, three bytes at a time.
pub open spec fn encode_sextets(data: Seq<u8>) -> Seq<u8>
    decreases data.len(),
{
    if data.len() == 0 {
        Seq::empty()
    } else {
        let k = chunk_len(data.len(), 3) as int;
        chunk_sextets(data.take(k)) + encode_sextets(data.skip(k))
    }
}

pub open spec fn encode_spec(data: Seq<u8>) -> Seq<char> {
    encode_sextets(data).map_values(|v: u8| sextet_char(v))
}

/// The bytes of one chunk of up to four sextets.
pub open spec fn chunk_bytes(c: Seq<u8>) -> Seq<u8> {
    let b0 = c[0] as u32;
    let b1 = if c.len() > 1 { c[1] as u32 } else { 0u32 };
    let b2 = if c.len() > 2 { c[2] as u32 } else { 0u32 };
    let b3 = if c.len() > 3 { c[3] as u32 } else { 0u32 };
    let n = (b0 << 18u32) | (b1 << 12u32) | (b2 << 6u32) | b3;
    let s = seq![((n >> 16u32) & 0xff) as u8];
    let s = if c.len() > 2 { s.push(((n >> 8u32) & 0xff) as u8) } else { s };
    if c.len() > 3 { s.push((n & 0xff) as u8) } else { s }
}

/// The bytes of a sextet sequence, four sextets at a time.
pub open spec fn decode_sextets(s: Seq<u8>) -> Seq<u8>
    decreases s.len(),
{
    if s.len() == 0 {
        Seq::empty()
    } else {
        let k = chunk_len(s.len(), 4) as int;
        chunk_bytes(s.take(k)) + decode_sextets(s.skip(k))
    }
}

/// The sextets of the alphabet bytes in `b`, other bytes skipped.
pub open spec fn valid_sextets(b: Seq<u8>) -> Seq<u8>
    decreases b.len(),
{
    if b.len() == 0 {
        Seq::empty()
    } else {
        let v = sextet_of(b.last());
        valid_sextets(b.drop_last()) + (if v != 255 { seq![v] } else { Seq::empty() })
    }
}

pub open spec fn decode_spec(text: Seq<u8>) -> Seq<u8> {
    decode_sextets(valid_sextets(text))
}

/// The bytes of `text` that belong to the alphabet, in order.
pub open spec fn alphabet_only(text: Seq<u8>) -> Seq<u8> {
    text.filter(|b: u8| sextet_of(b) != 255)
}

proof fn lemma_valid_sextets_alphabet_only(text: Seq<u8>)
    ensures
        valid_sextets(text) == valid_sextets(alphabet_only(text)),
    decreases text.len(),
{
    reveal(Seq::filter);
    if text.len() > 0 {
        lemma_valid_sextets_alphabet_only(text.drop_last());
        let f = alphabet_only(text);
        let g = alphabet_only(text.drop_last());
        if sextet_of(text.last()) != 255 {
            assert(f == g.push(text.last()));
            assert(f.drop_last() =~= g);
        } else {
            assert(f == g);
        }
    }
}

/// Decoding ignores every byte outside the alphabet (`=` padding, white
/// space, `+`, `/`, anything else): the text decodes as its alphabet bytes
/// alone do.
pub proof fn lemma_decode_ignores_other_bytes(text: Seq<u8>)
    ensures
        decode_spec(text) == decode_spec(alphabet_only(text)),
{
    lemma_valid_sextets_alphabet_only(text);
}

fn sextet_to_char(v: u8) -> (c: char)
    requires
        v < 64,
    ensures
        c == sextet_char(v),
{
    if v < 26 {
        (65 + v) as char
    } else if v < 52 {
        (97 + (v - 26)) as char
    } else if v < 62 {
        (48 + (v - 52)) as char
    } else if v == 62 {
        '-'
    } else {
        '_'
    }
}

fn sextet_value(b: u8) -> (v: u8)
    ensures
        v == sextet_of(b),
{
    if 65 <= b && b <= 90 {
        b - 65
    } else if 97 <= b && b <= 122 {
        b - 97 + 26
    } else if 48 <= b && b <= 57 {
        b - 48 + 52
    } else if b == 45 {
        62
    } else if b == 95 {
        63
    } else {
        255
    }
}

proof fn lemma_chunk_sextets_small(c: Seq<u8>)
    requires
        1 <= c.len() <= 3,
    ensures
        chunk_sextets(c).len() == c.len() + 1,
        forall|i: int| 0 <= i < chunk_sextets(c).len() ==> #[trigger] chunk_sextets(c)[i] < 64,
{
    let b0 = c[0] as u32;
    let b1 = if c.len() > 1 { c[1] as u32 } else { 0u32 };
    let b2 = if c.len() > 2 { c[2] as u32 } else { 0u32 };
    let n = (b0 << 16u32) | (b1 << 8u32) | b2;
    assert(((n >> 18u32) & 0x3f) < 64 && ((n >> 12u32) & 0x3f) < 64 && ((n >> 6u32) & 0x3f) < 64 && (n & 0x3f) < 64) by (bit_vector);
}

/// Encode bytes as URL-safe base64 without padding.
pub fn encode(data: &[u8]) -> (r: String)
    ensures
        r@ == encode_spec(data@),
{
    let mut out = String::new();
    let mut i: usize = 0;
    let ghost mut done: Seq<u8> = Seq::empty();
    assert(data@.skip(0) =~= data@);
    while i < data.len()
        invariant
            i <= data.len(),
            out@ == done.map_values(|v: u8| sextet_char(v)),
            encode_sextets(data@) == done + encode_sextets(data@.skip(i as int)),
        decreases data.len() - i,
    {
        let rest = data.len() - i;
        let len: usize = if rest < 3 { rest } else { 3 };
        let ghost chunk = data@.skip(i as int).take(len as int);
        assert(chunk =~= data@.subrange(i as int, i + len));
        assert(data@.skip(i as int).skip(len as int) =~= data@.skip(i + len));
        let b0 = data[i] as u32;
        let b1: u32 = if len > 1 { data[i + 1] as u32 } else { 0 };
        let b2: u32 = if len > 2 { data[i + 2] as u32 } else { 0 };
        let n = (b0 << 16u32) | (b1 << 8u32) | b2;
        proof {
            lemma_chunk_sextets_small(chunk);
            assert(chunk[0] == data@[i as int]);
            if len > 1 { assert(chunk[1] == data@[i + 1]); }
            if len > 2 { assert(chunk[2] == data@[i + 2]); }
        }
        let ghost cs = chunk_sextets(chunk);
        assert(((n >> 18u32) & 0x3f) < 64 && ((n >> 12u32) & 0x3f) < 64 && ((n >> 6u32) & 0x3f) < 64 && (n & 0x3f) < 64) by (bit_vector);
        let ghost before = done;
        string_push(&mut out, sextet_to_char(((n >> 18u32) & 0x3f) as u8));
        string_push(&mut out, sextet_to_char(((n >> 12u32) & 0x3f) as u8));
        if len > 1 {
            string_push(&mut out, sextet_to_char(((n >> 6u32) & 0x3f) as u8));
        }
        if len > 2 {
            string_push(&mut out, sextet_to_char((n & 0x3f) as u8));
        }
        proof {
            done = before + cs;
            assert(out@ =~= done.map_values(|v: u8| sextet_char(v)));
            assert(encode_sextets(data@.skip(i as int)) == cs + encode_sextets(data@.skip(i + len)));
            assert(done + encode_sextets(data@.skip(i + len)) =~= before + encode_sextets(data@.skip(i as int)));
        }
        i += len;
    }
    assert(data@.skip(i as int) =~= Seq::<u8>::empty());
    assert(done + Seq::<u8>::empty() =~= done);
    out
}

/// Decode URL-safe base64 without padding; bytes outside the alphabet are
/// skipped.
pub fn decode(s: &str) -> (r: core::result::Result<Vec<u8>, &'static str>)
    ensures
        r matches Ok(v) && v@ == decode_spec(s.spec_bytes()),
{
    let bytes = s.as_bytes();
    let mut sx: Vec<u8> = Vec::new();
    let mut i: usize = 0;
    while i < bytes.len()
        invariant
            i <= bytes.len(),
            bytes@ == s.spec_bytes(),
            sx@ == valid_sextets(bytes@.take(i as int)),
            forall|j: int| 0 <= j < sx@.len() ==> #[trigger] sx@[j] < 64,
        decreases bytes.len() - i,
    {
        assert(bytes@.take(i + 1).drop_last() =~= bytes@.take(i as int));
        let v = sextet_value(bytes[i]);
        if v != 255 {
            sx.push(v);
        }
        proof {
            if v != 255 {
                assert(v < 64);
            }
        }
        i += 1;
    }
    assert(bytes@.take(bytes.len() as int) =~= bytes@);
    let mut out: Vec<u8> = Vec::new();
    let mut j: usize = 0;
    assert(sx@.skip(0) =~= sx@);
    while j < sx.len()
        invariant
            j <= sx.len(),
            decode_sextets(sx@) == out@ + decode_sextets(sx@.skip(j as int)),
        decreases sx.len() - j,
    {
        let rest = sx.len() - j;
        let len: usize = if rest < 4 { rest } else { 4 };
        let ghost chunk = sx@.skip(j as int).take(len as int);
        assert(sx@.skip(j as int).skip(len as int) =~= sx@.skip(j + len));
        proof {
            assert(chunk[0] == sx@[j as int]);
            if len > 1 { assert(chunk[1] == sx@[j + 1]); }
            if len > 2 { assert(chunk[2] == sx@[j + 2]); }
            if len > 3 { assert(chunk[3] == sx@[j + 3]); }
        }
        let b0 = sx[j] as u32;
        let b1: u32 = if len > 1 { sx[j + 1] as u32 } else { 0 };
        let b2: u32 = if len > 2 { sx[j + 2] as u32 } else { 0 };
        let b3: u32 = if len > 3 { sx[j + 3] as u32 } else { 0 };
        let n = (b0 << 18u32) | (b1 << 12u32) | (b2 << 6u32) | b3;
        let ghost before = out@;
        out.push(((n >> 16u32) & 0xff) as u8);
        if len > 2 {
            out.push(((n >> 8u32) & 0xff) as u8);
        }
        if len > 3 {
            out.push((n & 0xff) as u8);
        }
        proof {
            assert(out@ =~= before + chunk_bytes(chunk));
            assert(decode_sextets(sx@.skip(j as int)) == chunk_bytes(chunk) + decode_sextets(sx@.skip(j + len)));
            assert(out@ + decode_sextets(sx@.skip(j + len)) =~= before + decode_sextets(sx@.skip(j as int)));
        }
        j += len;
    }
    assert(sx@.skip(j as int) =~= Seq::<u8>::empty());
    assert(out@ + Seq::<u8>::empty() =~= out@);
    Ok(out)
}

proof fn lemma_chunk_roundtrip(c: Seq<u8>)
    requires
        1 <= c.len() <= 3,
    ensures
        chunk_bytes(chunk_sextets(c)) == c,
{
    let b0 = c[0] as u32;
    let b1 = if c.len() > 1 { c[1] as u32 } else { 0u32 };
    let b2 = if c.len() > 2 { c[2] as u32 } else { 0u32 };
    let n = (b0 << 16u32) | (b1 << 8u32) | b2;
    let s0 = ((n >> 18u32) & 0x3f) as u8;
    let s1 = ((n >> 12u32) & 0x3f) as u8;
    let s2 = ((n >> 6u32) & 0x3f) as u8;
    let s3 = (n & 0x3f) as u8;
    let x = chunk_sextets(c);
    let c0 = c[0];
    let c1 = if c.len() > 1 { c[1] } else { 0u8 };
    let c2 = if c.len() > 2 { c[2] } else { 0u8 };
    assert(x[0] == s0 && x[1] == s1);
    if c.len() == 1 {
        assert(b1 == 0 && b2 == 0);
        let m = ((s0 as u32) << 18u32) | ((s1 as u32) << 12u32) | (0u32 << 6u32) | 0u32;
        assert(((m >> 16u32) & 0xff) as u8 == c0) by (bit_vector)
            requires b0 == c0 as u32, b1 == 0u32, b2 == 0u32, n == (b0 << 16u32) | (b1 << 8u32) | b2,
                s0 == ((n >> 18u32) & 0x3f) as u8, s1 == ((n >> 12u32) & 0x3f) as u8,
                m == ((s0 as u32) << 18u32) | ((s1 as u32) << 12u32) | (0u32 << 6u32) | 0u32;
        assert(chunk_bytes(x) =~= c);
    } else if c.len() == 2 {
        assert(x[2] == s2);
        let m = ((s0 as u32) << 18u32) | ((s1 as u32) << 12u32) | ((s2 as u32) << 6u32) | 0u32;
        assert(((m >> 16u32) & 0xff) as u8 == c0 && ((m >> 8u32) & 0xff) as u8 == c1) by (bit_vector)
            requires b0 == c0 as u32, b1 == c1 as u32, b2 == 0u32, n == (b0 << 16u32) | (b1 << 8u32) | b2,
                s0 == ((n >> 18u32) & 0x3f) as u8, s1 == ((n >> 12u32) & 0x3f) as u8,
                s2 == ((n >> 6u32) & 0x3f) as u8,
                m == ((s0 as u32) << 18u32) | ((s1 as u32) << 12u32) | ((s2 as u32) << 6u32) | 0u32;
        assert(chunk_bytes(x) =~= c);
    } else {
        assert(x[2] == s2 && x[3] == s3);
        let m = ((s0 as u32) << 18u32) | ((s1 as u32) << 12u32) | ((s2 as u32) << 6u32) | (s3 as u32);
        assert(((m >> 16u32) & 0xff) as u8 == c0 && ((m >> 8u32) & 0xff) as u8 == c1 && (m & 0xff) as u8 == c2) by (bit_vector)
            requires b0 == c0 as u32, b1 == c1 as u32, b2 == c2 as u32, n == (b0 << 16u32) | (b1 << 8u32) | b2,
                s0 == ((n >> 18u32) & 0x3f) as u8, s1 == ((n >> 12u32) & 0x3f) as u8,
                s2 == ((n >> 6u32) & 0x3f) as u8, s3 == (n & 0x3f) as u8,
                m == ((s0 as u32) << 18u32) | ((s1 as u32) << 12u32) | ((s2 as u32) << 6u32) | (s3 as u32);
        assert(chunk_bytes(x) =~= c);
    }
}

proof fn lemma_sextets_roundtrip(data: Seq<u8>)
    ensures
        decode_sextets(encode_sextets(data)) == data,
        forall|i: int| 0 <= i < encode_sextets(data).len() ==> #[trigger] encode_sextets(data)[i] < 64,
    decreases data.len(),
{
    if data.len() > 0 {
        let k = chunk_len(data.len(), 3) as int;
        let c = data.take(k);
        let rest = data.skip(k);
        lemma_sextets_roundtrip(rest);
        lemma_chunk_sextets_small(c);
        lemma_chunk_roundtrip(c);
        let x = chunk_sextets(c) + encode_sextets(rest);
        assert(encode_sextets(data) == x);
        if k == 3 {
            assert(x.take(4) =~= chunk_sextets(c));
            assert(x.skip(4) =~= encode_sextets(rest));
            assert(decode_sextets(x) == chunk_bytes(chunk_sextets(c)) + decode_sextets(encode_sextets(rest)));
        } else {
            assert(rest.len() == 0);
            assert(encode_sextets(rest) =~= Seq::<u8>::empty());
            assert(x =~= chunk_sextets(c));
            assert(x.take(x.len() as int) =~= x);
            assert(x.skip(x.len() as int) =~= Seq::<u8>::empty());
        }
        assert(c + rest =~= data);
        assert forall|i: int| 0 <= i < x.len() implies #[trigger] x[i] < 64 by {
            if i >= chunk_sextets(c).len() {
                assert(x[i] == encode_sextets(rest)[i - chunk_sextets(c).len()]);
            }
        }
    }
}

proof fn lemma_valid_sextets_of_codes(x: Seq<u8>)
    requires
        forall|i: int| 0 <= i < x.len() ==> #[trigger] x[i] < 64,
    ensures
        valid_sextets(x.map_values(|v: u8| sextet_char(v) as u8)) == x,
    decreases x.len(),
{
    let codes = x.map_values(|v: u8| sextet_char(v) as u8);
    if x.len() > 0 {
        lemma_valid_sextets_of_codes(x.drop_last());
        assert(codes.drop_last() =~= x.drop_last().map_values(|v: u8| sextet_char(v) as u8));
        let v = x.last();
        assert(v < 64);
        assert(sextet_of(sextet_char(v) as u8) == v);
        assert(x.drop_last().push(v) =~= x);
    }
}

/// Decoding the text that `encode` produces gives the same bytes back.
pub proof fn lemma_base64_roundtrip(data: Seq<u8>)
    ensures
        decode_spec(vstd::utf8::encode_utf8(encode_spec(data))) == data,
{
    lemma_sextets_roundtrip(data);
    let x = encode_sextets(data);
    let chars = encode_spec(data);
    assert(vstd::utf8::is_ascii_chars(chars)) by {
        assert forall|i: int| 0 <= i < chars.len() implies '\0' <= #[trigger] chars[i] <= '\u{7f}' by {
            assert(x[i] < 64);
        }
    }
    vstd::utf8::is_ascii_chars_encode_utf8(chars);
    let bytes = vstd::utf8::encode_utf8(chars);
    assert(bytes =~= x.map_values(|v: u8| sextet_char(v) as u8)) by {
        assert forall|i: int| 0 <= i < bytes.len() implies bytes[i] == x.map_values(|v: u8| sextet_char(v) as u8)[i] by {
            assert(chars[i] as u8 == bytes[i]);
        }
    }
    lemma_valid_sextets_of_codes(x);
}

} // verus!
