//! Data keys and the AEAD sealer (XChaCha20-Poly1305 with associated data).

use vstd::prelude::*;
use crate::error::{CnxError, Result};
use crate::store::base64::{decode, decode_spec, encode, encode_spec};
use crate::text::{chars_of, string_of};
use vstd::string::StringSliceAdditionalSpecFns;
use chacha20poly1305::aead::{Aead, AeadCore, KeyInit, OsRng, Payload};

verus! {

pub const KEY_LEN: usize = 32;
pub const NONCE_LEN: usize = 24;

/// Where the data keys come from.
#[derive(Debug)]
pub enum KeySource {
    /// The OS keychain (macOS Keychain / Windows Credential Manager).
    Keyring { service: String, account: String },
    /// In-memory random keys, for tests and development.
    Ephemeral,
}

/// The key of the clipboard history and the key of the DONE LOG.
pub struct DataKeys {
    pub history: [u8; 32],
    pub donelog: [u8; 32],
}

/// Name for the ciphertext-and-tag that XChaCha20-Poly1305 produces for a
/// key, nonce, message and associated data.
pub uninterp spec fn xchacha_sealed(key: Seq<u8>, nonce: Seq<u8>, msg: Seq<u8>, aad: Seq<u8>) -> Seq<u8>;

/// Name for what XChaCha20-Poly1305 decryption gives: the message, or
/// `None` when authentication fails.
pub uninterp spec fn xchacha_opened(key: Seq<u8>, nonce: Seq<u8>, ct: Seq<u8>, aad: Seq<u8>) -> Option<Seq<u8>>;

/// Wraps `rand::Rng::fill` on `rand::thread_rng()`: 32 random bytes.
/// Nothing is promised of them.
#[verifier::external_body]
fn random_key() -> [u8; 32] {
    let mut k = [0u8; 32];
    rand::Rng::fill(&mut rand::thread_rng(), &mut k);
    k
}

/// Wraps `XChaCha20Poly1305::generate_nonce` with the OS random source:
/// 24 random bytes. Nothing is promised of them.
#[verifier::external_body]
fn random_nonce() -> [u8; 24] {
    let n = chacha20poly1305::XChaCha20Poly1305::generate_nonce(&mut OsRng);
    let mut out = [0u8; 24];
    out.copy_from_slice(n.as_slice());
    out
}

/// Wraps `Aead::encrypt` of `XChaCha20Poly1305` made from `key`. The
/// result is named [`xchacha_sealed`]; it is 16 bytes longer than the
/// message, decrypting it with the same key, nonce and associated data
/// gives the message back, and it fails only for messages of `u32::MAX`
/// 64-byte blocks or more.
#[verifier::external_body]
fn xchacha_encrypt(key: &[u8; 32], nonce: &[u8; 24], msg: &[u8], aad: &[u8]) -> (r: Option<Vec<u8>>)
    ensures
        r is Some <==> msg@.len() / 64 < 0xffff_ffff,
        r matches Some(ct) ==> ct@ == xchacha_sealed(key@, nonce@, msg@, aad@),
        r matches Some(ct) ==> ct@.len() == msg@.len() + 16,
        r matches Some(ct) ==> xchacha_opened(key@, nonce@, ct@, aad@) == Some(msg@),
{
    let cipher = chacha20poly1305::XChaCha20Poly1305::new(key.into());
    cipher.encrypt(nonce.into(), Payload { msg, aad }).ok()
}

/// Wraps `Aead::decrypt` of `XChaCha20Poly1305` made from `key`; the result
/// is named [`xchacha_opened`].
#[verifier::external_body]
fn xchacha_decrypt(key: &[u8; 32], nonce: &[u8], ct: &[u8], aad: &[u8]) -> (r: Option<Vec<u8>>)
    requires
        nonce@.len() == 24,
    ensures
        r matches Some(p) ==> xchacha_opened(key@, nonce@, ct@, aad@) == Some(p@),
        r is None ==> xchacha_opened(key@, nonce@, ct@, aad@) is None,
{
    let cipher = chacha20poly1305::XChaCha20Poly1305::new(key.into());
    cipher.decrypt(chacha20poly1305::XNonce::from_slice(nonce), Payload { msg: ct, aad }).ok()
}

impl DataKeys {
    /// Fresh random keys.
    pub fn generate() -> (r: Self) {
        DataKeys { history: random_key(), donelog: random_key() }
    }
}

/// The keys as one base64 text: the history key, then the DONE LOG key.
pub fn encode_keys(keys: &DataKeys) -> (r: String)
    ensures
        r@ == encode_spec(keys.history@ + keys.donelog@),
{
    let mut buf: Vec<u8> = Vec::new();
    let mut i: usize = 0;
    while i < 32
        invariant
            i <= 32,
            buf@ == keys.history@.take(i as int),
        decreases 32 - i,
    {
        buf.push(keys.history[i]);
        assert(keys.history@.take(i as int).push(keys.history@[i as int]) =~= keys.history@.take(i + 1));
        i += 1;
    }
    let mut j: usize = 0;
    while j < 32
        invariant
            j <= 32,
            buf@ == keys.history@ + keys.donelog@.take(j as int),
        decreases 32 - j,
    {
        assert(keys.history@.take(32) =~= keys.history@);
        buf.push(keys.donelog[j]);
        assert(keys.donelog@.take(j as int).push(keys.donelog@[j as int]) =~= keys.donelog@.take(j + 1));
        j += 1;
    }
    assert(keys.history@.take(32) =~= keys.history@);
    assert(keys.donelog@.take(32) =~= keys.donelog@);
    encode(buf.as_slice())
}

/// Keys read back from their base64 text; the text must hold exactly 64
/// bytes.
pub fn decode_keys(s: &str) -> (r: Result<DataKeys>)
    ensures
        r is Ok <==> decode_spec(s.spec_bytes()).len() == 64,
        r matches Ok(k) ==> k.history@ + k.donelog@ == decode_spec(s.spec_bytes()),
        r matches Err(e) ==> (e matches CnxError::Crypto(m) && m@ == "invalid key length"@),
{
    let raw = match decode(s) {
        Ok(v) => v,
        Err(_) => return Err(CnxError::Crypto(string_of(&chars_of("decode keys")))),
    };
    if raw.len() != 64 {
        return Err(CnxError::Crypto("invalid key length".to_owned()));
    }
    let mut h = [0u8; 32];
    let mut d = [0u8; 32];
    let mut i: usize = 0;
    while i < 32
        invariant
            i <= 32,
            raw@.len() == 64,
            h@.len() == 32,
            d@.len() == 32,
            forall|j: int| 0 <= j < i ==> h@[j] == raw@[j] && d@[j] == raw@[32 + j],
        decreases 32 - i,
    {
        h[i] = raw[i];
        d[i] = raw[32 + i];
        i += 1;
    }
    assert(h@ + d@ =~= raw@);
    Ok(DataKeys { history: h, donelog: d })
}

/// Reading keys back from the text they were written as gives the same
/// keys: the text decodes to exactly the 64 bytes written.
pub proof fn lemma_keys_roundtrip(history: Seq<u8>, donelog: Seq<u8>)
    requires
        history.len() == 32,
        donelog.len() == 32,
    ensures
        decode_spec(vstd::utf8::encode_utf8(encode_spec(history + donelog))).len() == 64,
        decode_spec(vstd::utf8::encode_utf8(encode_spec(history + donelog))) == history + donelog,
{
    crate::store::base64::lemma_base64_roundtrip(history + donelog);
}

/// What opening a sealed record gives: the first 24 bytes are the nonce,
/// the rest the ciphertext and tag.
pub open spec fn open_spec(key: Seq<u8>, sealed: Seq<u8>, aad: Seq<u8>) -> Option<Seq<u8>> {
    if sealed.len() < NONCE_LEN {
        None
    } else {
        xchacha_opened(key, sealed.take(NONCE_LEN as int), sealed.skip(NONCE_LEN as int), aad)
    }
}

/// AEAD sealing under one 32-byte key.
pub struct Sealer {
    key: [u8; 32],
}

impl Sealer {
    pub closed spec fn key(&self) -> Seq<u8> {
        self.key@
    }

    pub fn new(key: &[u8; 32]) -> (r: Self)
        ensures
            r.key() == key@,
    {
        Sealer { key: *key }
    }

    /// Encrypt `plaintext` bound to `aad` under a fresh random nonce; the
    /// result is the nonce followed by the ciphertext and tag.
    pub fn seal(&self, plaintext: &[u8], aad: &[u8]) -> (r: Result<Vec<u8>>)
        ensures
            r is Ok <==> plaintext@.len() / 64 < 0xffff_ffff,
            r matches Ok(out) ==> out@.len() == NONCE_LEN + plaintext@.len() + 16,
            r matches Ok(out) ==> out@.skip(NONCE_LEN as int) == xchacha_sealed(self.key(), out@.take(NONCE_LEN as int), plaintext@, aad@),
            r matches Ok(out) ==> open_spec(self.key(), out@, aad@) == Some(plaintext@),
            r matches Err(e) ==> (e matches CnxError::Crypto(m) && m@ == "seal: aead::Error"@),
    {
        let nonce = random_nonce();
        let ct = match xchacha_encrypt(&self.key, &nonce, plaintext, aad) {
            Some(c) => c,
            None => return Err(CnxError::Crypto("seal: aead::Error".to_owned())),
        };
        let mut out: Vec<u8> = Vec::new();
        let mut i: usize = 0;
        while i < 24
            invariant
                i <= 24,
                nonce@.len() == 24,
                out@ == nonce@.take(i as int),
            decreases 24 - i,
        {
            out.push(nonce[i]);
            assert(nonce@.take(i as int).push(nonce@[i as int]) =~= nonce@.take(i + 1));
            i += 1;
        }
        let mut j: usize = 0;
        while j < ct.len()
            invariant
                j <= ct.len(),
                nonce@.len() == 24,
                out@ == nonce@ + ct@.take(j as int),
            decreases ct.len() - j,
        {
            assert(nonce@.take(24) =~= nonce@);
            out.push(ct[j]);
            assert(ct@.take(j as int).push(ct@[j as int]) =~= ct@.take(j + 1));
            j += 1;
        }
        assert(nonce@.take(24) =~= nonce@);
        assert(ct@.take(ct.len() as int) =~= ct@);
        assert(out@.take(24) =~= nonce@);
        assert(out@.skip(24) =~= ct@);
        Ok(out)
    }

    /// Decrypt a sealed record bound to `aad`; fails when it is shorter
    /// than a nonce or does not authenticate.
    pub fn open(&self, ciphertext: &[u8], aad: &[u8]) -> (r: Result<Vec<u8>>)
        ensures
            r is Ok <==> open_spec(self.key(), ciphertext@, aad@) is Some,
            r matches Ok(p) ==> open_spec(self.key(), ciphertext@, aad@) == Some(p@),
            r matches Err(e) ==> (e matches CnxError::Crypto(m) && m@ == (if ciphertext@.len() < NONCE_LEN {
                "ciphertext too short"@
            } else {
                "open: aead::Error"@
            })),
    {
        if ciphertext.len() < NONCE_LEN {
            return Err(CnxError::Crypto("ciphertext too short".to_owned()));
        }
        let (nonce_bytes, ct) = split_bytes(ciphertext, NONCE_LEN);
        match xchacha_decrypt(&self.key, nonce_bytes.as_slice(), ct.as_slice(), aad) {
            Some(p) => Ok(p),
            None => Err(CnxError::Crypto("open: aead::Error".to_owned())),
        }
    }
}

/// The bytes before and after position `mid`.
pub fn split_bytes(b: &[u8], mid: usize) -> (r: (Vec<u8>, Vec<u8>))
    requires
        mid <= b@.len(),
    ensures
        r.0@ == b@.take(mid as int),
        r.1@ == b@.skip(mid as int),
{
    let mut a: Vec<u8> = Vec::new();
    let mut c: Vec<u8> = Vec::new();
    let mut i: usize = 0;
    while i < b.len()
        invariant
            i <= b.len(),
            mid <= b@.len(),
            i <= mid ==> a@ == b@.take(i as int) && c@.len() == 0,
            i > mid ==> a@ == b@.take(mid as int) && c@ == b@.subrange(mid as int, i as int),
        decreases b.len() - i,
    {
        if i < mid {
            a.push(b[i]);
            assert(b@.take(i as int).push(b@[i as int]) =~= b@.take(i + 1));
        } else {
            c.push(b[i]);
            assert(b@.subrange(mid as int, i as int).push(b@[i as int]) =~= b@.subrange(mid as int, i + 1));
        }
        i += 1;
    }
    assert(b@.subrange(mid as int, b.len() as int) =~= b@.skip(mid as int));
    if mid == b.len() {
        assert(b@.skip(mid as int) =~= Seq::<u8>::empty());
    }
    (a, c)
}


/// What reading the data keys from the OS keychain gave.
pub enum KeychainRead {
    /// The stored text.
    Found(String),
    /// No entry is stored yet.
    NoEntry,
    /// The keychain failed; its message.
    Failed(String),
}

/// What loading the data keys comes to.
pub enum KeyLoad {
    /// These keys are the ones to use.
    Ready(DataKeys),
    /// Fresh keys: store their text ([`encode_keys`]) in the keychain, then
    /// use them.
    StoreNew(DataKeys),
    /// Loading fails with this error.
    Failed(CnxError),
}

/// Loading the data keys: random keys for an ephemeral source; from the
/// keychain, the stored keys, or fresh keys to store when there are none,
/// or the keychain's failure.
pub fn load_keys(source: &KeySource, read: KeychainRead) -> (r: KeyLoad)
    ensures
        source is Ephemeral ==> r is Ready,
        source is Keyring ==> match read {
            KeychainRead::Found(text) => if decode_spec(vstd::utf8::encode_utf8(text@)).len() == 64 {
                r matches KeyLoad::Ready(k) && k.history@ + k.donelog@ == decode_spec(vstd::utf8::encode_utf8(text@))
            } else {
                r matches KeyLoad::Failed(CnxError::Crypto(m)) && m@ == "invalid key length"@
            },
            KeychainRead::NoEntry => r is StoreNew,
            KeychainRead::Failed(e) => r matches KeyLoad::Failed(CnxError::Crypto(m)) && m@ == "keyring read: "@ + e@,
        },
{
    match source {
        KeySource::Ephemeral => KeyLoad::Ready(DataKeys::generate()),
        KeySource::Keyring { .. } => match read {
            KeychainRead::Found(text) => match decode_keys(text.as_str()) {
                Ok(k) => KeyLoad::Ready(k),
                Err(e) => KeyLoad::Failed(e),
            },
            KeychainRead::NoEntry => KeyLoad::StoreNew(DataKeys::generate()),
            KeychainRead::Failed(e) => {
                let mut m = chars_of("keyring read: ");
                crate::text::push_str(&mut m, e.as_str());
                KeyLoad::Failed(CnxError::Crypto(string_of(&m)))
            },
        },
    }
}

} // verus!
