//! Error type shared by every part of the library.

use vstd::prelude::*;
use crate::text::{chars_of, push_str, string_of};

verus! {

/// Failure kinds, each carrying a human-readable detail where one exists.
#[derive(Debug, Clone)]
pub enum CnxError {
    Io(String),
    Serialize(String),
    Storage(String),
    Crypto(String),
    Clipboard(String),
    Hotkey(String),
    Paste(String),
    NotFound,
    Other(String),
}

pub type Result<T> = core::result::Result<T, CnxError>;

/// The text an error is displayed with: a kind prefix, then the detail.
pub open spec fn error_message_spec(e: CnxError) -> Seq<char> {
    match e {
        CnxError::Io(s) => "io: "@ + s@,
        CnxError::Serialize(s) => "serialize: "@ + s@,
        CnxError::Storage(s) => "storage: "@ + s@,
        CnxError::Crypto(s) => "crypto: "@ + s@,
        CnxError::Clipboard(s) => "clipboard: "@ + s@,
        CnxError::Hotkey(s) => "hotkey: "@ + s@,
        CnxError::Paste(s) => "paste: "@ + s@,
        CnxError::NotFound => "not found"@,
        CnxError::Other(s) => s@,
    }
}

impl CnxError {
    /// The display text of the error.
    pub fn message(&self) -> (r: String)
        ensures
            r@ == error_message_spec(*self),
    {
        let (prefix, detail): (&str, Option<&String>) = match self {
            CnxError::Io(s) => ("io: ", Some(s)),
            CnxError::Serialize(s) => ("serialize: ", Some(s)),
            CnxError::Storage(s) => ("storage: ", Some(s)),
            CnxError::Crypto(s) => ("crypto: ", Some(s)),
            CnxError::Clipboard(s) => ("clipboard: ", Some(s)),
            CnxError::Hotkey(s) => ("hotkey: ", Some(s)),
            CnxError::Paste(s) => ("paste: ", Some(s)),
            CnxError::NotFound => ("not found", None),
            CnxError::Other(s) => ("", Some(s)),
        };
        let mut out = chars_of(prefix);
        match detail {
            Some(d) => push_str(&mut out, d.as_str()),
            None => {},
        }
        proof {
            reveal_strlit("");
        }
        string_of(&out)
    }
}

} // verus!
