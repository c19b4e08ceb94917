//! The captured clipboard item and its payloads.

use vstd::prelude::*;
use crate::ids::ClipId;

verus! {

/// A captured clipboard item, as kept in the history.
#[derive(Clone, Debug)]
pub struct ClipItem {
    pub id: ClipId,
    pub created_at: i64,
    pub updated_at: i64,
    pub source_app: SourceApp,
    pub primary_kind: ClipKind,
    pub payloads: Vec<PayloadRef>,
    /// blake3 of the primary payload, used for de-duplication.
    pub digest: [u8; 32],
    pub text_preview: Option<String>,
    pub pinned: bool,
    pub tags: Vec<String>,
    pub total_bytes: u64,
}

#[derive(Clone, Copy, Debug, Eq, PartialEq)]
pub enum ClipKind {
    Text,
    Image,
    Rtf,
    Html,
    Pdf,
    Files,
    Mixed,
    Custom,
}

/// The application a clipboard change came from.
#[derive(Clone, Debug)]
pub struct SourceApp {
    pub bundle_id: Option<String>,
    pub exe_basename: Option<String>,
    pub exe_path: Option<String>,
    pub display_name: String,
    pub window_title: Option<String>,
}

impl SourceApp {
    pub open spec fn is_unknown(&self) -> bool {
        &&& self.bundle_id is None
        &&& self.exe_basename is None
        &&& self.exe_path is None
        &&& self.display_name@.len() == 0
        &&& self.window_title is None
    }
}

fn copy_text(o: &Option<String>) -> (r: Option<String>)
    ensures
        r == *o,
{
    match o {
        Some(s) => Some(s.clone()),
        None => None,
    }
}

impl SourceApp {
    /// A field-by-field copy.
    pub fn copied(&self) -> (r: SourceApp)
        ensures
            r == *self,
    {
        SourceApp {
            bundle_id: copy_text(&self.bundle_id),
            exe_basename: copy_text(&self.exe_basename),
            exe_path: copy_text(&self.exe_path),
            display_name: self.display_name.clone(),
            window_title: copy_text(&self.window_title),
        }
    }
}

impl Default for SourceApp {
    /// No application is known.
    fn default() -> (r: Self)
        ensures
            r.is_unknown(),
    {
        SourceApp {
            bundle_id: None,
            exe_basename: None,
            exe_path: None,
            display_name: String::new(),
            window_title: None,
        }
    }
}

#[derive(Clone, Debug)]
pub struct PayloadRef {
    /// e.g. "public.utf8-plain-text" / "CF_UNICODETEXT" / "public.png".
    pub format_id: String,
    pub compression: Compression,
    pub storage: PayloadStorage,
    pub raw_size: u64,
}

#[derive(Clone, Copy, Debug, Eq, PartialEq)]
pub enum Compression {
    /// Stored as is.
    Uncompressed,
    Zstd,
}

#[derive(Clone, Debug)]
pub enum PayloadStorage {
    /// Small payloads stored inline (post-encryption ciphertext).
    Inline(Vec<u8>),
    /// Large payloads stored as content-addressed blob files.
    Blob(BlobId),
    /// Reserved for monthly pack files; not produced by current writers.
    Pack { pack_id: String, offset: u64, len: u64 },
}

#[derive(Clone, Copy, Debug, Eq, PartialEq, Hash)]
pub struct BlobId(pub [u8; 32]);

/// Payload bytes carried between layers (never persisted as is).
#[derive(Clone, Debug)]
pub struct PayloadData {
    pub format_id: String,
    pub bytes: Vec<u8>,
}

} // verus!
