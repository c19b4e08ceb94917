//! The OS clipboard as the rest of the library sees it: what a capture
//! carries, how clipboards are written, and where a change came from.

use vstd::prelude::*;
use crate::error::{CnxError, Result};
use crate::model::{ClipKind, PayloadData, SourceApp};

pub mod dib;
pub mod guard;

pub use guard::SelfWriteGuard;

verus! {

/// One clipboard change, as a watcher reports it.
#[derive(Clone, Debug)]
pub struct CapturedItem {
    pub source_app: SourceApp,
    pub payloads: Vec<PayloadData>,
    pub primary_kind: ClipKind,
    pub digest: [u8; 32],
    pub captured_at: i64,
}

/// Writes to the OS clipboard.
pub trait ClipboardWriter {
    /// Write the given payloads to the OS clipboard, replacing whatever is
    /// there.
    fn write(&self, payloads: &[PayloadData]) -> Result<()>;

    /// Snapshot the current OS clipboard for later restoration.
    fn snapshot_for_restore(&self) -> Result<Vec<PayloadData>>;
}

/// The Windows clipboard writer; writing is not supported yet.
pub struct WinWriter;

impl WinWriter {
    pub fn new() -> (r: Result<Self>)
        ensures
            r is Ok,
    {
        Ok(WinWriter)
    }
}

impl ClipboardWriter for WinWriter {
    fn write(&self, payloads: &[PayloadData]) -> (r: Result<()>)
        ensures
            r matches Err(CnxError::Clipboard(m)) && m@ == "WinWriter::write not yet implemented"@,
    {
        Err(CnxError::Clipboard("WinWriter::write not yet implemented".to_owned()))
    }

    fn snapshot_for_restore(&self) -> (r: Result<Vec<PayloadData>>)
        ensures
            r matches Err(CnxError::Clipboard(m)) && m@ == "WinWriter::snapshot_for_restore not yet implemented"@,
    {
        Err(CnxError::Clipboard("WinWriter::snapshot_for_restore not yet implemented".to_owned()))
    }
}

/// The application that owns the clipboard, where the platform can tell;
/// no platform backend reports one yet.
pub fn detect_source() -> (r: Option<SourceApp>)
    ensures
        r is None,
{
    None
}

/// Best-effort detection of the application behind the latest clipboard
/// write; an unknown application when none is reported.
pub fn current() -> (r: SourceApp)
    ensures
        r.is_unknown(),
{
    match detect_source() {
        Some(s) => s,
        None => SourceApp::default(),
    }
}

} // verus!
