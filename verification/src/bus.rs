//! Events the components announce to each other.

use vstd::prelude::*;
use crate::ids::{ClipId, HotkeyId};

verus! {

#[derive(Clone, Debug)]
pub enum CoreEvent {
    ClipboardCaptured(ClipId),
    ClipboardSkipped { reason: SkipReason },
    HotkeyPressed(HotkeyId),
    Quota(QuotaEvent),
    SettingsChanged,
}

#[derive(Clone, Copy, Debug, PartialEq, Eq)]
pub enum SkipReason {
    Excluded,
    Concealed,
    SelfWrite,
    Empty,
}

#[derive(Clone, Copy, Debug, PartialEq, Eq)]
pub enum QuotaEvent {
    Evicted { count: u64, bytes: u64 },
}

} // verus!
