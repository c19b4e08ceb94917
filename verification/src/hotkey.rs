//! Global hotkeys: the outcome of registering a shortcut, the table from
//! OS hotkey ids to the application's hotkeys, and which OS events become
//! application events.
//!
//! A registration never fails the caller: every outcome, good or bad, is
//! reported as a [`RegistrationResult`] the UI can show.

use vstd::prelude::*;
use std::collections::HashMap;
use crate::bus::CoreEvent;
use crate::ids::HotkeyId;
use crate::settings::ShortcutBinding;
use crate::text::{chars_of, contains, contains_spec, push_str, string_of};

verus! {

broadcast use vstd::std_specs::hash::group_hash_axioms;

/// Why a registration failed.
#[derive(Debug, Clone)]
pub struct RegistrationFailure {
    pub reason: String,
    /// Whether another application most likely holds the shortcut.
    pub is_conflict: bool,
}

/// The outcome of registering one shortcut.
#[derive(Debug)]
pub struct RegistrationResult {
    pub id: HotkeyId,
    pub accelerator: String,
    pub outcome: core::result::Result<(), RegistrationFailure>,
}

impl Clone for RegistrationResult {
    fn clone(&self) -> (r: Self)
        ensures
            r == *self,
    {
        let outcome: core::result::Result<(), RegistrationFailure> = match &self.outcome {
            Ok(u) => Ok(*u),
            Err(f) => {
                let reason = f.reason.clone();
                assert(reason == f.reason);
                Err(RegistrationFailure { reason, is_conflict: f.is_conflict })
            },
        };
        assert(outcome == self.outcome);
        RegistrationResult { id: self.id, accelerator: self.accelerator.clone(), outcome }
    }
}

impl RegistrationResult {
    pub fn is_ok(&self) -> (r: bool)
        ensures
            r == self.outcome is Ok,
    {
        self.outcome.is_ok()
    }
}

/// What the OS side did with an accelerator.
pub enum RegisterOutcome {
    /// The accelerator text did not parse; the parser's message.
    InvalidSyntax(String),
    /// The OS refused the shortcut; its message.
    Rejected(String),
    /// Registered under this OS hotkey id.
    Registered(u32),
}

/// The words that mark an OS refusal as a conflict with another
/// application.
pub open spec fn conflict_words() -> Seq<Seq<char>> {
    seq!["already"@, "conflict"@, "denied"@, "failed"@]
}

pub open spec fn is_conflict_spec(msg: Seq<char>) -> bool {
    exists|k: int| 0 <= k < conflict_words().len() && contains_spec(msg, #[trigger] conflict_words()[k])
}

/// Whether a refusal message suggests that another application holds the
/// shortcut.
pub fn is_conflict_message(msg: &str) -> (r: bool)
    ensures
        r == is_conflict_spec(msg@),
{
    let m = chars_of(msg);
    let r = contains(&m, &chars_of("already")) || contains(&m, &chars_of("conflict"))
        || contains(&m, &chars_of("denied")) || contains(&m, &chars_of("failed"));
    proof {
        let w = conflict_words();
        if r {
            if contains_spec(msg@, w[0]) {} else if contains_spec(msg@, w[1]) {}
            else if contains_spec(msg@, w[2]) {} else { assert(contains_spec(msg@, w[3])); }
        } else {
            assert forall|k: int| 0 <= k < w.len() implies !contains_spec(msg@, #[trigger] w[k]) by {
                if k == 0 {} else if k == 1 {} else if k == 2 {} else {}
            }
        }
    }
    r
}

/// The platforms with their own shortcut bindings.
#[derive(Clone, Copy, Debug, PartialEq, Eq)]
pub enum Platform {
    MacOs,
    Windows,
    /// Any other platform; it uses the Windows bindings.
    Other,
}

/// The accelerator of a binding on a platform: the macOS binding on macOS,
/// the Windows binding anywhere else.
pub fn platform_accel(binding: &ShortcutBinding, platform: Platform) -> (r: Option<&str>)
    ensures
        platform == Platform::MacOs ==> match binding.macos {
            Some(s) => r matches Some(a) && a@ == s@,
            None => r is None,
        },
        platform != Platform::MacOs ==> match binding.windows {
            Some(s) => r matches Some(a) && a@ == s@,
            None => r is None,
        },
{
    let chosen = match platform {
        Platform::MacOs => &binding.macos,
        _ => &binding.windows,
    };
    match chosen {
        Some(s) => Some(s.as_str()),
        None => None,
    }
}

/// The OS hotkey ids registered so far and the hotkeys they stand for.
pub struct HotkeyBindings {
    map: HashMap<u32, HotkeyId>,
}

impl HotkeyBindings {
    pub closed spec fn view_map(&self) -> Map<u32, HotkeyId> {
        self.map@
    }

    pub fn new() -> (r: Self)
        ensures
            r.view_map() == Map::<u32, HotkeyId>::empty(),
    {
        HotkeyBindings { map: HashMap::new() }
    }

    /// The report of one registration; a successful one also records the OS
    /// id. A syntax error is reported with the parser's message and is no
    /// conflict; an OS refusal is reported with the OS message and counts
    /// as a conflict when the message says so.
    pub fn record(&mut self, id: HotkeyId, accelerator: &str, outcome: RegisterOutcome) -> (r: RegistrationResult)
        ensures
            r.id == id,
            r.accelerator@ == accelerator@,
            match outcome {
                RegisterOutcome::Registered(os_id) => r.outcome is Ok
                    && final(self).view_map() == old(self).view_map().insert(os_id, id),
                RegisterOutcome::InvalidSyntax(e) => r.outcome matches Err(f)
                    && f.reason@ == "invalid accelerator syntax: "@ + e@ && !f.is_conflict
                    && final(self).view_map() == old(self).view_map(),
                RegisterOutcome::Rejected(e) => r.outcome matches Err(f)
                    && f.reason@ == e@ && f.is_conflict == is_conflict_spec(e@)
                    && final(self).view_map() == old(self).view_map(),
            },
    {
        let accel = accelerator.to_owned();
        match outcome {
            RegisterOutcome::InvalidSyntax(e) => {
                let mut reason = chars_of("invalid accelerator syntax: ");
                push_str(&mut reason, e.as_str());
                RegistrationResult {
                    id,
                    accelerator: accel,
                    outcome: Err(RegistrationFailure { reason: string_of(&reason), is_conflict: false }),
                }
            },
            RegisterOutcome::Rejected(e) => {
                let is_conflict = is_conflict_message(e.as_str());
                RegistrationResult {
                    id,
                    accelerator: accel,
                    outcome: Err(RegistrationFailure { reason: e, is_conflict }),
                }
            },
            RegisterOutcome::Registered(os_id) => {
                self.map.insert(os_id, id);
                RegistrationResult { id, accelerator: accel, outcome: Ok(()) }
            },
        }
    }

    /// The application event for an OS hotkey event: only a press of a
    /// registered hotkey becomes one.
    pub fn event_for(&self, os_id: u32, pressed: bool) -> (r: Option<CoreEvent>)
        ensures
            r matches Some(ev) <==> pressed && self.view_map().contains_key(os_id),
            r matches Some(ev) ==> ev == CoreEvent::HotkeyPressed(self.view_map()[os_id]),
    {
        if !pressed {
            return None;
        }
        match self.map.get(&os_id) {
            Some(id) => Some(CoreEvent::HotkeyPressed(*id)),
            None => None,
        }
    }

    /// Forget every registration.
    pub fn clear(&mut self)
        ensures
            final(self).view_map() == Map::<u32, HotkeyId>::empty(),
    {
        self.map.clear();
    }
}

/// A press of a hotkey just registered under an OS id is reported as that
/// hotkey, whatever was registered before.
pub proof fn lemma_registered_press_fires(before: Map<u32, HotkeyId>, os_id: u32, id: HotkeyId)
    ensures
        before.insert(os_id, id).contains_key(os_id),
        before.insert(os_id, id)[os_id] == id,
{
}

} // verus!
