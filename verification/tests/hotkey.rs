use clipnotex::bus::CoreEvent;
use clipnotex::hotkey::{is_conflict_message, platform_accel, HotkeyBindings, Platform, RegisterOutcome};
use clipnotex::ids::HotkeyId;
use clipnotex::settings::ShortcutBinding;

#[test]
fn conflict_messages() {
    assert!(is_conflict_message("HotKey already registered"));
    assert!(is_conflict_message("access denied"));
    assert!(!is_conflict_message("unknown key"));
}

#[test]
fn registrations_are_reported() {
    let mut b = HotkeyBindings::new();
    let ok = b.record(HotkeyId::ShowHistory, "Ctrl+Shift+V", RegisterOutcome::Registered(7));
    assert!(ok.is_ok());
    assert_eq!(ok.accelerator, "Ctrl+Shift+V");
    let bad = b.record(HotkeyId::PastePlain, "Ctrl+??", RegisterOutcome::InvalidSyntax("bad key".into()));
    let f = bad.outcome.clone().unwrap_err();
    assert_eq!(f.reason, "invalid accelerator syntax: bad key");
    assert!(!f.is_conflict);
    let taken = b.record(HotkeyId::PasteFull, "Ctrl+F", RegisterOutcome::Rejected("already in use".into()));
    assert!(taken.clone().outcome.unwrap_err().is_conflict);
    assert!(!taken.is_ok());
}

#[test]
fn only_presses_of_registered_hotkeys_become_events() {
    let mut b = HotkeyBindings::new();
    b.record(HotkeyId::DoneCapture, "Ctrl+Shift+D", RegisterOutcome::Registered(3));
    assert!(matches!(b.event_for(3, true), Some(CoreEvent::HotkeyPressed(HotkeyId::DoneCapture))));
    assert!(b.event_for(3, false).is_none());
    assert!(b.event_for(4, true).is_none());
    b.clear();
    assert!(b.event_for(3, true).is_none());
}

#[test]
fn accelerators_per_platform() {
    let binding = ShortcutBinding { macos: Some("Cmd+V".into()), windows: None };
    assert_eq!(platform_accel(&binding, Platform::MacOs), Some("Cmd+V"));
    assert_eq!(platform_accel(&binding, Platform::Windows), None);
    assert_eq!(platform_accel(&binding, Platform::Other), None);
}
