use clipnotex::error::CnxError;
use clipnotex::ids::{ClipId, HotkeyId};
use clipnotex::model::{ClipKind, SourceApp};
use clipnotex::settings::{
    default_exclusions, default_shortcuts, EvictionPolicy, ExclusionRule, HistoryConfig, Settings,
};

#[test]
fn clip_id_is_unique() {
    let a = ClipId::new();
    let b = ClipId::new();
    assert_ne!(a, b, "freshly generated ClipIds must differ");
}

#[test]
fn clip_id_as_bytes_is_16() {
    assert_eq!(ClipId::new().as_bytes().len(), 16);
}

#[test]
fn hotkey_id_ordering_matches_declaration() {
    assert!(HotkeyId::ShowHistory < HotkeyId::ShowSnippets);
    assert!(HotkeyId::ShowSnippets < HotkeyId::DoneCapture);
}

#[test]
fn clip_kind_equality() {
    assert_eq!(ClipKind::Image, ClipKind::Image);
    assert_ne!(ClipKind::Image, ClipKind::Text);
}

#[test]
fn default_settings_are_sane() {
    let s = Settings::default();
    assert_eq!(s.version, 1);
    assert!(s.respect_concealed_pasteboard);
    assert_eq!(s.shortcuts.len(), 6);
    for id in [
        HotkeyId::ShowHistory,
        HotkeyId::ShowSnippets,
        HotkeyId::PastePlain,
        HotkeyId::PasteFormat,
        HotkeyId::PasteFull,
        HotkeyId::DoneCapture,
    ] {
        assert!(s.shortcuts.contains_key(&id), "missing default for {id:?}");
    }
}

#[test]
fn default_history_config() {
    let h = HistoryConfig::default();
    assert_eq!(h.max_items, 1000);
    assert!(h.keep_pinned);
    assert_eq!(h.eviction_policy, EvictionPolicy::SizePriority);
}

#[test]
fn default_exclusions_cover_password_managers() {
    let s = Settings::default();
    let has_1pw = s
        .exclusions
        .iter()
        .any(|r| matches!(r, ExclusionRule::BundleId(id) if id.contains("1password")));
    assert!(has_1pw, "1Password should be excluded by default");
}

#[test]
fn clip_id_bytes_round_trip() {
    let id = ClipId(0x0123_4567_89ab_cdef_fedc_ba98_7654_3210);
    let b = id.as_bytes();
    assert_eq!(b[0], 0x01);
    assert_eq!(b[15], 0x10);
    assert_eq!(ClipId::from_bytes(b), id);
}

#[test]
fn clip_id_text_round_trip() {
    let id = ClipId::new();
    let t = id.to_text();
    assert_eq!(t.len(), 26);
    assert_eq!(ClipId::parse(&t), Ok(id));
    assert_eq!(ClipId(0).to_text(), "00000000000000000000000000");
}

#[test]
fn clip_id_parse_rejects_garbage() {
    assert!(ClipId::parse("not-a-ulid").is_err());
}

#[test]
fn default_shortcuts_list_hotkeys_in_order() {
    let m = clipnotex::settings::default_shortcuts();
    assert_eq!(
        m.hotkeys(),
        vec![
            HotkeyId::ShowHistory,
            HotkeyId::ShowSnippets,
            HotkeyId::PastePlain,
            HotkeyId::PasteFormat,
            HotkeyId::PasteFull,
            HotkeyId::DoneCapture,
        ]
    );
    assert_eq!(m.get(&HotkeyId::ShowHistory).unwrap().macos.as_deref(), Some("Cmd+Shift+V"));
    assert_eq!(m.get(&HotkeyId::ShowHistory).unwrap().windows.as_deref(), Some("Ctrl+Shift+V"));
    assert_eq!(m.get(&HotkeyId::DoneCapture).unwrap().macos.as_deref(), Some("Cmd+Shift+D"));
}

#[test]
fn clip_id_text_is_crockford_base32() {
    let id = ClipId(0x41414141414141414141414141414141);
    assert_eq!(id.to_text(), "21850M2GA1850M2GA1850M2GA1");
    assert_eq!(ClipId(0x4d4e385051444a59454234335a413756).to_text(), "2D9RW50MA499CMAGHM6DD42DTP");
    assert_eq!(ClipId::parse("2d9rw50ma499cmaghm6dd42dtp"), Ok(ClipId(0x4d4e385051444a59454234335a413756)));
    assert_eq!(ClipId::parse("2D9RW50MA499CMAGHM6DD42DT"), Err("invalid length".to_string()));
    assert_eq!(ClipId::parse("2D9RW50IA499CMAGHM6DD42DTP"), Err("invalid character".to_string()));
    assert_eq!(ClipId(u128::MAX).to_text(), "7ZZZZZZZZZZZZZZZZZZZZZZZZZ");
}

#[test]
fn default_shortcut_bindings() {
    let m = default_shortcuts();
    let b = m.get(&HotkeyId::ShowHistory).unwrap();
    assert_eq!(b.macos.as_deref(), Some("Cmd+Shift+V"));
    assert_eq!(b.windows.as_deref(), Some("Ctrl+Shift+V"));
    let f = m.get(&HotkeyId::PasteFull).unwrap();
    assert_eq!(f.windows.as_deref(), Some("Ctrl+Shift+Alt+F"));
}

#[test]
fn default_exclusions_listed_in_order() {
    let r = default_exclusions();
    assert_eq!(r.len(), 7);
    assert!(matches!(&r[2], ExclusionRule::BundleId(s) if s == "com.bitwarden.desktop"));
    assert!(matches!(&r[6], ExclusionRule::ExeBasename { name, fuzzy: true } if name == "KeePassXC"));
}

#[test]
fn unknown_source_app_is_empty() {
    let s = SourceApp::default();
    assert!(s.bundle_id.is_none());
    assert_eq!(s.display_name, "");
}

#[test]
fn error_messages_name_their_kind() {
    assert_eq!(CnxError::Storage("x".into()).message(), "storage: x");
    assert_eq!(CnxError::NotFound.message(), "not found");
    assert_eq!(CnxError::Other("plain".into()).message(), "plain");
}
