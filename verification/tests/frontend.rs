use clipnotex::bus::{CoreEvent, SkipReason};
use clipnotex::api::{callback_for, FrontendCallback};
use clipnotex::api::{
    clamp_limit, map_hk, paste_mode_from_code, set_last_error, take_last_error, unmap_hk, CnxHotkeyId, CnxStatus,
    UpdateOverlayArgs,
};
use clipnotex::commands::{
    command_limit, detect_lang, find_by_id_text, language_label, parse_clip_id, parse_lang, paste_payloads,
    ClipItemSummary, DoneViewSummary, FormatPreviewResult, PasteArgs,
};
use clipnotex::donelog::dates::{LocalDate, LocalTime};
use clipnotex::donelog::{ContentKind, DoneEntry, DoneOverlay, DoneView};
use clipnotex::format::Language;
use clipnotex::hotkey::Platform;
use clipnotex::ids::{ClipId, HotkeyId};
use clipnotex::model::{BlobId, ClipItem, ClipKind, Compression, PayloadRef, PayloadStorage, SourceApp};
use clipnotex::paste::PasteMode;
use clipnotex::settings::default_shortcuts;
use clipnotex::setup::{
    key_source, menu_action, next_open_step, open_attempt, place_near_cursor, shortcut_accelerators, toggle_action,
    toggles_history, BaseDir, MenuAction, OpenStep, StoreKind, WindowAction,
};
use clipnotex::store::aead::KeySource;
use clipnotex::thumbnail::{cache_path_for, thumbnail_png, ThumbnailState, THUMB_SIZE};

fn item(id: u128, preview: Option<&str>, payloads: Vec<PayloadRef>) -> ClipItem {
    ClipItem {
        id: ClipId(id),
        created_at: 5,
        updated_at: 5,
        source_app: SourceApp { display_name: "Term".into(), ..SourceApp::default() },
        primary_kind: ClipKind::Files,
        payloads,
        digest: [0; 32],
        text_preview: preview.map(|s| s.to_string()),
        pinned: true,
        tags: vec![],
        total_bytes: 0,
    }
}

#[test]
fn status_and_hotkey_codes() {
    assert_eq!(CnxStatus::Success.code(), 0);
    assert_eq!(CnxStatus::StorageError.code(), -3);
    assert_eq!(CnxStatus::InternalError.code(), -99);
    assert_eq!(CnxHotkeyId::DoneCapture.code(), 6);
    for code in 1..=6 {
        assert_eq!(unmap_hk(map_hk(code).unwrap()), code);
    }
    assert_eq!(map_hk(0), None);
    assert_eq!(map_hk(7), None);
    assert_eq!(map_hk(4), Some(HotkeyId::PasteFormat));
}

#[test]
fn paste_modes_and_limits() {
    assert!(matches!(paste_mode_from_code(1), PasteMode::Plain));
    assert!(matches!(paste_mode_from_code(2), PasteMode::Format(r) if r.lang.is_none()));
    assert!(matches!(paste_mode_from_code(3), PasteMode::Full));
    assert!(matches!(paste_mode_from_code(0), PasteMode::Normal));
    assert!(matches!(paste_mode_from_code(-5), PasteMode::Normal));
    assert_eq!(clamp_limit(0), 1);
    assert_eq!(clamp_limit(50), 50);
    assert_eq!(clamp_limit(5000), 200);
    assert_eq!(command_limit(None), 50);
    assert_eq!(command_limit(Some(0)), 0);
    assert_eq!(command_limit(Some(999)), 200);
}

#[test]
fn last_error_is_taken_once() {
    let mut slot = None;
    set_last_error(&mut slot, "boom".to_string());
    assert_eq!(take_last_error(&mut slot), Some("boom".to_string()));
    assert_eq!(take_last_error(&mut slot), None);
}

#[test]
fn overlay_edits_apply_in_order() {
    let mut o = DoneOverlay::default();
    o.add_tag("old".into());
    let args = UpdateOverlayArgs {
        id: "ignored".into(),
        note: Some("n".into()),
        body: None,
        add_tags: vec!["a".into(), "old".into(), "b".into()],
        remove_tags: vec!["old".into(), "zz".into()],
    };
    args.apply_to(&mut o);
    assert_eq!(o.user_note.as_deref(), Some("n"));
    assert!(o.user_body.is_none());
    assert_eq!(o.tags, vec!["a".to_string(), "b".to_string()]);
    let kinds: Vec<String> = o.history.iter().map(|e| format!("{e:?}")).collect();
    assert_eq!(
        kinds,
        vec![
            "AddTag(\"old\")".to_string(),
            "SetNote(\"n\")".to_string(),
            "AddTag(\"a\")".to_string(),
            "AddTag(\"b\")".to_string(),
            "RemoveTag(\"old\")".to_string(),
        ]
    );
    assert!(o.edited_at.is_some());
}

#[test]
fn overlay_request_without_effect_changes_nothing() {
    let mut o = DoneOverlay::default();
    let args = UpdateOverlayArgs {
        id: "ignored".into(),
        note: None,
        body: None,
        add_tags: vec![],
        remove_tags: vec!["absent".into()],
    };
    args.apply_to(&mut o);
    assert!(o.history.is_empty());
    assert!(o.edited_at.is_none());
    assert!(o.tags.is_empty());
}

#[test]
fn language_names() {
    assert_eq!(parse_lang("JSON"), Some(Language::Json));
    assert_eq!(parse_lang("md"), Some(Language::Markdown));
    assert_eq!(parse_lang("Text"), Some(Language::PlainText));
    assert_eq!(parse_lang("ts"), Some(Language::TypeScript));
    assert_eq!(parse_lang("auto"), None);
    assert_eq!(language_label(&Language::JavaScript), "javascript");
    assert_eq!(language_label(&Language::Other("AbC".into())), "other(\"abc\")");
    assert_eq!(detect_lang("SELECT 1"), Some("sql".to_string()));
    assert_eq!(detect_lang("prose"), None);
    assert_eq!(FormatPreviewResult::of(&Language::PlainText, "x".into()).detected_lang, "plaintext");
}

#[test]
fn ids_from_the_front_end() {
    let id = ClipId(12345);
    assert_eq!(parse_clip_id(&id.to_text()), Ok(id));
    assert!(parse_clip_id("zz").unwrap_err().starts_with("invalid id: "));
}

#[test]
fn summaries() {
    let s = ClipItemSummary::of_item(&item(1, None, vec![]));
    assert_eq!(s.id, ClipId(1).to_text());
    assert_eq!(s.kind, "Files");
    assert_eq!(s.source_app, "Term");
    assert_eq!(s.preview, "");
    assert!(s.pinned);
    let mut overlay = DoneOverlay::default();
    overlay.set_note("note".into());
    overlay.add_tag("t".into());
    let entry = DoneEntry {
        id: ClipId(2),
        date: LocalDate::from_ymd(2026, 1, 9).unwrap(),
        time: LocalTime::from_hms(23, 59, 1).unwrap(),
        captured_at: 0,
        source_app: SourceApp { display_name: "App".into(), ..SourceApp::default() },
        kind: ContentKind::Url,
        body: "body".into(),
        attachment: None,
    };
    let d = DoneViewSummary::of_view(&DoneView::new(entry, overlay));
    assert_eq!(d.date, "2026-01-09");
    assert_eq!(d.time, "23:59");
    assert_eq!(d.kind, "Url");
    assert_eq!(d.body, "body");
    assert_eq!(d.note.as_deref(), Some("note"));
    assert_eq!(d.tags, vec!["t".to_string()]);
}

#[test]
fn paste_requests() {
    let args = PasteArgs { id: "x".into(), mode: "format".into(), format_lang: Some("SQL".into()), format_indent: Some(4) };
    match args.paste_mode() {
        PasteMode::Format(r) => {
            assert_eq!(r.lang, Some(Language::Sql));
            assert_eq!(r.opts.indent, Some(4));
        }
        _ => panic!("expected a format paste"),
    }
    let plain = PasteArgs { id: "x".into(), mode: "plain".into(), format_lang: None, format_indent: None };
    assert!(matches!(plain.paste_mode(), PasteMode::Plain));
    let other = PasteArgs { id: "x".into(), mode: "full".into(), format_lang: None, format_indent: None };
    assert!(matches!(other.paste_mode(), PasteMode::Normal));
}

#[test]
fn paste_payloads_of_records() {
    let from_preview = paste_payloads(&item(1, Some("hi"), vec![])).unwrap();
    assert_eq!(from_preview[0].format_id, "public.utf8-plain-text");
    assert_eq!(from_preview[0].bytes, b"hi");
    assert!(paste_payloads(&item(1, None, vec![])).is_none());
    let refs = vec![
        PayloadRef { format_id: "a".into(), compression: Compression::Uncompressed, storage: PayloadStorage::Inline(vec![1]), raw_size: 1 },
        PayloadRef { format_id: "b".into(), compression: Compression::Uncompressed, storage: PayloadStorage::Blob(BlobId([0; 32])), raw_size: 1 },
        PayloadRef { format_id: "c".into(), compression: Compression::Uncompressed, storage: PayloadStorage::Inline(vec![3]), raw_size: 1 },
    ];
    let ps = paste_payloads(&item(1, Some("ignored"), refs)).unwrap();
    let formats: Vec<&str> = ps.iter().map(|p| p.format_id.as_str()).collect();
    assert_eq!(formats, vec!["a", "c"]);
}

#[test]
fn records_found_by_id_text() {
    let items = vec![item(1, Some("a"), vec![]), item(2, Some("b"), vec![])];
    let found = find_by_id_text(items.clone(), &ClipId(2).to_text()).unwrap();
    assert_eq!(found.text_preview.as_deref(), Some("b"));
    assert!(find_by_id_text(items, "nope").is_none());
}

#[test]
fn start_up_decisions() {
    assert!(matches!(key_source(true), KeySource::Ephemeral));
    assert!(matches!(key_source(false), KeySource::Keyring { service, account } if service == "ClipNoteX" && account == "data_key"));
    let p = open_attempt(StoreKind::DoneLog, OpenStep::Primary, 9, true);
    assert_eq!(p.base, BaseDir::Data);
    assert_eq!(p.subdir.as_deref(), Some("donelog"));
    let f = open_attempt(StoreKind::History, OpenStep::Fallback, 4321, false);
    assert_eq!(f.base, BaseDir::Temp);
    assert_eq!(f.subdir.as_deref(), Some("clipnotex-fallback-4321"));
    assert!(matches!(f.keys, KeySource::Ephemeral));
    let l = open_attempt(StoreKind::DoneLog, OpenStep::LastResort, 7, false);
    assert_eq!(l.subdir.as_deref(), Some("clipnotex-donelog-last-7"));
    assert_eq!(next_open_step(OpenStep::Primary), Some(OpenStep::Fallback));
    assert_eq!(next_open_step(OpenStep::LastResort), None);
}

#[test]
fn shortcuts_to_register() {
    let m = default_shortcuts();
    let win = shortcut_accelerators(&m, Platform::Windows);
    assert_eq!(win.len(), 6);
    assert_eq!(win[0], (HotkeyId::ShowHistory, "Ctrl+Shift+V".to_string()));
    assert_eq!(win[5], (HotkeyId::DoneCapture, "Ctrl+Shift+D".to_string()));
    let mac = shortcut_accelerators(&m, Platform::MacOs);
    assert_eq!(mac[2], (HotkeyId::PastePlain, "Cmd+Ctrl+V".to_string()));
}

#[test]
fn window_goes_near_the_cursor() {
    assert_eq!(place_near_cursor(300, 200, 100, 100, 0, 0, 1920, 1080), (108, 108));
    assert_eq!(place_near_cursor(300, 200, 1800, 1000, 0, 0, 1920, 1080), (1612, 872));
    assert_eq!(place_near_cursor(3000, 200, 10, 10, 0, 0, 1920, 1080), (8, 18));
    assert_eq!(place_near_cursor(300, 200, 2000, 50, 1920, 0, 1280, 1024), (2008, 58));
}

#[test]
fn window_toggling_and_tray() {
    assert_eq!(toggle_action(Some(true), Some(false)), WindowAction::Focus);
    assert_eq!(toggle_action(Some(true), Some(true)), WindowAction::Hide);
    assert_eq!(toggle_action(Some(true), None), WindowAction::Hide);
    assert_eq!(toggle_action(Some(false), Some(true)), WindowAction::ShowNearCursor);
    assert_eq!(toggle_action(None, None), WindowAction::ShowNearCursor);
    assert_eq!(menu_action("show"), Some(MenuAction::ShowHistory));
    assert_eq!(menu_action("quit"), Some(MenuAction::Quit));
    assert_eq!(menu_action("other"), None);
    assert!(toggles_history(HotkeyId::ShowHistory));
    assert!(!toggles_history(HotkeyId::PasteFull));
}

fn one_pixel_png() -> Vec<u8> {
    let img = image::RgbaImage::from_pixel(1, 1, image::Rgba([255, 255, 255, 255]));
    let mut buf = Vec::new();
    image::DynamicImage::ImageRgba8(img)
        .write_to(&mut std::io::Cursor::new(&mut buf), image::ImageFormat::Png)
        .unwrap();
    buf
}

#[test]
fn generate_1x1_png() {
    let out = thumbnail_png(&one_pixel_png()).unwrap();
    assert_eq!(&out[1..4], b"PNG");
}

#[test]
fn empty_bytes_fails_gracefully() {
    let result = thumbnail_png(&[]);
    assert!(result.is_err(), "empty input should return Err");
}

#[test]
fn non_png_input_is_rejected() {
    let img = image::RgbaImage::from_pixel(1, 1, image::Rgba([10, 20, 30, 255]));
    let mut jpeg = Vec::new();
    image::DynamicImage::ImageRgba8(img)
        .to_rgb8()
        .write_to(&mut std::io::Cursor::new(&mut jpeg), image::ImageFormat::Jpeg)
        .unwrap();
    let result = thumbnail_png(&jpeg);
    assert!(result.is_err(), "non-PNG image must be rejected by the PNG-pinned decoder");
}

#[test]
fn bmp_input_is_rejected_too() {
    let img = image::RgbImage::from_pixel(1, 1, image::Rgb([10, 20, 30]));
    let mut bmp = Vec::new();
    image::DynamicImage::ImageRgb8(img)
        .write_to(&mut std::io::Cursor::new(&mut bmp), image::ImageFormat::Bmp)
        .unwrap();
    assert!(image::load_from_memory(&bmp).is_ok());
    assert!(thumbnail_png(&bmp).is_err());
}

#[test]
fn thumbnails_shrink_and_are_cached_by_id() {
    let img = image::RgbaImage::from_pixel(64, 128, image::Rgba([1, 2, 3, 255]));
    let mut buf = Vec::new();
    image::DynamicImage::ImageRgba8(img)
        .write_to(&mut std::io::Cursor::new(&mut buf), image::ImageFormat::Png)
        .unwrap();
    let thumb = image::load_from_memory(&thumbnail_png(&buf).unwrap()).unwrap();
    assert_eq!((thumb.width(), thumb.height()), (THUMB_SIZE / 2, THUMB_SIZE));
    let id = ClipId(77);
    let t = id.to_text();
    assert_eq!(cache_path_for("/cache", &id), format!("/cache/{}/{}.png", &t[..2], &t[2..]));
    assert!(matches!(ThumbnailState::Ready("p".into()), ThumbnailState::Ready(_)));
}

#[test]
fn events_reach_the_right_callback() {
    assert_eq!(callback_for(&CoreEvent::HotkeyPressed(HotkeyId::PastePlain)), Some(FrontendCallback::Hotkey(3)));
    assert_eq!(callback_for(&CoreEvent::ClipboardCaptured(ClipId(1))), Some(FrontendCallback::Captured));
    assert_eq!(callback_for(&CoreEvent::ClipboardSkipped { reason: SkipReason::Excluded }), None);
    assert_eq!(callback_for(&CoreEvent::SettingsChanged), None);
}
