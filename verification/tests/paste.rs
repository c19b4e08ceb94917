use clipnotex::paste::{paste_key_sequence, KeyDirection, SynthKey};
use clipnotex::hotkey::Platform;
use clipnotex::error::CnxError;
use clipnotex::format::{detect, FormatOptions, FormatService, Language};
use clipnotex::model::PayloadData;
use clipnotex::paste::{
    extract_text, ime_state_of, log_ime_state, query_focused_ime, stage_b_next, try_direct_inject, FormatRequest,
    ImeState, PasteAttempt, PasteController, PasteMode, StageBAction, StageBEvent,
};

fn payload(format: &str, bytes: &[u8]) -> PayloadData {
    PayloadData { format_id: format.into(), bytes: bytes.to_vec() }
}

#[test]
fn extract_text_prefers_plain() {
    let payloads = vec![
        PayloadData { format_id: "public.png".into(), bytes: vec![0x89, 0x50] },
        PayloadData { format_id: "public.utf8-plain-text".into(), bytes: b"hello".to_vec() },
    ];
    assert_eq!(extract_text(&payloads), Some("hello".into()));
}

#[test]
fn format_json_pretty() {
    let svc = FormatService::new();
    let out = svc.format_as(&Language::Json, r#"{"b":2,"a":1}"#, &FormatOptions::default()).unwrap();
    assert!(out.contains("  \"a\": 1"), "got: {out}");
}

#[test]
fn format_auto_detects_json() {
    let text = r#"{"key":"value"}"#;
    let lang = detect(text).unwrap();
    assert_eq!(lang, Language::Json);
}

#[test]
fn format_auto_detects_sql() {
    let text = "SELECT id FROM users WHERE id = 1";
    let lang = detect(text).unwrap();
    assert_eq!(lang, Language::Sql);
}

#[test]
fn format_fallback_to_plaintext() {
    let text = "just some prose";
    assert_eq!(detect(text), None);
}

#[test]
fn plain_payload_extraction_fallback() {
    let payloads = vec![PayloadData { format_id: "com.example.custom".into(), bytes: b"fallback text".to_vec() }];
    assert_eq!(extract_text(&payloads), Some("fallback text".into()));
}

#[test]
fn extract_text_order_of_preference() {
    let ps = vec![
        payload("text/plain", b"last choice"),
        payload("CF_UNICODETEXT", b"third"),
        payload("public.plain-text", &[0xff]),
        payload("public.utf8-plain-text", &[0xc3]),
    ];
    assert_eq!(extract_text(&ps), Some("third".into()));
    assert_eq!(extract_text(&[payload("x", &[0xff]), payload("y", "ü".as_bytes())]), Some("ü".into()));
    assert_eq!(extract_text(&[payload("x", &[0xff])]), None);
    assert_eq!(extract_text(&[]), None);
}

#[test]
fn format_paste_writes_formatted_plain_text() {
    let pc = PasteController::new();
    assert_eq!(pc.restore_delay_ms(), 150);
    let out = pc
        .apply_format(&[payload("public.utf8-plain-text", br#"{"a":1}"#)], FormatRequest::default())
        .unwrap();
    assert_eq!(out.len(), 1);
    assert_eq!(out[0].format_id, "public.utf8-plain-text");
    assert_eq!(String::from_utf8(out[0].bytes.clone()).unwrap(), "{\n  \"a\": 1\n}");
    let prose = pc.apply_format(&[payload("public.utf8-plain-text", b"a\tb ")], FormatRequest::default()).unwrap();
    assert_eq!(prose[0].bytes, b"a    b\n");
    match pc.apply_format(&[payload("public.png", &[0xff])], FormatRequest::default()) {
        Err(CnxError::Other(m)) => assert_eq!(m, "format paste: no plain-text payload found"),
        other => panic!("unexpected {other:?}"),
    }
    let css = FormatRequest { lang: Some(Language::Css), opts: FormatOptions::default() };
    assert!(pc.apply_format(&[payload("public.utf8-plain-text", b"a{}")], css).is_err());
}

#[test]
fn preview_reports_the_language_used() {
    let pc = PasteController::new();
    let (l, s) = pc.format_preview("select 1", None, &FormatOptions::default()).unwrap();
    assert_eq!(l, Language::Sql);
    assert!(s.contains("SELECT"));
    let (l2, s2) = pc.format_preview("plain words  ", None, &FormatOptions::default()).unwrap();
    assert_eq!(l2, Language::PlainText);
    assert_eq!(s2, "plain words\n");
    let (l3, _) = pc.format_preview("# x", Some(Language::PlainText), &FormatOptions::default()).unwrap();
    assert_eq!(l3, Language::PlainText);
}

#[test]
fn paste_modes_choose_the_payloads() {
    let pc = PasteController::new();
    let ps = vec![payload("public.png", &[1]), payload("public.utf8-plain-text", b"[1,2]")];
    assert_eq!(pc.payloads_for(ps.clone(), PasteMode::Normal).unwrap().len(), 2);
    let plain = pc.payloads_for(ps.clone(), PasteMode::Plain).unwrap();
    assert_eq!(plain.len(), 1);
    assert_eq!(plain[0].format_id, "public.utf8-plain-text");
    assert_eq!(plain[0].bytes, b"[1,2]");
    assert!(matches!(
        pc.payloads_for(vec![payload("public.png", &[0xff])], PasteMode::Plain),
        Err(CnxError::Other(m)) if m == "plain paste: no plain-text payload found"
    ));
    let f = pc.payloads_for(ps, PasteMode::Format(FormatRequest::default())).unwrap();
    assert_eq!(f.len(), 1);
    assert_eq!(f[0].bytes, b"[\n  1,\n  2\n]");
}

#[test]
fn direct_injection_falls_back_in_order() {
    assert_eq!(stage_b_next(StageBEvent::Start), StageBAction::TryDirectInject);
    assert_eq!(stage_b_next(StageBEvent::DirectInject { ok: true }), StageBAction::Finish(PasteAttempt::DirectInject));
    assert_eq!(stage_b_next(StageBEvent::DirectInject { ok: false }), StageBAction::QueryIme);
    assert_eq!(stage_b_next(StageBEvent::ImeQueried(ImeState::On)), StageBAction::FallBackToClipboard);
    assert_eq!(stage_b_next(StageBEvent::ImeQueried(ImeState::Unknown)), StageBAction::TryUnicodeKeystroke);
    assert_eq!(stage_b_next(StageBEvent::UnicodeKeystroke { ok: false }), StageBAction::FallBackToClipboard);
    assert_eq!(stage_b_next(StageBEvent::ClipboardDone), StageBAction::Finish(PasteAttempt::ClipboardFallback));
    assert!(matches!(try_direct_inject("x"), Err(CnxError::Paste(m)) if m == "direct inject not yet implemented"));
}

#[test]
fn ime_state_decisions() {
    assert_eq!(ime_state_of(false, true, true), ImeState::Unknown);
    assert_eq!(ime_state_of(true, false, true), ImeState::Off);
    assert_eq!(ime_state_of(true, true, true), ImeState::On);
    assert_eq!(ime_state_of(true, true, false), ImeState::Off);
    assert_eq!(query_focused_ime(), ImeState::Unknown);
    assert_eq!(log_ime_state(), ImeState::Unknown);
}

#[test]
fn paste_shortcut_per_platform() {
    assert_eq!(
        paste_key_sequence(Platform::MacOs),
        vec![(SynthKey::Meta, KeyDirection::Press), (SynthKey::Code(0x09), KeyDirection::Click), (SynthKey::Meta, KeyDirection::Release)]
    );
    assert_eq!(paste_key_sequence(Platform::Windows)[1], (SynthKey::Code(0x56), KeyDirection::Click));
    assert_eq!(paste_key_sequence(Platform::Other)[1], (SynthKey::Unicode('v'), KeyDirection::Click));
}
