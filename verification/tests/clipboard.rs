use clipnotex::bus::SkipReason;
use clipnotex::capture::{build_clip_item, capture_action, eviction_target, is_text, synthesize_text_capture, CaptureAction};
use clipnotex::clipboard::dib::{dib_to_bmp, dib_to_png};
use clipnotex::clipboard::{current, detect_source, CapturedItem, ClipboardWriter, SelfWriteGuard, WinWriter};
use clipnotex::error::CnxError;
use clipnotex::model::{ClipKind, Compression, PayloadData, PayloadStorage, SourceApp};
use clipnotex::settings::{EvictionPolicy as Priority, HistoryConfig};
use clipnotex::store::history::EvictionPolicy;

fn payload(format: &str, bytes: &[u8]) -> PayloadData {
    PayloadData { format_id: format.into(), bytes: bytes.to_vec() }
}

fn capture(payloads: Vec<PayloadData>) -> CapturedItem {
    CapturedItem { source_app: SourceApp::default(), payloads, primary_kind: ClipKind::Text, digest: [3; 32], captured_at: 77 }
}

#[test]
fn registers_and_recalls() {
    let mut g = SelfWriteGuard::new(500);
    let d = [7u8; 32];
    assert!(!g.contains(&d));
    g.register(d);
    assert!(g.contains(&d));
}

#[test]
fn expires_after_ttl() {
    let mut g = SelfWriteGuard::new(10);
    let d = [9u8; 32];
    g.register_at(d, 1_000);
    assert!(g.contains_at(&d, 1_010));
    assert!(!g.contains_at(&d, 1_030));
}

#[test]
fn guard_keeps_at_most_sixty_four_digests() {
    let mut g = SelfWriteGuard::new(1_000_000);
    for i in 0..65u8 {
        g.register_at([i; 32], 5);
    }
    assert!(!g.contains_at(&[0; 32], 5));
    assert!(g.contains_at(&[1; 32], 5));
    assert!(g.contains_at(&[64; 32], 5));
}

#[test]
fn dib_too_short_rejected() {
    assert!(dib_to_png(&[0u8; 39]).is_err());
}

#[test]
fn dib_bisize_overflow_rejected() {
    let mut raw = vec![0u8; 40];
    raw[0..4].copy_from_slice(&9999u32.to_le_bytes());
    assert!(dib_to_png(&raw).is_err());
}

#[test]
fn dib_errors_say_why() {
    assert!(matches!(dib_to_bmp(&[0u8; 39]), Err(CnxError::Clipboard(m)) if m == "CF_DIB too short (39 bytes, need ≥ 40)"));
    let mut raw = vec![0u8; 40];
    raw[0..4].copy_from_slice(&9999u32.to_le_bytes());
    assert!(matches!(dib_to_bmp(&raw), Err(CnxError::Clipboard(m)) if m == "BITMAPINFOHEADER biSize (9999) > buffer length (40)"));
}

fn one_pixel_dib() -> Vec<u8> {
    let mut raw = Vec::new();
    raw.extend_from_slice(&40u32.to_le_bytes());
    raw.extend_from_slice(&1i32.to_le_bytes());
    raw.extend_from_slice(&1i32.to_le_bytes());
    raw.extend_from_slice(&1u16.to_le_bytes());
    raw.extend_from_slice(&24u16.to_le_bytes());
    raw.extend_from_slice(&[0u8; 24]);
    raw.extend_from_slice(&[0, 0, 255, 0]);
    raw
}

#[test]
fn dib_gets_a_file_header() {
    let raw = one_pixel_dib();
    let bmp = dib_to_bmp(&raw).unwrap();
    assert_eq!(&bmp[0..2], b"BM");
    assert_eq!(u32::from_le_bytes(bmp[2..6].try_into().unwrap()), 14 + raw.len() as u32);
    assert_eq!(&bmp[6..10], &[0, 0, 0, 0]);
    assert_eq!(u32::from_le_bytes(bmp[10..14].try_into().unwrap()), 54);
    assert_eq!(&bmp[14..], &raw[..]);
}

#[test]
fn dib_converts_to_png() {
    let png = dib_to_png(&one_pixel_dib()).unwrap();
    assert_eq!(&png[..8], &[0x89, b'P', b'N', b'G', 0x0d, 0x0a, 0x1a, 0x0a]);
}

#[test]
fn undecodable_dib_is_a_clipboard_error() {
    let mut raw = vec![0u8; 40];
    raw[0..4].copy_from_slice(&40u32.to_le_bytes());
    assert!(matches!(dib_to_png(&raw), Err(CnxError::Clipboard(m)) if m.starts_with("DIB decode: ")));
}

#[test]
fn windows_writer_is_not_ready() {
    let w = WinWriter::new().unwrap();
    assert!(matches!(w.write(&[]), Err(CnxError::Clipboard(m)) if m == "WinWriter::write not yet implemented"));
    assert!(w.snapshot_for_restore().is_err());
    assert!(detect_source().is_none());
    assert_eq!(current().display_name, "");
}

#[test]
fn text_formats() {
    assert!(is_text("public.utf8-plain-text"));
    assert!(is_text("CF_OEMTEXT"));
    assert!(!is_text("public.png"));
    assert!(!is_text("text/plain"));
}

#[test]
fn clip_item_from_capture() {
    let long: String = "é".repeat(300);
    let c = capture(vec![payload("public.png", &[1, 2, 3]), payload("CF_UNICODETEXT", long.as_bytes())]);
    let item = build_clip_item(&c);
    assert_eq!(item.created_at, 77);
    assert_eq!(item.updated_at, 77);
    assert_eq!(item.digest, [3; 32]);
    assert_eq!(item.text_preview.as_deref().map(|p| p.chars().count()), Some(256));
    assert_eq!(item.total_bytes, 3 + 600);
    assert!(!item.pinned);
    assert_eq!(item.payloads.len(), 2);
    assert_eq!(item.payloads[0].format_id, "public.png");
    assert_eq!(item.payloads[0].raw_size, 3);
    assert!(matches!(&item.payloads[0].storage, PayloadStorage::Inline(b) if b == &vec![1u8, 2, 3]));
    assert_eq!(item.payloads[1].format_id, "CF_UNICODETEXT");
    assert_eq!(item.payloads[1].compression, Compression::Uncompressed);
    assert!(matches!(&item.payloads[1].storage, PayloadStorage::Inline(b) if b == long.as_bytes()));
}

#[test]
fn preview_needs_utf8_in_the_first_text_payload() {
    let c = capture(vec![payload("CF_TEXT", &[0xff, 0xfe]), payload("public.utf8-plain-text", b"ok")]);
    assert_eq!(build_clip_item(&c).text_preview, None);
    let none = capture(vec![payload("public.png", b"abc")]);
    assert_eq!(build_clip_item(&none).text_preview, None);
}

#[test]
fn excluded_captures_are_skipped() {
    let c = capture(vec![payload("public.utf8-plain-text", b"secret")]);
    assert!(matches!(capture_action(&c, true), CaptureAction::Skip(SkipReason::Excluded)));
    match capture_action(&c, false) {
        CaptureAction::Store(item) => assert_eq!(item.text_preview.as_deref(), Some("secret")),
        _ => panic!("expected a record"),
    }
}

#[test]
fn synthesized_capture_carries_text_and_digest() {
    let c = synthesize_text_capture("hello");
    assert_eq!(c.payloads.len(), 1);
    assert_eq!(c.payloads[0].format_id, "public.utf8-plain-text");
    assert_eq!(c.payloads[0].bytes, b"hello");
    assert_eq!(c.digest, *blake3::hash(b"hello").as_bytes());
    assert_ne!(c.digest[..5], b"hello"[..]);
    assert_eq!(c.primary_kind, ClipKind::Text);
}

#[test]
fn quota_follows_history_settings() {
    let mut cfg = HistoryConfig::default();
    assert!(matches!(eviction_target(&cfg), EvictionPolicy::UntilBytes(b) if b == 500 * 1024 * 1024));
    cfg.eviction_policy = Priority::CountPriority;
    assert!(matches!(eviction_target(&cfg), EvictionPolicy::UntilCount(1000)));
}
