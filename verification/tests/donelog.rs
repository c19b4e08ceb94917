use clipnotex::donelog::dates::{local_today, parse_local_date, LocalDate, LocalTime};
use clipnotex::donelog::export::to_markdown;
use clipnotex::donelog::store::{entry_aad, find_captured_at, find_index_key, index_key, most_recent, newest_first};
use clipnotex::donelog::{ContentKind, DoneEntry, DoneOverlay, DoneView, EditOp};
use clipnotex::ids::ClipId;
use clipnotex::model::SourceApp;

fn source(name: &str) -> SourceApp {
    SourceApp {
        bundle_id: None,
        exe_basename: None,
        exe_path: None,
        display_name: name.into(),
        window_title: None,
    }
}

fn make_view(body: &str, note: Option<&str>, tags: &[&str]) -> DoneView {
    let now_ms = chrono::Utc::now().timestamp_millis();
    let entry = DoneEntry::new(ClipId::new(), now_ms, source("TestApp"), ContentKind::Text, body.to_string(), None);
    let mut overlay = DoneOverlay::default();
    if let Some(n) = note {
        overlay.set_note(n.to_string());
    }
    for t in tags {
        overlay.add_tag(t.to_string());
    }
    DoneView::new(entry, overlay)
}

fn fixed_view(captured_at: i64, hour: u32, minute: u32, body: &str) -> DoneView {
    let entry = DoneEntry {
        id: ClipId(captured_at as u128),
        date: LocalDate::from_ymd(2026, 5, 10).unwrap(),
        time: LocalTime::from_hms(hour, minute, 0).unwrap(),
        captured_at,
        source_app: source("Editor"),
        kind: ContentKind::Text,
        body: body.into(),
        attachment: None,
    };
    DoneView::new(entry, DoneOverlay::default())
}

#[test]
fn markdown_contains_body_and_tag() {
    let views = vec![make_view("finished the report", Some("great work"), &["work"])];
    let date = LocalDate::from_ymd(2026, 5, 10).unwrap();
    let md = to_markdown(&date, &views);
    assert!(md.contains("# DONE LOG — 2026-05-10"), "missing heading: {md}");
    assert!(md.contains("finished the report"), "missing body: {md}");
    assert!(md.contains("> 📝 great work"), "missing note: {md}");
    assert!(md.contains("`#work`"), "missing tag: {md}");
}

#[test]
fn markdown_empty_day() {
    let date = LocalDate::from_ymd(2026, 5, 10).unwrap();
    let md = to_markdown(&date, &[]);
    assert!(md.contains("記録なし"));
}

#[test]
fn markdown_digest_is_exact() {
    let date = LocalDate::from_ymd(2026, 5, 10).unwrap();
    let mut v = fixed_view(1, 9, 42, "  hello world \n");
    v.overlay.set_note(" important note ".into());
    v.overlay.add_tag("work".into());
    v.overlay.add_tag("rust".into());
    let blank = fixed_view(2, 18, 5, "   ");
    let md = to_markdown(&date, &[v, blank]);
    assert_eq!(
        md,
        "# DONE LOG — 2026-05-10\n\n## 09:42 — Editor\n\nhello world\n\n> 📝 important note\n\n`#work` `#rust`\n\n---\n\n## 18:05 — Editor\n\n---\n"
    );
    assert_eq!(to_markdown(&date, &[]), "# DONE LOG — 2026-05-10\n\n_（記録なし）_\n");
}

#[test]
fn user_body_overrides_entry_body() {
    let mut v = fixed_view(1, 8, 0, "first draft");
    assert_eq!(v.effective_body(), "first draft");
    v.overlay.set_body("edited".into());
    assert_eq!(v.effective_body(), "edited");
    assert_eq!(v.note(), None);
    assert!(matches!(v.overlay.history.last(), Some(EditOp::SetBody(b)) if b == "edited"));
    assert!(v.overlay.edited_at.is_some());
}

#[test]
fn tags_are_added_once_and_removed_once() {
    let mut o = DoneOverlay::default();
    o.add_tag("a".into());
    o.add_tag("b".into());
    o.add_tag("a".into());
    assert_eq!(o.tags, vec!["a".to_string(), "b".to_string()]);
    assert_eq!(o.history.len(), 2);
    o.remove_tag("a");
    assert_eq!(o.tags, vec!["b".to_string()]);
    o.remove_tag("zzz");
    assert_eq!(o.tags, vec!["b".to_string()]);
    assert_eq!(o.history.len(), 3);
    assert!(matches!(o.history.last(), Some(EditOp::RemoveTag(t)) if t == "a"));
}

#[test]
fn removing_an_added_tag_restores_the_tags() {
    let mut o = DoneOverlay::default();
    o.add_tag("x".into());
    let before = o.tags.clone();
    o.add_tag("new".into());
    o.remove_tag("new");
    assert_eq!(o.tags, before);
}

#[test]
fn dates_format_like_chrono() {
    assert_eq!(LocalDate::from_ymd(2026, 5, 10).unwrap().to_text(), "2026-05-10");
    assert_eq!(LocalDate::from_ymd(999, 1, 2).unwrap().to_text(), "0999-01-02");
    assert_eq!(LocalDate::from_ymd(-1, 12, 31).unwrap().to_text(), "-0001-12-31");
    assert_eq!(LocalDate::from_ymd(10000, 3, 4).unwrap().to_text(), "+10000-03-04");
    assert_eq!(LocalTime::from_hms(7, 5, 59).unwrap().hm_text(), "07:05");
}

#[test]
fn dates_are_validated() {
    assert!(LocalDate::from_ymd(2024, 2, 29).is_some());
    assert!(LocalDate::from_ymd(2023, 2, 29).is_none());
    assert!(LocalDate::from_ymd(1900, 2, 29).is_none());
    assert!(LocalDate::from_ymd(2000, 2, 29).is_some());
    assert!(LocalDate::from_ymd(2026, 4, 31).is_none());
    assert!(LocalDate::from_ymd(2026, 13, 1).is_none());
    assert!(LocalTime::from_hms(24, 0, 0).is_none());
}

#[test]
fn ordinal_and_index_key() {
    assert_eq!(LocalDate::from_ymd(2024, 3, 1).unwrap().ordinal(), 61);
    assert_eq!(LocalDate::from_ymd(2023, 3, 1).unwrap().ordinal(), 60);
    assert_eq!(LocalDate::from_ymd(2026, 12, 31).unwrap().ordinal(), 365);
    assert_eq!(LocalDate::from_ymd(2026, 5, 10).unwrap().index_key(), 2026130);
    let a = LocalDate::from_ymd(2025, 12, 31).unwrap().index_key();
    let b = LocalDate::from_ymd(2026, 1, 1).unwrap().index_key();
    assert!(a < b);
}

#[test]
fn entry_dates_are_real_dates() {
    let e = DoneEntry::new(ClipId(1), 1_700_000_000_000, source("x"), ContentKind::Url, "b".into(), None);
    assert!(LocalDate::from_ymd(e.date.year, e.date.month, e.date.day).is_some());
    assert!(e.date.year == 2023);
    assert_eq!(e.captured_at, 1_700_000_000_000);
}

#[test]
fn entries_are_dated_from_their_capture_time() {
    // Within a day of 1970-01-01T00:00:00Z in any time zone.
    let e = DoneEntry::new(ClipId(1), 0, source("x"), ContentKind::Text, "b".into(), None);
    let d = (e.date.year, e.date.month, e.date.day);
    assert!(d == (1969, 12, 31) || d == (1970, 1, 1) || d == (1970, 1, 2), "{d:?}");
    let f = DoneEntry::new(ClipId(2), 951_782_400_000, source("x"), ContentKind::Text, "b".into(), None);
    // 2000-02-29T00:00:00Z.
    let d = (f.date.year, f.date.month, f.date.day);
    assert!(d == (2000, 2, 28) || d == (2000, 2, 29) || d == (2000, 3, 1), "{d:?}");
}

#[test]
fn aad_is_big_endian_capture_time() {
    for v in [0i64, 1, -1, 1_700_000_000_123, i64::MIN, i64::MAX] {
        assert_eq!(entry_aad(v), v.to_be_bytes());
    }
}

#[test]
fn index_key_and_captured_at_lookup() {
    let v = fixed_view(42, 1, 2, "x");
    let k = index_key(&v.entry);
    assert_eq!(k.0, 2026130);
    assert_eq!(k.1, 42);
    assert_eq!(k.2, ClipId(42).as_bytes());
    let keys = vec![
        (1, 7, ClipId(1).as_bytes()),
        (1, 9, ClipId(2).as_bytes()),
        (2, 11, ClipId(2).as_bytes()),
    ];
    assert_eq!(find_captured_at(&keys, &ClipId(2)), Some(9));
    assert_eq!(find_captured_at(&keys, &ClipId(3)), None);
    assert_eq!(find_index_key(&keys, &ClipId(2)), Some((1, 9, ClipId(2).as_bytes())));
    assert_eq!(find_index_key(&keys, &ClipId(3)), None);
}

#[test]
fn date_texts_parse_as_chrono_reads_them() {
    assert_eq!(parse_local_date("2026-05-10"), Ok(LocalDate::from_ymd(2026, 5, 10).unwrap()));
    assert_eq!(parse_local_date("2024-02-29"), Ok(LocalDate::from_ymd(2024, 2, 29).unwrap()));
    for bad in ["2026-13-01", "2023-02-29", "yesterday", "", "2026/05/10"] {
        let e = parse_local_date(bad).unwrap_err();
        assert!(e.starts_with("invalid date: "), "{bad}: {e}");
        assert!(e.len() > "invalid date: ".len());
    }
    let t = local_today();
    assert!(LocalDate::from_ymd(t.year, t.month, t.day).is_some());
}

#[test]
fn recent_entries_newest_first() {
    let views = vec![fixed_view(1, 1, 0, "a"), fixed_view(3, 1, 0, "c"), fixed_view(2, 1, 0, "b")];
    let r = most_recent(views, 2);
    assert_eq!(r.len(), 2);
    assert_eq!(r[0].entry.body, "c");
    assert_eq!(r[1].entry.body, "b");
    let mut all = vec![fixed_view(5, 1, 0, "x"), fixed_view(5, 1, 0, "y"), fixed_view(9, 1, 0, "z")];
    newest_first(&mut all);
    let bodies: Vec<&str> = all.iter().map(|v| v.entry.body.as_str()).collect();
    assert_eq!(bodies, vec!["z", "x", "y"]);
}
