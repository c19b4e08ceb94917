use clipnotex::format::{detect, FormatOptions, FormatService, Language};

#[test]
fn json_pretty_prints() {
    let svc = FormatService::new();
    let input = r#"{"b":2,"a":1}"#;
    let out = svc.format_as(&Language::Json, input, &FormatOptions::default()).unwrap();
    assert!(out.contains('\n'));
    assert!(out.contains("  \"a\": 1"));
}

#[test]
fn json_invalid_returns_error() {
    let svc = FormatService::new();
    let result = svc.format_as(&Language::Json, "not json", &FormatOptions::default());
    assert!(result.is_err());
}

#[test]
fn json_custom_indent() {
    let svc = FormatService::new();
    let out = svc
        .format_as(&Language::Json, r#"{"a":1}"#, &FormatOptions { indent: Some(4), ..Default::default() })
        .unwrap();
    assert!(out.contains("    \"a\": 1"));
}

#[test]
fn sql_uppercases_keywords() {
    let svc = FormatService::new();
    let out = svc
        .format_as(&Language::Sql, "select id from users where id=1", &FormatOptions::default())
        .unwrap();
    assert!(out.contains("SELECT"), "got: {out}");
    assert!(out.contains("FROM"), "got: {out}");
}

#[test]
fn markdown_trims_trailing_whitespace() {
    let svc = FormatService::new();
    let input = "# Heading   \n\nSome text  \n";
    let out = svc.format_as(&Language::Markdown, input, &FormatOptions::default()).unwrap();
    assert!(!out.contains("   "), "trailing spaces remain: {out:?}");
    assert!(out.ends_with('\n'));
}

#[test]
fn markdown_collapses_blank_lines() {
    let svc = FormatService::new();
    let input = "# A\n\n\n\nParagraph\n";
    let out = svc.format_as(&Language::Markdown, input, &FormatOptions::default()).unwrap();
    assert!(!out.contains("\n\n\n"), "excess blank lines: {out:?}");
}

#[test]
fn detect_json() {
    assert_eq!(detect(r#"{"key": "value"}"#), Some(Language::Json));
    assert_eq!(detect(r#"[1, 2, 3]"#), Some(Language::Json));
}

#[test]
fn detect_sql() {
    assert_eq!(detect("SELECT * FROM users"), Some(Language::Sql));
    assert_eq!(detect("  select id from t"), Some(Language::Sql));
}

#[test]
fn detect_markdown() {
    assert_eq!(detect("# Heading\n\nContent"), Some(Language::Markdown));
}

#[test]
fn detect_unknown_returns_none() {
    assert_eq!(detect("hello world"), None);
    assert_eq!(detect(""), None);
}

#[test]
fn markdown_output_is_exact() {
    let svc = FormatService::new();
    let out = svc
        .format_as(&Language::Markdown, "# A  \n\n\n\ntext \n```\ncode  \n```\n\n\n", &FormatOptions::default())
        .unwrap();
    assert_eq!(out, "# A\n\ntext\n```\ncode  \n```\n");
}

#[test]
fn markdown_of_blank_text_is_empty() {
    let svc = FormatService::new();
    let out = svc.format_as(&Language::Markdown, "  \n\n", &FormatOptions::default()).unwrap();
    assert_eq!(out, "");
}

#[test]
fn plaintext_expands_tabs_and_trims() {
    let svc = FormatService::new();
    let out = svc.format_as(&Language::PlainText, "a\tb  \r\n\n\n", &FormatOptions::default()).unwrap();
    assert_eq!(out, "a    b\n");
    let two = svc
        .format_as(&Language::PlainText, "\tx", &FormatOptions { indent: Some(2), ..Default::default() })
        .unwrap();
    assert_eq!(two, "  x\n");
}

#[test]
fn json_error_names_the_parser_failure() {
    let svc = FormatService::new();
    match svc.format_as(&Language::Json, "{", &FormatOptions::default()) {
        Err(clipnotex::error::CnxError::Other(m)) => assert!(m.starts_with("JSON parse error: "), "{m}"),
        other => panic!("unexpected {other:?}"),
    }
}

#[test]
fn unsupported_language_has_no_formatter() {
    let svc = FormatService::new();
    match svc.format_as(&Language::Css, "a{}", &FormatOptions::default()) {
        Err(clipnotex::error::CnxError::Other(m)) => assert_eq!(m, "no formatter for Css"),
        other => panic!("unexpected {other:?}"),
    }
    match svc.format_as(&Language::Other("x\"y".into()), "a", &FormatOptions::default()) {
        Err(clipnotex::error::CnxError::Other(m)) => assert_eq!(m, "no formatter for Other(\"x\\\"y\")"),
        other => panic!("unexpected {other:?}"),
    }
}

#[test]
fn detected_json_always_formats() {
    let svc = FormatService::new();
    let text = "  {\"k\": [1, 2]}  \n";
    assert_eq!(detect(text), Some(Language::Json));
    assert!(svc.format_as(&Language::Json, text, &FormatOptions::default()).is_ok());
}

#[test]
fn detect_is_case_insensitive_for_sql() {
    assert_eq!(detect("drop table t"), Some(Language::Sql));
    assert_eq!(detect("selection of words"), None);
}

#[test]
fn markdown_formatting_is_idempotent() {
    let svc = FormatService::default();
    let input = "# Title   \n\n\n\nText  \n```\ncode   \n\n\n```   \n\n";
    let once = svc.format_as(&Language::Markdown, input, &FormatOptions::default()).unwrap();
    let twice = svc.format_as(&Language::Markdown, &once, &FormatOptions::default()).unwrap();
    assert_eq!(once, twice);
    assert_eq!(once, "# Title\n\nText\n```\ncode   \n\n```\n");
    assert!(once.ends_with('\n') && !once.ends_with("\n\n") && !once.contains("\n\n\n"));
}
