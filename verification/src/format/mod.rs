//! Language detection and text formatting.
//!
//! Formatters implement [`Formatter`]; [`FormatService`] dispatches to the
//! first built-in formatter that handles a language, and [`detect`] guesses
//! the language of clipboard text.

use vstd::prelude::*;
use crate::error::{CnxError, Result};
use crate::text::{all_ws, chars_of, contains, contains_spec, is_ws, join_spec, lines_spec, push_all, push_str, starts_with, starts_with_spec, string_of, trim, trim_end_spec, trim_spec};

pub mod json;
pub mod markdown;
pub mod plaintext;
pub mod sql;

pub use json::JsonFormatter;
pub use markdown::MarkdownFormatter;
pub use plaintext::PlainTextFormatter;
pub use sql::SqlFormatter;

verus! {

#[derive(Clone, Debug, PartialEq, Eq)]
pub enum Language {
    Json,
    Sql,
    Markdown,
    Html,
    Css,
    JavaScript,
    TypeScript,
    Php,
    PlainText,
    Other(String),
}

#[derive(Clone, Debug, Default)]
pub struct FormatOptions {
    /// Indentation width in spaces (default: 2).
    pub indent: Option<u8>,
    /// Target line width (default: 120).
    pub line_width: Option<u16>,
    /// SQL dialect hint ("ansi" | "mysql" | "postgresql").
    pub dialect: Option<String>,
}

/// A formatter for one or more languages.
pub trait Formatter {
    /// The languages this formatter handles.
    spec fn handled(&self) -> Seq<Language>;

    /// The formatted text, or `None` when the input cannot be formatted.
    spec fn formatted(&self, input: Seq<char>, opts: FormatOptions) -> Option<Seq<char>>;

    /// The message of the failure, when formatting fails.
    spec fn failure(&self, input: Seq<char>, opts: FormatOptions) -> Seq<char>;

    /// The formatter's short name.
    spec fn id_text(&self) -> Seq<char>;

    fn id(&self) -> (r: &str)
        ensures
            r@ == self.id_text(),
    ;

    fn languages(&self) -> (r: Vec<Language>)
        ensures
            r@ == self.handled(),
    ;

    fn format(&self, input: &str, opts: &FormatOptions) -> (r: Result<String>)
        ensures
            r is Ok <==> self.formatted(input@, *opts) is Some,
            r matches Ok(s) ==> s@ == self.formatted(input@, *opts)->Some_0,
            r matches Err(e) ==> (e matches CnxError::Other(m) && m@ == self.failure(input@, *opts)),
    ;
}

/// The formatters the service dispatches to, in dispatch order.
pub enum BuiltinFormatter {
    Json(JsonFormatter),
    Sql(SqlFormatter),
    Markdown(MarkdownFormatter),
    PlainText(PlainTextFormatter),
}

pub open spec fn same_language(a: Language, b: Language) -> bool {
    match (a, b) {
        (Language::Other(x), Language::Other(y)) => x@ == y@,
        _ => a == b,
    }
}

/// The languages with a built-in formatter.
pub open spec fn has_formatter(lang: Language) -> bool {
    ||| lang is Json
    ||| lang is Sql
    ||| lang is Markdown
    ||| lang is PlainText
}

/// The failure message of formatting `input` as `lang`, when it fails:
/// only JSON that does not parse fails.
pub open spec fn format_failure_spec(lang: Language, input: Seq<char>) -> Seq<char> {
    match lang {
        Language::Json => "JSON parse error: "@ + json::json_error_text(trim_spec(input)),
        _ => Seq::empty(),
    }
}

/// What formatting `input` as `lang` gives, for a language with a formatter.
pub open spec fn format_as_spec(lang: Language, input: Seq<char>, opts: FormatOptions) -> Option<Seq<char>> {
    match lang {
        Language::Json => json::json_format_spec(input, opts),
        Language::Sql => Some(sql::sql_format_spec(input, opts)),
        Language::Markdown => Some(markdown::markdown_format_spec(input)),
        _ => Some(plaintext::plaintext_format_spec(input, opts)),
    }
}

impl BuiltinFormatter {
    pub open spec fn kind_language(&self) -> Language {
        match self {
            BuiltinFormatter::Json(_) => Language::Json,
            BuiltinFormatter::Sql(_) => Language::Sql,
            BuiltinFormatter::Markdown(_) => Language::Markdown,
            BuiltinFormatter::PlainText(_) => Language::PlainText,
        }
    }

    fn handles(&self, lang: &Language) -> (r: bool)
        ensures
            r == same_language(self.kind_language(), *lang),
    {
        match (self, lang) {
            (BuiltinFormatter::Json(_), Language::Json) => true,
            (BuiltinFormatter::Sql(_), Language::Sql) => true,
            (BuiltinFormatter::Markdown(_), Language::Markdown) => true,
            (BuiltinFormatter::PlainText(_), Language::PlainText) => true,
            _ => false,
        }
    }

    fn run(&self, input: &str, opts: &FormatOptions) -> (r: Result<String>)
        ensures
            r is Ok <==> format_as_spec(self.kind_language(), input@, *opts) is Some,
            r matches Ok(s) ==> s@ == format_as_spec(self.kind_language(), input@, *opts)->Some_0,
            r matches Err(e) ==> (e matches CnxError::Other(m) && m@ == format_failure_spec(self.kind_language(), input@)),
    {
        match self {
            BuiltinFormatter::Json(f) => f.format(input, opts),
            BuiltinFormatter::Sql(f) => f.format(input, opts),
            BuiltinFormatter::Markdown(f) => f.format(input, opts),
            BuiltinFormatter::PlainText(f) => f.format(input, opts),
        }
    }
}

/// Dispatches formatting requests to the built-in formatters.
pub struct FormatService {
    formatters: Vec<BuiltinFormatter>,
}

impl FormatService {
    /// The formatters are JSON, SQL, Markdown and plain text, in that order.
    pub closed spec fn well_formed(&self) -> bool {
        &&& self.formatters@.len() == 4
        &&& self.formatters@[0] is Json
        &&& self.formatters@[1] is Sql
        &&& self.formatters@[2] is Markdown
        &&& self.formatters@[3] is PlainText
    }

    pub fn new() -> (s: Self)
        ensures
            s.well_formed(),
    {
        let mut formatters: Vec<BuiltinFormatter> = Vec::new();
        formatters.push(BuiltinFormatter::Json(JsonFormatter));
        formatters.push(BuiltinFormatter::Sql(SqlFormatter));
        formatters.push(BuiltinFormatter::Markdown(MarkdownFormatter));
        formatters.push(BuiltinFormatter::PlainText(PlainTextFormatter));
        FormatService { formatters }
    }

    /// Format `input` as `lang` with the first formatter that handles it;
    /// `Err` when none does or when that formatter fails.
    pub fn format_as(&self, lang: &Language, input: &str, opts: &FormatOptions) -> (r: Result<String>)
        requires
            self.well_formed(),
        ensures
            has_formatter(*lang) ==> (r is Ok <==> format_as_spec(*lang, input@, *opts) is Some),
            has_formatter(*lang) ==> (r matches Ok(s) ==> s@ == format_as_spec(*lang, input@, *opts)->Some_0),
            has_formatter(*lang) ==> (r matches Err(e) ==> (e matches CnxError::Other(m) && m@ == format_failure_spec(*lang, input@))),
            !has_formatter(*lang) ==> (r matches Err(CnxError::Other(m)) && m@ == "no formatter for "@ + language_name(*lang)),
            r matches Err(e) ==> e is Other,
    {
        let mut i: usize = 0;
        while i < self.formatters.len()
            invariant
                self.well_formed(),
                i <= self.formatters.len(),
                forall|j: int| 0 <= j < i ==> !same_language(#[trigger] self.formatters@[j].kind_language(), *lang),
            decreases self.formatters.len() - i,
        {
            if self.formatters[i].handles(lang) {
                return self.formatters[i].run(input, opts);
            }
            i += 1;
        }
        proof {
            assert(!same_language(self.formatters@[0].kind_language(), *lang));
            assert(!same_language(self.formatters@[1].kind_language(), *lang));
            assert(!same_language(self.formatters@[2].kind_language(), *lang));
            assert(!same_language(self.formatters@[3].kind_language(), *lang));
        }
        let mut msg = chars_of("no formatter for ");
        let name = language_debug_name(lang);
        push_all(&mut msg, &name);
        Err(CnxError::Other(string_of(&msg)))
    }
}

/// Name for the `Debug` text of a string: the string in double quotes,
/// with the characters `Debug` escapes escaped.
pub uninterp spec fn debug_quoted_text(s: Seq<char>) -> Seq<char>;

/// Wraps `<str as Debug>::fmt` (through `format!("{s:?}")`); the result is
/// named [`debug_quoted_text`].
#[verifier::external_body]
fn debug_quoted(s: &str) -> (r: String)
    ensures
        r@ == debug_quoted_text(s@),
{
    format!("{s:?}")
}

/// The `Debug` text of a language.
pub open spec fn language_name(lang: Language) -> Seq<char> {
    match lang {
        Language::Json => "Json"@,
        Language::Sql => "Sql"@,
        Language::Markdown => "Markdown"@,
        Language::Html => "Html"@,
        Language::Css => "Css"@,
        Language::JavaScript => "JavaScript"@,
        Language::TypeScript => "TypeScript"@,
        Language::Php => "Php"@,
        Language::PlainText => "PlainText"@,
        Language::Other(s) => "Other("@ + debug_quoted_text(s@) + ")"@,
    }
}

impl Default for FormatService {
    /// The service with every built-in formatter.
    fn default() -> (s: Self)
        ensures
            s.well_formed(),
    {
        FormatService::new()
    }
}

/// The name a language is shown with in messages: its `Debug` text.
pub fn language_debug_name(lang: &Language) -> (r: Vec<char>)
    ensures
        r@ == language_name(*lang),
{
    match lang {
        Language::Json => chars_of("Json"),
        Language::Sql => chars_of("Sql"),
        Language::Markdown => chars_of("Markdown"),
        Language::Html => chars_of("Html"),
        Language::Css => chars_of("Css"),
        Language::JavaScript => chars_of("JavaScript"),
        Language::TypeScript => chars_of("TypeScript"),
        Language::Php => chars_of("Php"),
        Language::PlainText => chars_of("PlainText"),
        Language::Other(s) => {
            let mut v = chars_of("Other(");
            push_str(&mut v, debug_quoted(s.as_str()).as_str());
            push_str(&mut v, ")");
            v
        },
    }
}

// ---------------------------------------------------------------------------
// Auto-detection
// ---------------------------------------------------------------------------

/// Name for `str::to_uppercase` (Unicode upper-casing) of the given text.
pub uninterp spec fn uppercased(s: Seq<char>) -> Seq<char>;

/// Wraps `str::to_uppercase`; the result is named [`uppercased`].
#[verifier::external_body]
fn to_uppercase(s: &str) -> (r: String)
    ensures
        r@ == uppercased(s@),
{
    s.to_uppercase()
}

/// The statement keywords that mark text as SQL.
pub open spec fn sql_keywords() -> Seq<Seq<char>> {
    seq!["SELECT "@, "INSERT "@, "UPDATE "@, "DELETE "@, "CREATE "@, "DROP "@, "ALTER "@]
}

pub open spec fn looks_like_json(t: Seq<char>) -> bool {
    (starts_with_spec(t, "{"@) || starts_with_spec(t, "["@)) && json::json_is_valid(t)
}

pub open spec fn looks_like_sql(t: Seq<char>) -> bool {
    exists|k: int| 0 <= k < sql_keywords().len() && starts_with_spec(uppercased(t), #[trigger] sql_keywords()[k])
}

pub open spec fn looks_like_markdown(t: Seq<char>) -> bool {
    ||| contains_spec(t, "\n# "@)
    ||| starts_with_spec(t, "# "@)
    ||| contains_spec(t, "\n```"@)
    ||| starts_with_spec(t, "```"@)
}

/// The language `detect` reports for a text.
pub open spec fn detect_spec(input: Seq<char>) -> Option<Language> {
    let t = trim_spec(input);
    if t.len() == 0 {
        None
    } else if looks_like_json(t) {
        Some(Language::Json)
    } else if looks_like_sql(t) {
        Some(Language::Sql)
    } else if looks_like_markdown(t) {
        Some(Language::Markdown)
    } else {
        None
    }
}

/// Heuristic language detection from clipboard text; `None` when there is
/// no strong signal.
pub fn detect(input: &str) -> (r: Option<Language>)
    ensures
        r == detect_spec(input@),
{
    let v = chars_of(input);
    let t = trim(&v);
    if t.len() == 0 {
        return None;
    }
    let ts = string_of(&t);
    if (starts_with(&t, &chars_of("{")) || starts_with(&t, &chars_of("[")))
        && json::json_parses(ts.as_str()) {
        return Some(Language::Json);
    }
    let upper = chars_of(to_uppercase(ts.as_str()).as_str());
    if starts_with(&upper, &chars_of("SELECT ")) || starts_with(&upper, &chars_of("INSERT "))
        || starts_with(&upper, &chars_of("UPDATE ")) || starts_with(&upper, &chars_of("DELETE "))
        || starts_with(&upper, &chars_of("CREATE ")) || starts_with(&upper, &chars_of("DROP "))
        || starts_with(&upper, &chars_of("ALTER ")) {
        proof {
            let kws = sql_keywords();
            if starts_with_spec(upper@, kws[0]) {} else if starts_with_spec(upper@, kws[1]) {}
            else if starts_with_spec(upper@, kws[2]) {} else if starts_with_spec(upper@, kws[3]) {}
            else if starts_with_spec(upper@, kws[4]) {} else if starts_with_spec(upper@, kws[5]) {}
            else { assert(starts_with_spec(upper@, kws[6])); }
        }
        return Some(Language::Sql);
    }
    proof {
        let kws = sql_keywords();
        assert forall|k: int| 0 <= k < kws.len() implies !starts_with_spec(upper@, #[trigger] kws[k]) by {
            if k == 0 {} else if k == 1 {} else if k == 2 {} else if k == 3 {} else if k == 4 {} else if k == 5 {} else {}
        }
    }
    if contains(&t, &chars_of("\n# ")) || starts_with(&t, &chars_of("# "))
        || contains(&t, &chars_of("\n```")) || starts_with(&t, &chars_of("```")) {
        return Some(Language::Markdown);
    }
    None
}

// ---------------------------------------------------------------------------
// Laws
// ---------------------------------------------------------------------------

/// Every language `detect` reports has a built-in formatter, so formatting
/// auto-detected text never fails for want of one.
pub proof fn lemma_detect_has_formatter(input: Seq<char>)
    ensures
        detect_spec(input) matches Some(l) ==> has_formatter(l),
{
}

/// Text detected as JSON always formats as JSON: detection and the
/// formatter parse the same trimmed text.
pub proof fn lemma_detected_json_formats(input: Seq<char>, opts: FormatOptions)
    ensures
        detect_spec(input) == Some(Language::Json) ==> format_as_spec(Language::Json, input, opts) is Some,
{
}

/// No blank line follows a blank line once blank runs are collapsed, and
/// none leads when the preceding line was blank.
pub proof fn lemma_collapsed_blank_lines(ls: Seq<Seq<char>>, prev_blank: bool)
    ensures
        forall|i: int| 0 <= i < markdown::collapse_blanks(ls, prev_blank).len() - 1
            ==> !(all_ws(#[trigger] markdown::collapse_blanks(ls, prev_blank)[i])
                && all_ws(markdown::collapse_blanks(ls, prev_blank)[i + 1])),
        prev_blank && markdown::collapse_blanks(ls, prev_blank).len() > 0
            ==> !all_ws(markdown::collapse_blanks(ls, prev_blank)[0]),
    decreases ls.len(),
{
    if ls.len() > 0 {
        let b = all_ws(ls[0]);
        if b && prev_blank {
            lemma_collapsed_blank_lines(ls.drop_first(), prev_blank);
        } else {
            lemma_collapsed_blank_lines(ls.drop_first(), b);
            let rest = markdown::collapse_blanks(ls.drop_first(), b);
            let r = markdown::collapse_blanks(ls, prev_blank);
            assert(r == seq![ls[0]] + rest);
            assert forall|i: int| 0 <= i < r.len() - 1 implies !(all_ws(#[trigger] r[i]) && all_ws(r[i + 1])) by {
                if i > 0 {
                    assert(r[i] == rest[i - 1]);
                    assert(r[i + 1] == rest[i]);
                } else {
                    assert(r[1] == rest[0]);
                }
            }
        }
    }
}

proof fn lemma_join_pushed_empty(parts: Seq<Seq<char>>, sep: Seq<char>)
    requires
        parts.len() > 0,
        sep.len() > 0,
    ensures
        join_spec(parts.push(Seq::empty()), sep) == join_spec(parts, sep) + sep,
{
    let p = parts.push(Seq::empty());
    assert(p.drop_last() =~= parts);
    assert(join_spec(p, sep) == join_spec(parts, sep) + sep + Seq::<char>::empty());
    assert(join_spec(parts, sep) + sep + Seq::<char>::empty() =~= join_spec(parts, sep) + sep);
}

/// Formatted Markdown is empty (for blank input) or ends with a newline.
pub proof fn lemma_markdown_ends_with_newline(input: Seq<char>)
    ensures
        markdown::markdown_format_spec(input).len() == 0 || markdown::markdown_format_spec(input).last() == '\n',
{
    let ls = markdown::collapse_blanks(markdown::fence_pass(lines_spec(input), false), false);
    let parts = markdown::drop_trailing_blanks(ls);
    reveal_strlit("\n");
    if parts.len() > 0 {
        lemma_join_pushed_empty(parts, "\n"@);
    } else {
        assert(parts.push(Seq::<char>::empty()) =~= seq![Seq::<char>::empty()]);
    }
}

/// Formatted plain text is empty (for blank input) or ends with a newline.
pub proof fn lemma_plaintext_ends_with_newline(input: Seq<char>, opts: FormatOptions)
    ensures
        plaintext::plaintext_format_spec(input, opts).len() == 0
            || plaintext::plaintext_format_spec(input, opts).last() == '\n',
{
    let width = json::indent_or(opts, 4) as nat;
    let ls = lines_spec(input).map_values(|l: Seq<char>| plaintext::plain_line(l, width));
    let parts = markdown::drop_trailing_blanks(ls);
    reveal_strlit("\n");
    if parts.len() > 0 {
        lemma_join_pushed_empty(parts, "\n"@);
    } else {
        assert(parts.push(Seq::<char>::empty()) =~= seq![Seq::<char>::empty()]);
    }
}

proof fn lemma_trim_end_no_trailing_ws(s: Seq<char>)
    ensures
        trim_end_spec(s).len() == 0 || !is_ws(trim_end_spec(s).last()),
    decreases s.len(),
{
    if s.len() > 0 && is_ws(s.last()) {
        lemma_trim_end_no_trailing_ws(s.drop_last());
    }
}

/// A line of formatted plain text never ends with whitespace.
pub proof fn lemma_plain_line_no_trailing_ws(l: Seq<char>, width: nat)
    ensures
        plaintext::plain_line(l, width).len() == 0 || !is_ws(plaintext::plain_line(l, width).last()),
{
    lemma_trim_end_no_trailing_ws(plaintext::replace_tabs(l, json::spaces_spec(width)));
}

/// Text that is not JSON and whose trimmed, upper-cased form starts with
/// one of the statement keywords `SELECT`, `INSERT`, `UPDATE`, `DELETE`,
/// `CREATE`, `DROP` or `ALTER` followed by a space is detected as SQL; SQL
/// is detected for no other text.
pub proof fn lemma_sql_statements_detected(input: Seq<char>)
    ensures
        ({
            let t = trim_spec(input);
            let u = uppercased(t);
            t.len() > 0 && !looks_like_json(t) && (
                starts_with_spec(u, "SELECT "@) || starts_with_spec(u, "INSERT "@)
                || starts_with_spec(u, "UPDATE "@) || starts_with_spec(u, "DELETE "@)
                || starts_with_spec(u, "CREATE "@) || starts_with_spec(u, "DROP "@)
                || starts_with_spec(u, "ALTER "@)) ==> detect_spec(input) == Some(Language::Sql)
        }),
        ({
            let t = trim_spec(input);
            let u = uppercased(t);
            detect_spec(input) == Some(Language::Sql) ==> (
                starts_with_spec(u, "SELECT "@) || starts_with_spec(u, "INSERT "@)
                || starts_with_spec(u, "UPDATE "@) || starts_with_spec(u, "DELETE "@)
                || starts_with_spec(u, "CREATE "@) || starts_with_spec(u, "DROP "@)
                || starts_with_spec(u, "ALTER "@))
        }),
{
    let t = trim_spec(input);
    let u = uppercased(t);
    let kws = sql_keywords();
    if starts_with_spec(u, "SELECT "@) {
        assert(starts_with_spec(u, kws[0]));
    } else if starts_with_spec(u, "INSERT "@) {
        assert(starts_with_spec(u, kws[1]));
    } else if starts_with_spec(u, "UPDATE "@) {
        assert(starts_with_spec(u, kws[2]));
    } else if starts_with_spec(u, "DELETE "@) {
        assert(starts_with_spec(u, kws[3]));
    } else if starts_with_spec(u, "CREATE "@) {
        assert(starts_with_spec(u, kws[4]));
    } else if starts_with_spec(u, "DROP "@) {
        assert(starts_with_spec(u, kws[5]));
    } else if starts_with_spec(u, "ALTER "@) {
        assert(starts_with_spec(u, kws[6]));
    }
    if detect_spec(input) == Some(Language::Sql) {
        assert(looks_like_sql(t));
        let k = choose|k: int| 0 <= k < kws.len() && starts_with_spec(u, #[trigger] kws[k]);
        if k == 0 {} else if k == 1 {} else if k == 2 {} else if k == 3 {} else if k == 4 {} else if k == 5 {} else {}
    }
}

} // verus!
