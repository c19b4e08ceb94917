//! The decisions behind the desktop front end's commands: summaries of
//! history items and DONE LOG entries, how a paste request and a language
//! name are read, and which payloads a paste writes.

use vstd::prelude::*;
use crate::donelog::{effective_body_spec, ContentKind, DoneView};
use crate::format::{detect, detect_spec, language_name, FormatOptions, Language};
use crate::ids::{ulid_parse, ulid_text, ClipId};
use crate::model::{ClipItem, ClipKind, PayloadData, PayloadStorage};
use crate::paste::{FormatRequest, PasteMode};
use crate::store::history::{lowercased, to_lowercase};
use crate::text::{chars_of, push_str, same_text, string_of};
use vstd::string::{StrSliceExecFns, StringSliceAdditionalSpecFns};

verus! {

/// The id named by a front-end text, or why it names none.
pub fn parse_clip_id(s: &str) -> (r: core::result::Result<ClipId, String>)
    ensures
        r matches Ok(id) ==> ulid_parse(s@) == crate::ids::decoded(id.0),
        r matches Err(m) ==> ulid_parse(s@) matches Err(e) && m@ == "invalid id: "@ + e,
{
    match ClipId::parse(s) {
        Ok(id) => Ok(id),
        Err(e) => {
            let mut m = chars_of("invalid id: ");
            push_str(&mut m, e.as_str());
            Err(string_of(&m))
        },
    }
}

/// The language a front-end name stands for, ignoring case; `None` for
/// "auto" and unknown names, which means detection.
pub open spec fn lang_of_name(n: Seq<char>) -> Option<Language> {
    if n == "json"@ {
        Some(Language::Json)
    } else if n == "sql"@ {
        Some(Language::Sql)
    } else if n == "markdown"@ || n == "md"@ {
        Some(Language::Markdown)
    } else if n == "plaintext"@ || n == "plain"@ || n == "text"@ {
        Some(Language::PlainText)
    } else if n == "html"@ {
        Some(Language::Html)
    } else if n == "css"@ {
        Some(Language::Css)
    } else if n == "javascript"@ || n == "js"@ {
        Some(Language::JavaScript)
    } else if n == "typescript"@ || n == "ts"@ {
        Some(Language::TypeScript)
    } else {
        None
    }
}

/// Parse a language name from the front end (see [`lang_of_name`]).
pub fn parse_lang(s: &str) -> (r: Option<Language>)
    ensures
        r == lang_of_name(lowercased(s@)),
{
    let lower = to_lowercase(s);
    let n = lower.as_str();
    if same_text(n, "json") {
        Some(Language::Json)
    } else if same_text(n, "sql") {
        Some(Language::Sql)
    } else if same_text(n, "markdown") || same_text(n, "md") {
        Some(Language::Markdown)
    } else if same_text(n, "plaintext") || same_text(n, "plain") || same_text(n, "text") {
        Some(Language::PlainText)
    } else if same_text(n, "html") {
        Some(Language::Html)
    } else if same_text(n, "css") {
        Some(Language::Css)
    } else if same_text(n, "javascript") || same_text(n, "js") {
        Some(Language::JavaScript)
    } else if same_text(n, "typescript") || same_text(n, "ts") {
        Some(Language::TypeScript)
    } else {
        None
    }
}

/// The lower-case name a language is reported with.
pub open spec fn language_label_spec(lang: Language) -> Seq<char> {
    match lang {
        Language::Json => "json"@,
        Language::Sql => "sql"@,
        Language::Markdown => "markdown"@,
        Language::Html => "html"@,
        Language::Css => "css"@,
        Language::JavaScript => "javascript"@,
        Language::TypeScript => "typescript"@,
        Language::Php => "php"@,
        Language::PlainText => "plaintext"@,
        Language::Other(_) => lowercased(language_name(lang)),
    }
}

/// The language's `Debug` name in lower case.
pub fn language_label(lang: &Language) -> (r: String)
    ensures
        r@ == language_label_spec(*lang),
{
    match lang {
        Language::Json => "json".to_owned(),
        Language::Sql => "sql".to_owned(),
        Language::Markdown => "markdown".to_owned(),
        Language::Html => "html".to_owned(),
        Language::Css => "css".to_owned(),
        Language::JavaScript => "javascript".to_owned(),
        Language::TypeScript => "typescript".to_owned(),
        Language::Php => "php".to_owned(),
        Language::PlainText => "plaintext".to_owned(),
        Language::Other(_) => {
            let name = string_of(&crate::format::language_debug_name(lang));
            to_lowercase(name.as_str())
        },
    }
}

/// The detected language of a snippet, by its lower-case name.
pub fn detect_lang(text: &str) -> (r: Option<String>)
    ensures
        match detect_spec(text@) {
            Some(l) => r matches Some(s) && s@ == language_label_spec(l),
            None => r is None,
        },
{
    match detect(text) {
        Some(l) => Some(language_label(&l)),
        None => None,
    }
}

/// The `Debug` name of a clip kind.
pub open spec fn clip_kind_name(k: ClipKind) -> Seq<char> {
    match k {
        ClipKind::Text => "Text"@,
        ClipKind::Image => "Image"@,
        ClipKind::Rtf => "Rtf"@,
        ClipKind::Html => "Html"@,
        ClipKind::Pdf => "Pdf"@,
        ClipKind::Files => "Files"@,
        ClipKind::Mixed => "Mixed"@,
        ClipKind::Custom => "Custom"@,
    }
}

pub fn clip_kind_label(k: ClipKind) -> (r: String)
    ensures
        r@ == clip_kind_name(k),
{
    match k {
        ClipKind::Text => "Text".to_owned(),
        ClipKind::Image => "Image".to_owned(),
        ClipKind::Rtf => "Rtf".to_owned(),
        ClipKind::Html => "Html".to_owned(),
        ClipKind::Pdf => "Pdf".to_owned(),
        ClipKind::Files => "Files".to_owned(),
        ClipKind::Mixed => "Mixed".to_owned(),
        ClipKind::Custom => "Custom".to_owned(),
    }
}

/// The `Debug` name of a DONE LOG content kind.
pub open spec fn content_kind_name(k: ContentKind) -> Seq<char> {
    match k {
        ContentKind::Text => "Text"@,
        ContentKind::Url => "Url"@,
        ContentKind::Json => "Json"@,
        ContentKind::Code => "Code"@,
        ContentKind::Rtf => "Rtf"@,
        ContentKind::Html => "Html"@,
        ContentKind::Image => "Image"@,
    }
}

pub fn content_kind_label(k: ContentKind) -> (r: String)
    ensures
        r@ == content_kind_name(k),
{
    match k {
        ContentKind::Text => "Text".to_owned(),
        ContentKind::Url => "Url".to_owned(),
        ContentKind::Json => "Json".to_owned(),
        ContentKind::Code => "Code".to_owned(),
        ContentKind::Rtf => "Rtf".to_owned(),
        ContentKind::Html => "Html".to_owned(),
        ContentKind::Image => "Image".to_owned(),
    }
}

/// A history item as the front end lists it.
#[derive(Debug, Clone)]
pub struct ClipItemSummary {
    pub id: String,
    pub created_at: i64,
    pub kind: String,
    pub source_app: String,
    pub preview: String,
    pub pinned: bool,
}

impl ClipItemSummary {
    /// The summary of a record: its ULID text, creation time, kind name,
    /// source name, preview (empty when there is none) and pin.
    pub fn of_item(item: &ClipItem) -> (r: Self)
        ensures
            r.id@ == ulid_text(item.id.0),
            r.created_at == item.created_at,
            r.kind@ == clip_kind_name(item.primary_kind),
            r.source_app@ == item.source_app.display_name@,
            r.preview@ == (match item.text_preview { Some(p) => p@, None => Seq::<char>::empty() }),
            r.pinned == item.pinned,
    {
        ClipItemSummary {
            id: item.id.to_text(),
            created_at: item.created_at,
            kind: clip_kind_label(item.primary_kind),
            source_app: item.source_app.display_name.clone(),
            preview: match &item.text_preview {
                Some(p) => p.clone(),
                None => String::new(),
            },
            pinned: item.pinned,
        }
    }
}

/// A DONE LOG entry as the front end shows it.
#[derive(Debug, Clone)]
pub struct DoneViewSummary {
    pub id: String,
    pub date: String,
    pub time: String,
    pub source_app: String,
    pub kind: String,
    pub body: String,
    pub note: Option<String>,
    pub tags: Vec<String>,
}

impl DoneViewSummary {
    /// The summary of an entry with its edits: id, `YYYY-MM-DD` date,
    /// `HH:MM` time, source name, kind name, effective body, note, tags.
    pub fn of_view(v: &DoneView) -> (r: Self)
        requires
            v.entry.date.valid(),
            v.entry.time.valid(),
        ensures
            r.id@ == ulid_text(v.entry.id.0),
            r.date@ == v.entry.date.text_spec(),
            r.time@ == v.entry.time.hm_text_spec(),
            r.source_app@ == v.entry.source_app.display_name@,
            r.kind@ == content_kind_name(v.entry.kind),
            r.body@ == effective_body_spec(*v),
            match v.overlay.user_note {
                Some(n) => r.note matches Some(m) && m@ == n@,
                None => r.note is None,
            },
            r.tags@.len() == v.overlay.tags@.len(),
            forall|i: int| 0 <= i < r.tags@.len() ==> r.tags@[i]@ == v.overlay.tags@[i]@,
    {
        let note = match v.note() {
            Some(n) => Some(n.to_owned()),
            None => None,
        };
        let mut tags: Vec<String> = Vec::new();
        let src = v.tags();
        let mut i: usize = 0;
        while i < src.len()
            invariant
                i <= src.len(),
                src@ == v.overlay.tags@,
                tags@.len() == i,
                forall|k: int| 0 <= k < i ==> tags@[k]@ == src@[k]@,
            decreases src.len() - i,
        {
            tags.push(src[i].clone());
            i += 1;
        }
        DoneViewSummary {
            id: v.entry.id.to_text(),
            date: v.entry.date.to_text(),
            time: v.entry.time.hm_text(),
            source_app: v.entry.source_app.display_name.clone(),
            kind: content_kind_label(v.entry.kind),
            body: v.effective_body().to_owned(),
            note,
            tags,
        }
    }
}

/// What a formatting preview answers.
#[derive(Debug, Clone)]
pub struct FormatPreviewResult {
    /// The formatted text.
    pub formatted: String,
    /// The language actually used, by its lower-case name.
    pub detected_lang: String,
}

impl FormatPreviewResult {
    pub fn of(lang: &Language, formatted: String) -> (r: Self)
        ensures
            r.formatted == formatted,
            r.detected_lang@ == language_label_spec(*lang),
    {
        FormatPreviewResult { formatted, detected_lang: language_label(lang) }
    }
}

/// A paste request from the front end.
#[derive(Debug, Clone)]
pub struct PasteArgs {
    pub id: String,
    /// "normal" | "plain" | "format"
    pub mode: String,
    /// For "format": "auto" | "json" | "sql" | "markdown" | "plaintext".
    pub format_lang: Option<String>,
    /// For "format": the indentation width in spaces.
    pub format_indent: Option<u8>,
}

impl PasteArgs {
    /// The paste mode asked for: "plain", "format" (with the named language,
    /// else detection, and the indent), anything else normal.
    pub fn paste_mode(&self) -> (r: PasteMode)
        ensures
            self.mode@ == "plain"@ ==> r is Plain,
            self.mode@ == "format"@ ==> (r matches PasteMode::Format(req)
                && req.lang == (match self.format_lang { Some(l) => lang_of_name(lowercased(l@)), None => None })
                && req.opts.indent == self.format_indent
                && req.opts.line_width is None && req.opts.dialect is None),
            self.mode@ != "plain"@ && self.mode@ != "format"@ ==> r is Normal,
    {
        proof {
            reveal_strlit("plain");
            reveal_strlit("format");
            assert("plain"@.len() != "format"@.len());
        }
        if same_text(self.mode.as_str(), "plain") {
            PasteMode::Plain
        } else if same_text(self.mode.as_str(), "format") {
            let lang = match &self.format_lang {
                Some(l) => parse_lang(l.as_str()),
                None => None,
            };
            assert(self.mode@ != "plain"@);
            let r = PasteMode::Format(FormatRequest {
                lang,
                opts: FormatOptions { indent: self.format_indent, line_width: None, dialect: None },
            });
            assert(lang == (match self.format_lang { Some(l) => lang_of_name(lowercased(l@)), None => None }));
            r
        } else {
            PasteMode::Normal
        }
    }
}

/// How many items a listing returns: the request, 50 by default, at most
/// 200.
pub fn command_limit(limit: Option<usize>) -> (r: usize)
    ensures
        r == (match limit { Some(l) => if l > 200 { 200 } else { l }, None => 50 }),
{
    match limit {
        Some(l) => if l > 200 { 200 } else { l },
        None => 50,
    }
}

/// The inline payloads of a record, in order.
pub open spec fn inline_payloads(ps: Seq<crate::model::PayloadRef>) -> Seq<(Seq<char>, Seq<u8>)>
    decreases ps.len(),
{
    if ps.len() == 0 {
        Seq::empty()
    } else {
        inline_payloads(ps.drop_last()) + match ps.last().storage {
            PayloadStorage::Inline(b) => seq![(ps.last().format_id@, b@)],
            _ => Seq::empty(),
        }
    }
}

pub open spec fn payload_views(ps: Seq<PayloadData>) -> Seq<(Seq<char>, Seq<u8>)> {
    ps.map_values(|p: PayloadData| (p.format_id@, p.bytes@))
}

/// What a paste of a record writes: its inline payloads, or, for a record
/// without payloads, its preview as UTF-8 text. `None` when it has neither.
pub fn paste_payloads(item: &ClipItem) -> (r: Option<Vec<PayloadData>>)
    ensures
        item.payloads@.len() == 0 ==> match item.text_preview {
            Some(p) => r matches Some(v) && v@.len() == 1 && v@[0].format_id@ == "public.utf8-plain-text"@
                && v@[0].bytes@ == vstd::utf8::encode_utf8(p@),
            None => r is None,
        },
        item.payloads@.len() > 0 ==> (r matches Some(v) && payload_views(v@) == inline_payloads(item.payloads@)),
{
    if item.payloads.len() == 0 {
        return match &item.text_preview {
            Some(p) => {
                let mut v: Vec<PayloadData> = Vec::new();
                v.push(PayloadData { format_id: "public.utf8-plain-text".to_owned(), bytes: p.as_str().as_bytes_vec() });
                Some(v)
            },
            None => None,
        };
    }
    let mut out: Vec<PayloadData> = Vec::new();
    let mut i: usize = 0;
    while i < item.payloads.len()
        invariant
            i <= item.payloads.len(),
            payload_views(out@) == inline_payloads(item.payloads@.take(i as int)),
        decreases item.payloads.len() - i,
    {
        let p = &item.payloads[i];
        let ghost before = out@;
        match &p.storage {
            PayloadStorage::Inline(b) => {
                out.push(PayloadData { format_id: p.format_id.clone(), bytes: b.clone() });
            },
            _ => {},
        }
        proof {
            let t = item.payloads@.take(i + 1);
            assert(t.drop_last() =~= item.payloads@.take(i as int));
            assert(t.last() == item.payloads@[i as int]);
            assert(payload_views(out@) =~= inline_payloads(t));
        }
        i += 1;
    }
    assert(item.payloads@.take(item.payloads.len() as int) =~= item.payloads@);
    Some(out)
}

/// Index of the first record whose ULID text is `id`, or the number of
/// records.
pub open spec fn first_with_id_text(items: Seq<ClipItem>, id: Seq<char>) -> int
    decreases items.len(),
{
    if items.len() == 0 || ulid_text(items[0].id.0) == id {
        0
    } else {
        1 + first_with_id_text(items.drop_first(), id)
    }
}

/// The first record whose ULID text is `id`.
pub fn find_by_id_text(candidates: Vec<ClipItem>, id: &str) -> (r: Option<ClipItem>)
    ensures
        match r {
            Some(it) => first_with_id_text(candidates@, id@) < candidates@.len()
                && it == candidates@[first_with_id_text(candidates@, id@)],
            None => first_with_id_text(candidates@, id@) == candidates@.len(),
        },
{
    let mut items = candidates;
    let ghost all = items@;
    assert(all == candidates@);
    let mut i: usize = 0;
    assert(all.skip(0) =~= all);
    while i < items.len()
        invariant
            i <= items.len(),
            items@ == all,
            all == candidates@,
            first_with_id_text(all, id@) == i + first_with_id_text(all.skip(i as int), id@),
        decreases items.len() - i,
    {
        let ghost rest = all.skip(i as int);
        assert(rest[0] == all[i as int]);
        let text = items[i].id.to_text();
        if same_text(text.as_str(), id) {
            assert(first_with_id_text(rest, id@) == 0);
            let found = items.swap_remove(i);
            assert(found == all[i as int]);
            return Some(found);
        }
        assert(rest.drop_first() =~= all.skip(i + 1));
        i += 1;
    }
    None
}

} // verus!
