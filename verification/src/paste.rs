//! Paste: what is written to the clipboard for each paste mode, the text
//! a paste is formatted from, and the fallback order of direct injection.
//!
//! A paste goes through the clipboard (snapshot, write, synthesized
//! Cmd/Ctrl+V, restore). Direct injection tries, in order: writing into the
//! focused field, typing the text as Unicode keystrokes (skipped while an
//! IME is on, as its candidate window would swallow them), and finally the
//! clipboard route, which always works.

use vstd::prelude::*;
use crate::error::{CnxError, Result};
use crate::format::{detect, detect_spec, format_as_spec, has_formatter, language_name, FormatOptions, FormatService, Language};
use crate::hotkey::Platform;
use crate::model::PayloadData;
use crate::text::{same_text, utf8_str};
use vstd::string::{StrSliceExecFns, StringSliceAdditionalSpecFns};
use vstd::utf8::{decode_utf8, valid_utf8};

verus! {

/// How a payload is processed before pasting.
#[derive(Debug)]
pub enum PasteMode {
    /// Write as is, in all of the item's formats.
    Normal,
    /// Write only the plain-text representation.
    Plain,
    /// Format the text, then paste it as plain text.
    Format(FormatRequest),
    /// Reserved for full multi-format restore.
    Full,
}

/// Parameters of [`PasteMode::Format`].
#[derive(Debug)]
pub struct FormatRequest {
    /// Explicit language; `None` detects it.
    pub lang: Option<Language>,
    pub opts: FormatOptions,
}

impl Default for FormatRequest {
    /// Detect the language; default options.
    fn default() -> (r: Self)
        ensures
            r.lang is None,
            r.opts.indent is None,
            r.opts.line_width is None,
            r.opts.dialect is None,
    {
        FormatRequest {
            lang: None,
            opts: FormatOptions { indent: None, line_width: None, dialect: None },
        }
    }
}

/// Which direct-injection step got the text in.
#[derive(Debug, Clone, Copy, PartialEq, Eq, Structural)]
pub enum PasteAttempt {
    DirectInject,
    UnicodeKeystroke,
    ClipboardFallback,
}

/// Whether the focused input has an IME switched on.
#[derive(Debug, Clone, Copy, PartialEq, Eq, Structural)]
pub enum ImeState {
    On,
    Off,
    /// Cannot be told (unsupported context, no IME locale).
    Unknown,
}

/// The IME state of the focused window from what the Windows IME API
/// reports: unknown without a foreground window, off when the window has no
/// input context, otherwise whether the context is open.
pub fn ime_state_of(has_foreground_window: bool, has_input_context: bool, open: bool) -> (r: ImeState)
    ensures
        !has_foreground_window ==> r == ImeState::Unknown,
        has_foreground_window && !has_input_context ==> r == ImeState::Off,
        has_foreground_window && has_input_context ==> r == (if open { ImeState::On } else { ImeState::Off }),
{
    if !has_foreground_window {
        ImeState::Unknown
    } else if !has_input_context {
        ImeState::Off
    } else if open {
        ImeState::On
    } else {
        ImeState::Off
    }
}

/// The IME state of the focused input. Only Windows can tell, through its
/// IME API; everywhere else the state is unknown.
pub fn query_focused_ime() -> (r: ImeState)
    ensures
        r == ImeState::Unknown,
{
    ImeState::Unknown
}

/// The IME state, as checked before every direct-injection attempt.
pub fn log_ime_state() -> (r: ImeState)
    ensures
        r == ImeState::Unknown,
{
    query_focused_ime()
}

/// Writing straight into the focused field is not supported yet.
pub fn try_direct_inject(text: &str) -> (r: Result<()>)
    ensures
        r matches Err(CnxError::Paste(m)) && m@ == "direct inject not yet implemented"@,
{
    Err(CnxError::Paste("direct inject not yet implemented".to_owned()))
}

/// A key of a synthesized shortcut.
#[derive(Debug, Clone, Copy, PartialEq, Eq, Structural)]
pub enum SynthKey {
    /// The Command key (macOS).
    Meta,
    Control,
    /// A physical key code.
    Code(u32),
    /// The key that types this character.
    Unicode(char),
}

/// What is done with a key.
#[derive(Debug, Clone, Copy, PartialEq, Eq, Structural)]
pub enum KeyDirection {
    Press,
    Click,
    Release,
}

/// The key events of the paste shortcut: press the modifier, click V,
/// release the modifier. On macOS the modifier is Command and V is the
/// physical key code 0x09 (looking the key up through the keyboard layout
/// is only allowed on the main thread); on Windows it is Control and the
/// virtual key 0x56; elsewhere Control and the character 'v'.
pub fn paste_key_sequence(platform: Platform) -> (r: Vec<(SynthKey, KeyDirection)>)
    ensures
        r@.len() == 3,
        r@[0].1 == KeyDirection::Press,
        r@[1].1 == KeyDirection::Click,
        r@[2].1 == KeyDirection::Release,
        r@[0].0 == r@[2].0,
        platform == Platform::MacOs ==> r@[0].0 == SynthKey::Meta && r@[1].0 == SynthKey::Code(0x09),
        platform == Platform::Windows ==> r@[0].0 == SynthKey::Control && r@[1].0 == SynthKey::Code(0x56),
        platform == Platform::Other ==> r@[0].0 == SynthKey::Control && r@[1].0 == SynthKey::Unicode('v'),
{
    let (modifier, v_key) = match platform {
        Platform::MacOs => (SynthKey::Meta, SynthKey::Code(0x09)),
        Platform::Windows => (SynthKey::Control, SynthKey::Code(0x56)),
        Platform::Other => (SynthKey::Control, SynthKey::Unicode('v')),
    };
    let mut r: Vec<(SynthKey, KeyDirection)> = Vec::new();
    r.push((modifier, KeyDirection::Press));
    r.push((v_key, KeyDirection::Click));
    r.push((modifier, KeyDirection::Release));
    r
}

/// What happened in the last direct-injection step.
pub enum StageBEvent {
    Start,
    DirectInject { ok: bool },
    ImeQueried(ImeState),
    UnicodeKeystroke { ok: bool },
    ClipboardDone,
}

/// The next direct-injection step.
#[derive(Debug, PartialEq, Eq, Structural)]
pub enum StageBAction {
    TryDirectInject,
    QueryIme,
    TryUnicodeKeystroke,
    FallBackToClipboard,
    Finish(PasteAttempt),
}

/// The direct-injection fallback order: direct injection first; on failure
/// Unicode keystrokes unless an IME is on; on failure, or with an IME on,
/// the clipboard route.
pub fn stage_b_next(ev: StageBEvent) -> (r: StageBAction)
    ensures
        ev is Start ==> r == StageBAction::TryDirectInject,
        ev matches StageBEvent::DirectInject { ok } ==> r == (if ok {
            StageBAction::Finish(PasteAttempt::DirectInject)
        } else {
            StageBAction::QueryIme
        }),
        ev matches StageBEvent::ImeQueried(s) ==> r == (if s == ImeState::On {
            StageBAction::FallBackToClipboard
        } else {
            StageBAction::TryUnicodeKeystroke
        }),
        ev matches StageBEvent::UnicodeKeystroke { ok } ==> r == (if ok {
            StageBAction::Finish(PasteAttempt::UnicodeKeystroke)
        } else {
            StageBAction::FallBackToClipboard
        }),
        ev is ClipboardDone ==> r == StageBAction::Finish(PasteAttempt::ClipboardFallback),
{
    match ev {
        StageBEvent::Start => StageBAction::TryDirectInject,
        StageBEvent::DirectInject { ok } => if ok {
            StageBAction::Finish(PasteAttempt::DirectInject)
        } else {
            StageBAction::QueryIme
        },
        StageBEvent::ImeQueried(s) => match s {
            ImeState::On => StageBAction::FallBackToClipboard,
            _ => StageBAction::TryUnicodeKeystroke,
        },
        StageBEvent::UnicodeKeystroke { ok } => if ok {
            StageBAction::Finish(PasteAttempt::UnicodeKeystroke)
        } else {
            StageBAction::FallBackToClipboard
        },
        StageBEvent::ClipboardDone => StageBAction::Finish(PasteAttempt::ClipboardFallback),
    }
}

// ---------------------------------------------------------------------------
// The text of a paste
// ---------------------------------------------------------------------------

/// Index of the first payload of format `f`, or the number of payloads.
pub open spec fn first_with_format(ps: Seq<PayloadData>, f: Seq<char>) -> int
    decreases ps.len(),
{
    if ps.len() == 0 || ps[0].format_id@ == f {
        0
    } else {
        1 + first_with_format(ps.drop_first(), f)
    }
}

/// The text of the first payload of format `f`, when there is one and it
/// is UTF-8.
pub open spec fn text_of_format(ps: Seq<PayloadData>, f: Seq<char>) -> Option<Seq<char>> {
    let i = first_with_format(ps, f);
    if 0 <= i < ps.len() && valid_utf8(ps[i].bytes@) { Some(decode_utf8(ps[i].bytes@)) } else { None }
}

/// The text of the first payload that is UTF-8.
pub open spec fn first_utf8_text(ps: Seq<PayloadData>) -> Option<Seq<char>>
    decreases ps.len(),
{
    if ps.len() == 0 {
        None
    } else if valid_utf8(ps[0].bytes@) {
        Some(decode_utf8(ps[0].bytes@))
    } else {
        first_utf8_text(ps.drop_first())
    }
}

/// The text a paste works on: the plain-text formats in order of
/// preference (`public.utf8-plain-text`, `public.plain-text`,
/// `CF_UNICODETEXT`, `text/plain`), then any UTF-8 payload.
pub open spec fn extract_text_spec(ps: Seq<PayloadData>) -> Option<Seq<char>> {
    if text_of_format(ps, "public.utf8-plain-text"@) is Some {
        text_of_format(ps, "public.utf8-plain-text"@)
    } else if text_of_format(ps, "public.plain-text"@) is Some {
        text_of_format(ps, "public.plain-text"@)
    } else if text_of_format(ps, "CF_UNICODETEXT"@) is Some {
        text_of_format(ps, "CF_UNICODETEXT"@)
    } else if text_of_format(ps, "text/plain"@) is Some {
        text_of_format(ps, "text/plain"@)
    } else {
        first_utf8_text(ps)
    }
}

proof fn lemma_first_with_format_at(ps: Seq<PayloadData>, f: Seq<char>, k: int)
    requires
        0 <= k <= ps.len(),
        k < ps.len() ==> ps[k].format_id@ == f,
        forall|j: int| 0 <= j < k ==> (#[trigger] ps[j]).format_id@ != f,
    ensures
        first_with_format(ps, f) == k,
    decreases ps.len(),
{
    if k > 0 {
        assert(ps[0].format_id@ != f);
        assert forall|j: int| 0 <= j < k - 1 implies (#[trigger] ps.drop_first()[j]).format_id@ != f by {
            assert(ps.drop_first()[j] == ps[j + 1]);
        }
        lemma_first_with_format_at(ps.drop_first(), f, k - 1);
    }
}

fn text_with_format(ps: &[PayloadData], f: &str) -> (r: Option<String>)
    ensures
        match r {
            Some(s) => text_of_format(ps@, f@) == Some(s@),
            None => text_of_format(ps@, f@) is None,
        },
{
    let mut i: usize = 0;
    while i < ps.len()
        invariant
            i <= ps.len(),
            forall|j: int| 0 <= j < i ==> (#[trigger] ps@[j]).format_id@ != f@,
        decreases ps.len() - i,
    {
        if same_text(ps[i].format_id.as_str(), f) {
            proof {
                lemma_first_with_format_at(ps@, f@, i as int);
            }
            return match utf8_str(ps[i].bytes.as_slice()) {
                Some(s) => Some(s.to_owned()),
                None => None,
            };
        }
        i += 1;
    }
    proof {
        lemma_first_with_format_at(ps@, f@, i as int);
    }
    None
}

fn first_utf8(ps: &[PayloadData]) -> (r: Option<String>)
    ensures
        match r {
            Some(s) => first_utf8_text(ps@) == Some(s@),
            None => first_utf8_text(ps@) is None,
        },
{
    let mut i: usize = 0;
    assert(ps@.skip(0) =~= ps@);
    while i < ps.len()
        invariant
            i <= ps.len(),
            first_utf8_text(ps@) == first_utf8_text(ps@.skip(i as int)),
        decreases ps.len() - i,
    {
        let ghost rest = ps@.skip(i as int);
        assert(rest[0] == ps@[i as int]);
        match utf8_str(ps[i].bytes.as_slice()) {
            Some(s) => {
                return Some(s.to_owned());
            },
            None => {},
        }
        assert(rest.drop_first() =~= ps@.skip(i + 1));
        i += 1;
    }
    None
}

/// The text to paste from a payload list, if any; see [`extract_text_spec`].
pub fn extract_text(payloads: &[PayloadData]) -> (r: Option<String>)
    ensures
        match r {
            Some(s) => extract_text_spec(payloads@) == Some(s@),
            None => extract_text_spec(payloads@) is None,
        },
{
    match text_with_format(payloads, "public.utf8-plain-text") {
        Some(s) => return Some(s),
        None => {},
    }
    match text_with_format(payloads, "public.plain-text") {
        Some(s) => return Some(s),
        None => {},
    }
    match text_with_format(payloads, "CF_UNICODETEXT") {
        Some(s) => return Some(s),
        None => {},
    }
    match text_with_format(payloads, "text/plain") {
        Some(s) => return Some(s),
        None => {},
    }
    first_utf8(payloads)
}

// ---------------------------------------------------------------------------
// Formatting a paste
// ---------------------------------------------------------------------------

/// The language a paste is formatted as: the requested one, else the
/// detected one, else plain text.
pub open spec fn chosen_language(requested: Option<Language>, text: Seq<char>) -> Language {
    match requested {
        Some(l) => l,
        None => match detect_spec(text) {
            Some(l) => l,
            None => Language::PlainText,
        },
    }
}

/// What formatting gives for a language: the text, or the error message.
pub open spec fn format_outcome(lang: Language, text: Seq<char>, opts: FormatOptions) -> core::result::Result<Seq<char>, ()> {
    if has_formatter(lang) && format_as_spec(lang, text, opts) is Some {
        Ok(format_as_spec(lang, text, opts)->Some_0)
    } else {
        Err(())
    }
}

/// Decides, and formats with, the language of a paste.
pub struct PasteController {
    format_svc: FormatService,
    restore_delay_ms: u64,
}

impl PasteController {
    pub closed spec fn well_formed(&self) -> bool {
        self.format_svc.well_formed()
    }

    pub closed spec fn restore_delay(&self) -> u64 {
        self.restore_delay_ms
    }

    /// How long the clipboard route waits, in milliseconds, before it
    /// restores the clipboard.
    pub fn restore_delay_ms(&self) -> (r: u64)
        ensures
            r == self.restore_delay(),
    {
        self.restore_delay_ms
    }

    pub fn new() -> (r: Self)
        ensures
            r.well_formed(),
            r.restore_delay() == 150,
    {
        PasteController { format_svc: FormatService::new(), restore_delay_ms: 150 }
    }

    fn pick_language(requested: Option<Language>, text: &str) -> (r: Language)
        ensures
            r == chosen_language(requested, text@),
    {
        match requested {
            Some(l) => l,
            None => match detect(text) {
                Some(l) => l,
                None => Language::PlainText,
            },
        }
    }

    /// The single plain-text payload that a format paste writes: the
    /// extracted text formatted as the chosen language. Refused when no
    /// payload holds text, or as formatting refuses.
    pub fn apply_format(&self, payloads: &[PayloadData], req: FormatRequest) -> (r: Result<Vec<PayloadData>>)
        requires
            self.well_formed(),
        ensures
            format_paste_spec(payloads@, req.lang, req.opts, r),
    {
        let text = match extract_text(payloads) {
            Some(t) => t,
            None => {
                return Err(CnxError::Other("format paste: no plain-text payload found".to_owned()));
            },
        };
        let lang = Self::pick_language(req.lang, text.as_str());
        let formatted = self.format_svc.format_as(&lang, text.as_str(), &req.opts)?;
        let bytes = formatted.as_str().as_bytes_vec();
        let mut out: Vec<PayloadData> = Vec::new();
        out.push(PayloadData { format_id: "public.utf8-plain-text".to_owned(), bytes });
        Ok(out)
    }

    /// The single plain-text payload that a plain paste writes: the
    /// extracted text as UTF-8. Refused when no payload holds text.
    pub fn plain_only(&self, payloads: &[PayloadData]) -> (r: Result<Vec<PayloadData>>)
        ensures
            plain_paste_spec(payloads@, r),
    {
        match extract_text(payloads) {
            Some(t) => {
                let mut out: Vec<PayloadData> = Vec::new();
                out.push(PayloadData { format_id: "public.utf8-plain-text".to_owned(), bytes: t.as_str().as_bytes_vec() });
                Ok(out)
            },
            None => Err(CnxError::Other("plain paste: no plain-text payload found".to_owned())),
        }
    }

    /// Formats text without pasting: the language used (the hint, else the
    /// detected one, else plain text) and the formatted text.
    pub fn format_preview(&self, text: &str, lang_hint: Option<Language>, opts: &FormatOptions) -> (r: Result<(Language, String)>)
        requires
            self.well_formed(),
        ensures
            r is Ok <==> format_outcome(chosen_language(lang_hint, text@), text@, *opts) is Ok,
            r matches Ok((l, s)) ==> l == chosen_language(lang_hint, text@)
                && s@ == format_outcome(l, text@, *opts)->Ok_0,
            !has_formatter(chosen_language(lang_hint, text@)) ==> (r matches Err(CnxError::Other(m))
                && m@ == "no formatter for "@ + language_name(chosen_language(lang_hint, text@))),
    {
        let lang = Self::pick_language(lang_hint, text);
        let formatted = self.format_svc.format_as(&lang, text, opts)?;
        Ok((lang, formatted))
    }

    /// What a paste writes to the clipboard: the payloads as given in
    /// normal and full mode, only the plain text in plain mode, the
    /// formatted text in format mode.
    pub fn payloads_for(&self, payloads: Vec<PayloadData>, mode: PasteMode) -> (r: Result<Vec<PayloadData>>)
        requires
            self.well_formed(),
        ensures
            (mode is Normal || mode is Full) ==> r == Ok::<Vec<PayloadData>, CnxError>(payloads),
            mode is Plain ==> plain_paste_spec(payloads@, r),
            mode matches PasteMode::Format(req) ==> format_paste_spec(payloads@, req.lang, req.opts, r),
    {
        match mode {
            PasteMode::Format(req) => self.apply_format(payloads.as_slice(), req),
            PasteMode::Plain => self.plain_only(payloads.as_slice()),
            _ => Ok(payloads),
        }
    }
}

/// What a plain paste writes: one UTF-8 plain-text payload holding the
/// extracted text; refused when no payload holds text.
pub open spec fn plain_paste_spec(payloads: Seq<PayloadData>, r: Result<Vec<PayloadData>>) -> bool {
    match extract_text_spec(payloads) {
        Some(t) => r matches Ok(v) && v@.len() == 1 && v@[0].format_id@ == "public.utf8-plain-text"@
            && v@[0].bytes@ == vstd::utf8::encode_utf8(t),
        None => r matches Err(CnxError::Other(m)) && m@ == "plain paste: no plain-text payload found"@,
    }
}

/// What a format paste writes: one UTF-8 plain-text payload holding the
/// extracted text formatted as the chosen language; refused when no payload
/// holds text, when the language has no formatter, or as formatting refuses.
pub open spec fn format_paste_spec(payloads: Seq<PayloadData>, lang: Option<Language>, opts: FormatOptions,
    r: Result<Vec<PayloadData>>) -> bool {
    match extract_text_spec(payloads) {
        None => r matches Err(CnxError::Other(m)) && m@ == "format paste: no plain-text payload found"@,
        Some(text) => {
            let l = chosen_language(lang, text);
            &&& (r is Ok <==> format_outcome(l, text, opts) is Ok)
            &&& (r matches Ok(v) ==> v@.len() == 1 && v@[0].format_id@ == "public.utf8-plain-text"@
                    && v@[0].bytes@ == vstd::utf8::encode_utf8(format_outcome(l, text, opts)->Ok_0))
            &&& (!has_formatter(l) ==> (r matches Err(CnxError::Other(m)) && m@ == "no formatter for "@ + language_name(l)))
        },
    }
}

} // verus!
