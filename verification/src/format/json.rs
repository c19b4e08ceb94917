//! JSON pretty-printing with a configurable indent width.

use vstd::prelude::*;
use crate::error::{CnxError, Result};
use crate::format::{FormatOptions, Formatter, Language};
use crate::text::{chars_of, join, join_spec, lines, lines_spec, push_all, push_str, string_of, trim, trim_spec, trim_start, trim_start_spec, views};

verus! {

/// Whether `serde_json` parses the text as a JSON value.
pub uninterp spec fn json_is_valid(text: Seq<char>) -> bool;

/// The text `serde_json` produces when it parses the given text and writes
/// the value back with `to_string_pretty` (two-space indentation).
pub uninterp spec fn json_pretty_text(text: Seq<char>) -> Seq<char>;

/// The `Display` text of the error `serde_json` reports for text it does
/// not parse.
pub uninterp spec fn json_error_text(text: Seq<char>) -> Seq<char>;

/// Wraps `serde_json::from_str::<serde_json::Value>`; reports whether it
/// succeeds, named [`json_is_valid`].
#[verifier::external_body]
pub(crate) fn json_parses(text: &str) -> (r: bool)
    ensures
        r == json_is_valid(text@),
{
    serde_json::from_str::<serde_json::Value>(text).is_ok()
}

/// Wraps `serde_json::from_str::<serde_json::Value>` followed by
/// `serde_json::to_string_pretty` of the parsed value. The text is named
/// [`json_pretty_text`] and the parse error's text [`json_error_text`]; the
/// text is present exactly when the input parses, since writing a parsed
/// `Value` back cannot fail.
#[verifier::external_body]
fn json_pretty(text: &str) -> (r: core::result::Result<String, String>)
    ensures
        r is Ok <==> json_is_valid(text@),
        r matches Ok(s) ==> s@ == json_pretty_text(text@),
        r matches Err(e) ==> e@ == json_error_text(text@),
{
    match serde_json::from_str::<serde_json::Value>(text) {
        Ok(v) => serde_json::to_string_pretty(&v).map_err(|e| e.to_string()),
        Err(e) => Err(e.to_string()),
    }
}

/// Number of leading `' '` characters.
pub open spec fn leading_spaces(s: Seq<char>) -> nat
    decreases s.len(),
{
    if s.len() > 0 && s[0] == ' ' {
        1 + leading_spaces(s.drop_first())
    } else {
        0
    }
}

pub open spec fn spaces_spec(n: nat) -> Seq<char> {
    Seq::new(n, |i: int| ' ')
}

/// A two-space-indented line re-indented to `width` spaces per level.
pub open spec fn reindent_line(line: Seq<char>, width: nat) -> Seq<char> {
    spaces_spec(width * (leading_spaces(line) / 2)) + trim_start_spec(line)
}

pub open spec fn reindent_spec(pretty: Seq<char>, width: nat) -> Seq<char> {
    join_spec(lines_spec(pretty).map_values(|l: Seq<char>| reindent_line(l, width)), "\n"@)
}

pub open spec fn indent_or(opts: FormatOptions, default: u8) -> u8 {
    match opts.indent {
        Some(w) => w,
        None => default,
    }
}

/// The JSON formatter's output: the pretty text of the trimmed input,
/// re-indented when the width is not two.
pub open spec fn json_format_spec(input: Seq<char>, opts: FormatOptions) -> Option<Seq<char>> {
    let t = trim_spec(input);
    if !json_is_valid(t) {
        None
    } else {
        let pretty = json_pretty_text(t);
        let width = indent_or(opts, 2);
        if width == 2 {
            Some(pretty)
        } else {
            Some(reindent_spec(pretty, width as nat))
        }
    }
}

/// `n` spaces.
pub fn spaces(n: usize) -> (r: Vec<char>)
    ensures
        r@ == spaces_spec(n as nat),
{
    let mut r: Vec<char> = Vec::new();
    while r.len() < n
        invariant
            r.len() <= n,
            forall|i: int| 0 <= i < r.len() ==> r@[i] == ' ',
        decreases n - r.len(),
    {
        r.push(' ');
    }
    assert(r@ =~= spaces_spec(n as nat));
    r
}

fn count_leading_spaces(v: &Vec<char>) -> (n: usize)
    ensures
        n == leading_spaces(v@),
        n <= v.len(),
{
    let mut i: usize = 0;
    assert(v@.skip(0) =~= v@);
    while i < v.len() && v[i] == ' '
        invariant
            i <= v.len(),
            leading_spaces(v@) == i + leading_spaces(v@.skip(i as int)),
        decreases v.len() - i,
    {
        assert(v@.skip(i as int).drop_first() =~= v@.skip(i + 1));
        i += 1;
    }
    assert(v@.skip(0) =~= v@);
    i
}

fn reindent(pretty: &Vec<char>, width: u8) -> (r: Vec<char>)
    ensures
        r@ == reindent_spec(pretty@, width as nat),
{
    let ls = lines(pretty);
    let mut out: Vec<Vec<char>> = Vec::new();
    let mut i: usize = 0;
    while i < ls.len()
        invariant
            i <= ls.len(),
            views(ls@) == lines_spec(pretty@),
            out.len() == i,
            forall|j: int| 0 <= j < i ==> (#[trigger] out@[j])@ == reindent_line(ls@[j]@, width as nat),
        decreases ls.len() - i,
    {
        let line = &ls[i];
        let lead = count_leading_spaces(line);
        let levels = lead / 2;
        let unit = spaces(width as usize);
        let mut r: Vec<char> = Vec::new();
        let mut k: usize = 0;
        while k < levels
            invariant
                k <= levels,
                unit@ == spaces_spec(width as nat),
                r@ == spaces_spec(width as nat * k as nat),
            decreases levels - k,
        {
            push_all(&mut r, &unit);
            assert(r@ =~= spaces_spec(width as nat * (k + 1) as nat)) by {
                assert(width as nat * (k + 1) as nat == width as nat * k as nat + width as nat) by (nonlinear_arith);
            }
            k += 1;
        }
        let rest = trim_start(line);
        push_all(&mut r, &rest);
        out.push(r);
        i += 1;
    }
    assert(views(out@) =~= lines_spec(pretty@).map_values(|l: Seq<char>| reindent_line(l, width as nat))) by {
        assert forall|j: int| 0 <= j < out.len() implies views(out@)[j] == lines_spec(pretty@).map_values(|l: Seq<char>| reindent_line(l, width as nat))[j] by {
            assert(views(ls@)[j] == ls@[j]@);
        }
    }
    join(&out, &chars_of("\n"))
}

pub struct JsonFormatter;

impl Formatter for JsonFormatter {
    open spec fn handled(&self) -> Seq<Language> {
        seq![Language::Json]
    }

    open spec fn formatted(&self, input: Seq<char>, opts: FormatOptions) -> Option<Seq<char>> {
        json_format_spec(input, opts)
    }

    open spec fn failure(&self, input: Seq<char>, opts: FormatOptions) -> Seq<char> {
        "JSON parse error: "@ + json_error_text(trim_spec(input))
    }

    open spec fn id_text(&self) -> Seq<char> {
        "json"@
    }

    fn id(&self) -> (r: &str) {
        "json"
    }

    fn languages(&self) -> (r: Vec<Language>) {
        let mut v: Vec<Language> = Vec::new();
        v.push(Language::Json);
        assert(v@ =~= seq![Language::Json]);
        v
    }

    fn format(&self, input: &str, opts: &FormatOptions) -> (r: Result<String>) {
        let width: u8 = match opts.indent {
            Some(w) => w,
            None => 2,
        };
        let t = string_of(&trim(&chars_of(input)));
        let pretty = match json_pretty(t.as_str()) {
            Ok(p) => p,
            Err(e) => {
                let mut m = chars_of("JSON parse error: ");
                push_str(&mut m, e.as_str());
                return Err(CnxError::Other(string_of(&m)));
            },
        };
        if width == 2 {
            return Ok(pretty);
        }
        let out = reindent(&chars_of(pretty.as_str()), width);
        Ok(string_of(&out))
    }
}

/// One more level of two-space nesting gives exactly one more unit of
/// `width` spaces: a line at depth `d` gets `d * width` spaces.
pub proof fn lemma_reindent_deeper(line: Seq<char>, width: nat)
    ensures
        reindent_line(seq![' ', ' '] + line, width) == spaces_spec(width) + reindent_line(line, width),
{
    let l2 = seq![' ', ' '] + line;
    assert(l2.drop_first() =~= seq![' '] + line);
    assert((seq![' '] + line).drop_first() =~= line);
    assert(l2[0] == ' ');
    assert((seq![' '] + line)[0] == ' ');
    assert(leading_spaces(seq![' '] + line) == 1 + leading_spaces(line));
    assert(leading_spaces(l2) == 2 + leading_spaces(line));
    assert(trim_start_spec(l2) == trim_start_spec(seq![' '] + line));
    assert(trim_start_spec(seq![' '] + line) == trim_start_spec(line));
    let k = leading_spaces(line) / 2;
    assert((2 + leading_spaces(line)) / 2 == 1 + k);
    assert(width * (1 + k) == width + width * k) by (nonlinear_arith);
    assert(spaces_spec(width * (1 + k)) =~= spaces_spec(width) + spaces_spec(width * k));
}

/// A line at the top level (starting with anything but whitespace, or
/// empty) is left as it is.
pub proof fn lemma_reindent_top(line: Seq<char>, width: nat)
    requires
        line.len() == 0 || !crate::text::is_ws(line[0]),
    ensures
        reindent_line(line, width) == line,
{
    assert(spaces_spec(0) =~= Seq::<char>::empty());
    assert(Seq::<char>::empty() + line =~= line);
}

/// With a width of two, a line indented by an even number of spaces (and
/// holding no other whitespace) is left as it is.
pub proof fn lemma_reindent_two_keeps(line: Seq<char>)
    requires
        leading_spaces(line) % 2 == 0,
        forall|i: int| 0 <= i < line.len() ==> line[i] == ' ' || !crate::text::is_ws(#[trigger] line[i]),
    ensures
        reindent_line(line, 2) == line,
    decreases line.len(),
{
    if line.len() > 0 && line[0] == ' ' {
        assert(line.drop_first()[0] == line[1]) by {
            assert(leading_spaces(line) == 1 + leading_spaces(line.drop_first()));
        }
        let rest = line.skip(2);
        assert(line.drop_first().drop_first() =~= rest);
        assert(line[1] == ' ');
        assert(leading_spaces(line) == 2 + leading_spaces(rest));
        assert forall|i: int| 0 <= i < rest.len() implies rest[i] == ' ' || !crate::text::is_ws(#[trigger] rest[i]) by {
            assert(rest[i] == line[i + 2]);
        }
        lemma_reindent_two_keeps(rest);
        assert(line =~= seq![' ', ' '] + rest);
        lemma_reindent_deeper(rest, 2);
        assert(spaces_spec(2) =~= seq![' ', ' ']);
    } else {
        lemma_reindent_top(line, 2);
    }
}

} // verus!
