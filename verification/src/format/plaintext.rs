//! Plain-text normalisation: tabs expand to spaces, lines lose their
//! trailing whitespace, and the text ends with a single newline.

use vstd::prelude::*;
use crate::error::Result;
use crate::format::{FormatOptions, Formatter, Language};
use crate::format::json::{indent_or, spaces, spaces_spec};
use crate::format::markdown::{drop_trailing_blanks, finish_lines};
use crate::text::{chars_of, join_spec, lines, lines_spec, push_all, string_of, trim_end, trim_end_spec, views};

verus! {

/// `l` with every tab replaced by `tab`.
pub open spec fn replace_tabs(l: Seq<char>, tab: Seq<char>) -> Seq<char>
    decreases l.len(),
{
    if l.len() == 0 {
        Seq::empty()
    } else {
        replace_tabs(l.drop_last(), tab) + (if l.last() == '\t' { tab } else { seq![l.last()] })
    }
}

pub open spec fn plain_line(l: Seq<char>, width: nat) -> Seq<char> {
    trim_end_spec(replace_tabs(l, spaces_spec(width)))
}

pub open spec fn plaintext_format_spec(input: Seq<char>, opts: FormatOptions) -> Seq<char> {
    let width = indent_or(opts, 4) as nat;
    let ls = lines_spec(input).map_values(|l: Seq<char>| plain_line(l, width));
    join_spec(drop_trailing_blanks(ls).push(Seq::empty()), "\n"@)
}

fn expand_tabs(l: &Vec<char>, tab: &Vec<char>) -> (r: Vec<char>)
    ensures
        r@ == replace_tabs(l@, tab@),
{
    let mut r: Vec<char> = Vec::new();
    let mut i: usize = 0;
    while i < l.len()
        invariant
            i <= l.len(),
            r@ == replace_tabs(l@.take(i as int), tab@),
        decreases l.len() - i,
    {
        assert(l@.take(i + 1).drop_last() =~= l@.take(i as int));
        if l[i] == '\t' {
            push_all(&mut r, tab);
        } else {
            r.push(l[i]);
        }
        i += 1;
    }
    assert(l@.take(l.len() as int) =~= l@);
    r
}

pub struct PlainTextFormatter;

impl Formatter for PlainTextFormatter {
    open spec fn handled(&self) -> Seq<Language> {
        seq![Language::PlainText]
    }

    open spec fn formatted(&self, input: Seq<char>, opts: FormatOptions) -> Option<Seq<char>> {
        Some(plaintext_format_spec(input, opts))
    }

    open spec fn failure(&self, input: Seq<char>, opts: FormatOptions) -> Seq<char> {
        Seq::empty()
    }

    open spec fn id_text(&self) -> Seq<char> {
        "plaintext"@
    }

    fn id(&self) -> (r: &str) {
        "plaintext"
    }

    fn languages(&self) -> (r: Vec<Language>) {
        let mut v: Vec<Language> = Vec::new();
        v.push(Language::PlainText);
        assert(v@ =~= seq![Language::PlainText]);
        v
    }

    fn format(&self, input: &str, opts: &FormatOptions) -> (r: Result<String>) {
        let width: u8 = match opts.indent {
            Some(w) => w,
            None => 4,
        };
        let tab = spaces(width as usize);
        let ls = lines(&chars_of(input));
        let mut out: Vec<Vec<char>> = Vec::new();
        let mut i: usize = 0;
        while i < ls.len()
            invariant
                i <= ls.len(),
                tab@ == spaces_spec(width as nat),
                out.len() == i,
                forall|j: int| 0 <= j < i ==> (#[trigger] out@[j])@ == plain_line(ls@[j]@, width as nat),
            decreases ls.len() - i,
        {
            let e = expand_tabs(&ls[i], &tab);
            out.push(trim_end(&e));
            i += 1;
        }
        assert(views(out@) =~= lines_spec(input@).map_values(|l: Seq<char>| plain_line(l, width as nat))) by {
            assert forall|j: int| 0 <= j < out.len() implies views(out@)[j] == lines_spec(input@).map_values(|l: Seq<char>| plain_line(l, width as nat))[j] by {
                assert(views(ls@)[j] == ls@[j]@);
            }
        }
        let r = finish_lines(&mut out);
        Ok(string_of(&r))
    }
}

/// Tab expansion works character by character: expanding a text gives
/// the expansions of any two parts it is cut into, one after the other.
pub proof fn lemma_replace_tabs_splits(a: Seq<char>, b: Seq<char>, tab: Seq<char>)
    ensures
        replace_tabs(a + b, tab) == replace_tabs(a, tab) + replace_tabs(b, tab),
    decreases b.len(),
{
    if b.len() == 0 {
        assert(a + b =~= a);
        assert(replace_tabs(a, tab) + replace_tabs(b, tab) =~= replace_tabs(a, tab));
    } else {
        lemma_replace_tabs_splits(a, b.drop_last(), tab);
        assert((a + b).drop_last() =~= a + b.drop_last());
        assert((a + b).last() == b.last());
        assert(replace_tabs(a + b, tab) =~= replace_tabs(a, tab) + replace_tabs(b, tab));
    }
}

/// Each tab becomes the tab text, wherever it stands; any other character
/// stays as it is.
pub proof fn lemma_replace_tabs_one(c: char, tab: Seq<char>)
    ensures
        replace_tabs(seq![c], tab) == (if c == '\t' { tab } else { seq![c] }),
{
    assert(seq![c].drop_last() =~= Seq::<char>::empty());
    assert(seq![c].last() == c);
    assert(replace_tabs(Seq::<char>::empty(), tab) == Seq::<char>::empty());
    assert(Seq::<char>::empty() + tab =~= tab);
    assert(Seq::<char>::empty() + seq![c] =~= seq![c]);
}

/// The number of tabs in a text.
pub open spec fn tab_count(l: Seq<char>) -> nat
    decreases l.len(),
{
    if l.len() == 0 {
        0
    } else {
        tab_count(l.drop_last()) + (if l.last() == '\t' { 1nat } else { 0nat })
    }
}

/// A text with `n` tabs grows by `n * (tab length - 1)` characters.
pub proof fn lemma_replace_tabs_len(l: Seq<char>, tab: Seq<char>)
    ensures
        replace_tabs(l, tab).len() == l.len() + tab_count(l) * (tab.len() - 1),
    decreases l.len(),
{
    if l.len() > 0 {
        lemma_replace_tabs_len(l.drop_last(), tab);
        let n = tab_count(l.drop_last());
        let x: int = tab.len() - 1;
        if l.last() == '\t' {
            assert(tab_count(l) == n + 1);
            assert(replace_tabs(l, tab).len() == replace_tabs(l.drop_last(), tab).len() + tab.len());
            assert((n + 1) * x == n * x + x) by (nonlinear_arith);
        } else {
            assert(tab_count(l) == n);
            assert(replace_tabs(l, tab).len() == replace_tabs(l.drop_last(), tab).len() + 1);
        }
    } else {
        let x: int = tab.len() - 1;
        assert(0 * x == 0) by (nonlinear_arith);
    }
}

/// Expanding tabs to spaces leaves no tab anywhere in the line.
pub proof fn lemma_no_tab_left(l: Seq<char>, width: nat)
    ensures
        forall|i: int| 0 <= i < replace_tabs(l, spaces_spec(width)).len()
            ==> #[trigger] replace_tabs(l, spaces_spec(width))[i] != '\t',
    decreases l.len(),
{
    if l.len() > 0 {
        lemma_no_tab_left(l.drop_last(), width);
        let pre = replace_tabs(l.drop_last(), spaces_spec(width));
        let r = replace_tabs(l, spaces_spec(width));
        assert forall|i: int| 0 <= i < r.len() implies #[trigger] r[i] != '\t' by {
            if i < pre.len() {
                assert(r[i] == pre[i]);
            }
        }
    }
}

} // verus!
