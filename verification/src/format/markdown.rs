//! Markdown normalisation: trailing whitespace outside fenced code blocks is
//! removed, runs of blank lines collapse to one, and the text ends with a
//! single newline.

use vstd::prelude::*;
use crate::error::Result;
use crate::format::{FormatOptions, Formatter, Language};
use crate::text::{contains_at, contains_spec, find_char, is_ws, lemma_find_char_bounds, lemma_find_char_unique, strip_cr, all_ws, chars_of, is_blank, join, join_spec, lines, lines_spec, slice_chars, starts_with, starts_with_spec, string_of, trim_end, trim_end_spec, trim_start, trim_start_spec, views};

verus! {

pub open spec fn is_fence_line(l: Seq<char>) -> bool {
    starts_with_spec(trim_start_spec(l), "```"@)
}

/// Lines after fence tracking: a fence line flips the fence state first; a
/// line inside a fence is kept as is, any other line loses its trailing
/// whitespace.
pub open spec fn fence_pass(ls: Seq<Seq<char>>, in_fence: bool) -> Seq<Seq<char>>
    decreases ls.len(),
{
    if ls.len() == 0 {
        Seq::empty()
    } else {
        let l = ls[0];
        let f = if is_fence_line(l) { !in_fence } else { in_fence };
        seq![if f { l } else { trim_end_spec(l) }] + fence_pass(ls.drop_first(), f)
    }
}

/// Drops every blank line that directly follows a kept blank line.
pub open spec fn collapse_blanks(ls: Seq<Seq<char>>, prev_blank: bool) -> Seq<Seq<char>>
    decreases ls.len(),
{
    if ls.len() == 0 {
        Seq::empty()
    } else {
        let b = all_ws(ls[0]);
        if b && prev_blank {
            collapse_blanks(ls.drop_first(), prev_blank)
        } else {
            seq![ls[0]] + collapse_blanks(ls.drop_first(), b)
        }
    }
}

/// Removes blank lines at the end.
pub open spec fn drop_trailing_blanks(ls: Seq<Seq<char>>) -> Seq<Seq<char>>
    decreases ls.len(),
{
    if ls.len() > 0 && all_ws(ls.last()) {
        drop_trailing_blanks(ls.drop_last())
    } else {
        ls
    }
}

pub open spec fn markdown_format_spec(input: Seq<char>) -> Seq<char> {
    let ls = collapse_blanks(fence_pass(lines_spec(input), false), false);
    join_spec(drop_trailing_blanks(ls).push(Seq::empty()), "\n"@)
}

pub fn copy_chars(v: &Vec<char>) -> (r: Vec<char>)
    ensures
        r@ == v@,
{
    let r = slice_chars(v, 0, v.len());
    assert(v@.subrange(0, v.len() as int) =~= v@);
    r
}

/// Removes blank lines at the end of `ls`.
pub fn pop_trailing_blanks(ls: &mut Vec<Vec<char>>)
    ensures
        views(final(ls)@) == drop_trailing_blanks(views(old(ls)@)),
{
    while ls.len() > 0 && is_blank(&ls[ls.len() - 1])
        invariant
            drop_trailing_blanks(views(ls@)) == drop_trailing_blanks(views(old(ls)@)),
        decreases ls.len(),
    {
        let ghost before = views(ls@);
        ls.pop();
        assert(views(ls@) =~= before.drop_last());
    }
}

fn fence_lines(ls: &Vec<Vec<char>>) -> (r: Vec<Vec<char>>)
    ensures
        views(r@) == fence_pass(views(ls@), false),
{
    let mut out: Vec<Vec<char>> = Vec::new();
    let mut in_fence = false;
    let fence = chars_of("```");
    let mut i: usize = 0;
    assert(views(ls@).skip(0) =~= views(ls@));
    while i < ls.len()
        invariant
            i <= ls.len(),
            fence@ == "```"@,
            views(out@) + fence_pass(views(ls@).skip(i as int), in_fence) == fence_pass(views(ls@), false),
        decreases ls.len() - i,
    {
        let ghost rest = views(ls@).skip(i as int);
        assert(rest[0] == ls@[i as int]@);
        assert(rest.drop_first() =~= views(ls@).skip(i + 1));
        let l = &ls[i];
        let ghost f0 = in_fence;
        if starts_with(&trim_start(l), &fence) {
            in_fence = !in_fence;
        }
        let kept = if in_fence { copy_chars(l) } else { trim_end(l) };
        let ghost before = views(out@);
        out.push(kept);
        assert(views(out@) =~= before.push(kept@));
        assert(views(out@) + fence_pass(views(ls@).skip(i + 1), in_fence) =~= before + fence_pass(rest, f0)) by {
            assert(before.push(kept@) + fence_pass(views(ls@).skip(i + 1), in_fence) =~= before + (seq![kept@] + fence_pass(views(ls@).skip(i + 1), in_fence)));
        }
        i += 1;
    }
    assert(views(ls@).skip(i as int) =~= Seq::<Seq<char>>::empty());
    assert(views(out@) + Seq::<Seq<char>>::empty() =~= views(out@));
    out
}

fn collapse_lines(ls: &Vec<Vec<char>>) -> (r: Vec<Vec<char>>)
    ensures
        views(r@) == collapse_blanks(views(ls@), false),
{
    let mut out: Vec<Vec<char>> = Vec::new();
    let mut prev = false;
    let mut i: usize = 0;
    assert(views(ls@).skip(0) =~= views(ls@));
    while i < ls.len()
        invariant
            i <= ls.len(),
            views(out@) + collapse_blanks(views(ls@).skip(i as int), prev) == collapse_blanks(views(ls@), false),
        decreases ls.len() - i,
    {
        let ghost rest = views(ls@).skip(i as int);
        assert(rest[0] == ls@[i as int]@);
        assert(rest.drop_first() =~= views(ls@).skip(i + 1));
        let b = is_blank(&ls[i]);
        if b && prev {
            i += 1;
        } else {
            let ghost before = views(out@);
            let c = copy_chars(&ls[i]);
            out.push(c);
            assert(views(out@) =~= before.push(c@));
            assert(before.push(c@) + collapse_blanks(views(ls@).skip(i + 1), b) =~= before + (seq![c@] + collapse_blanks(views(ls@).skip(i + 1), b)));
            prev = b;
            i += 1;
        }
    }
    assert(views(ls@).skip(i as int) =~= Seq::<Seq<char>>::empty());
    assert(views(out@) + Seq::<Seq<char>>::empty() =~= views(out@));
    out
}

/// Ends the line list with an empty line and joins it with newlines.
pub fn finish_lines(ls: &mut Vec<Vec<char>>) -> (r: Vec<char>)
    ensures
        r@ == join_spec(drop_trailing_blanks(views(old(ls)@)).push(Seq::empty()), "\n"@),
{
    pop_trailing_blanks(ls);
    let ghost before = views(ls@);
    ls.push(Vec::new());
    assert(views(ls@) =~= before.push(Seq::empty()));
    join(ls, &chars_of("\n"))
}

pub struct MarkdownFormatter;

impl Formatter for MarkdownFormatter {
    open spec fn handled(&self) -> Seq<Language> {
        seq![Language::Markdown]
    }

    open spec fn formatted(&self, input: Seq<char>, opts: FormatOptions) -> Option<Seq<char>> {
        Some(markdown_format_spec(input))
    }

    open spec fn failure(&self, input: Seq<char>, opts: FormatOptions) -> Seq<char> {
        Seq::empty()
    }

    open spec fn id_text(&self) -> Seq<char> {
        "markdown"@
    }

    fn id(&self) -> (r: &str) {
        "markdown"
    }

    fn languages(&self) -> (r: Vec<Language>) {
        let mut v: Vec<Language> = Vec::new();
        v.push(Language::Markdown);
        assert(v@ =~= seq![Language::Markdown]);
        v
    }

    fn format(&self, input: &str, _opts: &FormatOptions) -> (r: Result<String>) {
        let ls = lines(&chars_of(input));
        let fenced = fence_lines(&ls);
        let mut collapsed = collapse_lines(&fenced);
        let out = finish_lines(&mut collapsed);
        Ok(string_of(&out))
    }
}


// ---------------------------------------------------------------------------
// Laws of Markdown normalisation
// ---------------------------------------------------------------------------

/// A line holds no line break characters.
pub open spec fn clean_line(l: Seq<char>) -> bool {
    forall|i: int| 0 <= i < l.len() ==> (#[trigger] l[i]) != '\n' && l[i] != '\r'
}

pub open spec fn all_clean(ls: Seq<Seq<char>>) -> bool {
    forall|i: int| 0 <= i < ls.len() ==> clean_line(#[trigger] ls[i])
}

/// Each line followed by a newline.
pub open spec fn terminated(ls: Seq<Seq<char>>) -> Seq<char>
    decreases ls.len(),
{
    if ls.len() == 0 {
        Seq::empty()
    } else {
        ls[0] + seq!['\n'] + terminated(ls.drop_first())
    }
}

/// Whether fence tracking leaves the lines as they are: every line outside
/// a fenced block (a fence line counts as inside when it opens one) has no
/// trailing whitespace.
pub open spec fn fence_stable(ls: Seq<Seq<char>>, in_fence: bool) -> bool
    decreases ls.len(),
{
    if ls.len() == 0 {
        true
    } else {
        let f = if is_fence_line(ls[0]) { !in_fence } else { in_fence };
        (f || trim_end_spec(ls[0]) == ls[0]) && fence_stable(ls.drop_first(), f)
    }
}

/// No blank line follows a blank line (the first line counts as following
/// a blank one when `prev_blank`).
pub open spec fn no_blank_run(ls: Seq<Seq<char>>, prev_blank: bool) -> bool
    decreases ls.len(),
{
    if ls.len() == 0 {
        true
    } else {
        !(all_ws(ls[0]) && prev_blank) && no_blank_run(ls.drop_first(), all_ws(ls[0]))
    }
}

proof fn lemma_trim_start_at(s: Seq<char>) -> (a: int)
    ensures
        0 <= a <= s.len(),
        trim_start_spec(s) == s.skip(a),
        forall|j: int| 0 <= j < a ==> is_ws(#[trigger] s[j]),
        a < s.len() ==> !is_ws(s[a]),
    decreases s.len(),
{
    if s.len() > 0 && is_ws(s[0]) {
        let a1 = lemma_trim_start_at(s.drop_first());
        assert(s.drop_first().skip(a1) =~= s.skip(a1 + 1));
        assert forall|j: int| 0 <= j < a1 + 1 implies is_ws(#[trigger] s[j]) by {
            if j > 0 {
                assert(s[j] == s.drop_first()[j - 1]);
            }
        }
        if a1 + 1 < s.len() {
            assert(s[a1 + 1] == s.drop_first()[a1]);
        }
        a1 + 1
    } else {
        assert(s.skip(0) =~= s);
        0
    }
}

proof fn lemma_trim_end_at(s: Seq<char>) -> (b: int)
    ensures
        0 <= b <= s.len(),
        trim_end_spec(s) == s.take(b),
        forall|j: int| b <= j < s.len() ==> is_ws(#[trigger] s[j]),
        b > 0 ==> !is_ws(s[b - 1]),
    decreases s.len(),
{
    if s.len() > 0 && is_ws(s.last()) {
        let b1 = lemma_trim_end_at(s.drop_last());
        assert(s.drop_last().take(b1) =~= s.take(b1));
        assert forall|j: int| b1 <= j < s.len() implies is_ws(#[trigger] s[j]) by {
            if j < s.len() - 1 {
                assert(s[j] == s.drop_last()[j]);
            }
        }
        if b1 > 0 {
            assert(s[b1 - 1] == s.drop_last()[b1 - 1]);
        }
        b1
    } else {
        assert(s.take(s.len() as int) =~= s);
        s.len() as int
    }
}

proof fn lemma_trim_end_twice(l: Seq<char>)
    ensures
        trim_end_spec(trim_end_spec(l)) == trim_end_spec(l),
{
    let b = lemma_trim_end_at(l);
    let t = l.take(b);
    let b2 = lemma_trim_end_at(t);
    if b2 < b {
        assert(t[b - 1] == l[b - 1]);
    }
    assert(t.take(b2) =~= t);
}

proof fn lemma_trim_end_clean(l: Seq<char>)
    requires
        clean_line(l),
    ensures
        clean_line(trim_end_spec(l)),
{
    let b = lemma_trim_end_at(l);
    assert forall|i: int| 0 <= i < l.take(b).len() implies (#[trigger] l.take(b)[i]) != '\n' && l.take(b)[i] != '\r' by {
        assert(l.take(b)[i] == l[i]);
    }
}

/// Trimming the end of a line does not change whether it is a fence line.
proof fn lemma_fence_line_trim_end(l: Seq<char>)
    ensures
        is_fence_line(trim_end_spec(l)) == is_fence_line(l),
{
    reveal_strlit("```");
    let fence = "```"@;
    assert(fence.len() == 3 && fence[0] == '`' && fence[1] == '`' && fence[2] == '`');
    assert(!is_ws('`'));
    let b = lemma_trim_end_at(l);
    let t = l.take(b);
    let a = lemma_trim_start_at(l);
    let a2 = lemma_trim_start_at(t);
    if a < b {
        if a2 < a {
            assert(t[a2] == l[a2]);
        }
        if a2 > a {
            assert(t[a] == l[a]);
        }
        assert(a2 == a);
        if is_fence_line(l) {
            assert(l.skip(a).subrange(0, 3)[2] == l[a + 2]);
            assert(!is_ws(l[a + 2]));
            assert(a + 2 < b);
            assert(t.skip(a).subrange(0, 3) =~= l.skip(a).subrange(0, 3));
        }
        if is_fence_line(t) {
            assert(t.skip(a).subrange(0, 3) =~= l.skip(a).subrange(0, 3));
        }
    } else {
        if b > 0 {
            assert(is_ws(l[b - 1]));
        }
        assert(b == 0);
        assert(t.skip(a2).len() == 0);
        if a < l.len() {
            assert(is_ws(l[a]));
        }
        assert(l.skip(a).len() == 0);
    }
}

proof fn lemma_lines_clean(s: Seq<char>)
    requires
        forall|i: int| 0 <= i < s.len() ==> s[i] != '\r',
    ensures
        all_clean(lines_spec(s)),
    decreases s.len(),
{
    if s.len() > 0 {
        lemma_find_char_bounds(s, '\n');
        let k = find_char(s, '\n');
        if k >= s.len() {
            assert(lines_spec(s) == seq![s]);
            assert(clean_line(s));
        } else {
            let rest = s.skip(k + 1);
            assert forall|i: int| 0 <= i < rest.len() implies rest[i] != '\r' by {
                assert(rest[i] == s[i + k + 1]);
            }
            lemma_lines_clean(rest);
            let first = strip_cr(s.take(k));
            assert(first == s.take(k));
            assert(clean_line(first));
            let ls = lines_spec(s);
            assert(ls == seq![first] + lines_spec(rest));
            assert forall|i: int| 0 <= i < ls.len() implies clean_line(#[trigger] ls[i]) by {
                if i > 0 {
                    assert(ls[i] == lines_spec(rest)[i - 1]);
                }
            }
        }
    }
}

proof fn lemma_terminated_push(ls: Seq<Seq<char>>, x: Seq<char>)
    ensures
        terminated(ls.push(x)) == terminated(ls) + x + seq!['\n'],
    decreases ls.len(),
{
    let p = ls.push(x);
    if ls.len() == 0 {
        assert(p.drop_first() =~= Seq::<Seq<char>>::empty());
        assert(p[0] == x);
        assert(terminated(p.drop_first()) == Seq::<char>::empty());
        assert(terminated(ls) == Seq::<char>::empty());
        assert(terminated(p) =~= x + seq!['\n']);
    } else {
        assert(p.drop_first() =~= ls.drop_first().push(x));
        lemma_terminated_push(ls.drop_first(), x);
        assert(terminated(p) =~= terminated(ls) + x + seq!['\n']);
    }
}

proof fn lemma_join_is_terminated(ls: Seq<Seq<char>>)
    ensures
        join_spec(ls.push(Seq::empty()), "\n"@) == terminated(ls),
    decreases ls.len(),
{
    reveal_strlit("\n");
    let p = ls.push(Seq::<char>::empty());
    if ls.len() == 0 {
        assert(join_spec(p, "\n"@) == p[0]);
    } else {
        let q = ls.drop_last();
        let x = ls.last();
        assert(p.drop_last() =~= ls);
        assert(ls =~= q.push(x));
        lemma_terminated_push(q, x);
        lemma_join_is_terminated(q);
        if q.len() == 0 {
            assert(join_spec(ls, "\n"@) == x);
            assert(terminated(q) =~= Seq::<char>::empty());
            assert(join_spec(p, "\n"@) =~= terminated(ls));
        } else {
            let qp = q.push(Seq::<char>::empty());
            assert(qp.drop_last() =~= q);
            assert(join_spec(qp, "\n"@) == join_spec(q, "\n"@) + "\n"@ + Seq::<char>::empty());
            assert(ls.drop_last() =~= q);
            assert(join_spec(ls, "\n"@) == join_spec(q, "\n"@) + "\n"@ + x);
            assert(join_spec(p, "\n"@) =~= terminated(ls));
        }
    }
}

proof fn lemma_lines_of_terminated(ls: Seq<Seq<char>>)
    requires
        all_clean(ls),
    ensures
        lines_spec(terminated(ls)) == ls,
    decreases ls.len(),
{
    if ls.len() > 0 {
        let l = ls[0];
        let rest = ls.drop_first();
        assert(clean_line(l));
        assert forall|i: int| 0 <= i < rest.len() implies clean_line(#[trigger] rest[i]) by {
            assert(rest[i] == ls[i + 1]);
        }
        lemma_lines_of_terminated(rest);
        let s = terminated(ls);
        assert(s == l + seq!['\n'] + terminated(rest));
        let k = l.len() as int;
        assert(s[k] == '\n');
        assert forall|j: int| 0 <= j < k implies s[j] != '\n' by {
            assert(s[j] == l[j]);
        }
        lemma_find_char_unique(s, '\n', k);
        assert(s.take(k) =~= l);
        assert(strip_cr(l) == l);
        assert(s.skip(k + 1) =~= terminated(rest));
        assert(lines_spec(s) == seq![l] + lines_spec(terminated(rest)));
        assert(lines_spec(s) =~= ls);
    }
}

proof fn lemma_blank_not_fence(l: Seq<char>)
    requires
        all_ws(l),
    ensures
        !is_fence_line(l),
{
    reveal_strlit("```");
    let a = lemma_trim_start_at(l);
    if a < l.len() {
        assert(is_ws(l[a]));
    }
    assert(l.skip(a).len() == 0);
}

proof fn lemma_stable_pass(ls: Seq<Seq<char>>, s: bool)
    requires
        fence_stable(ls, s),
    ensures
        fence_pass(ls, s) == ls,
    decreases ls.len(),
{
    if ls.len() > 0 {
        let f = if is_fence_line(ls[0]) { !s } else { s };
        lemma_stable_pass(ls.drop_first(), f);
        assert(fence_pass(ls, s) =~= seq![ls[0]] + ls.drop_first());
        assert(seq![ls[0]] + ls.drop_first() =~= ls);
    }
}

proof fn lemma_pass_stable(ls: Seq<Seq<char>>, s: bool)
    ensures
        fence_stable(fence_pass(ls, s), s),
        all_clean(ls) ==> all_clean(fence_pass(ls, s)),
        fence_pass(ls, s).len() == ls.len(),
    decreases ls.len(),
{
    if ls.len() > 0 {
        let l = ls[0];
        let f = if is_fence_line(l) { !s } else { s };
        let kept = if f { l } else { trim_end_spec(l) };
        let rest = ls.drop_first();
        lemma_pass_stable(rest, f);
        let out = fence_pass(ls, s);
        assert(out == seq![kept] + fence_pass(rest, f));
        assert(out[0] == kept);
        assert(out.drop_first() =~= fence_pass(rest, f));
        lemma_fence_line_trim_end(l);
        lemma_trim_end_twice(l);
        assert(is_fence_line(kept) == is_fence_line(l));
        if all_clean(ls) {
            assert(clean_line(ls[0]));
            lemma_trim_end_clean(l);
            assert forall|i: int| 0 <= i < rest.len() implies clean_line(#[trigger] rest[i]) by {
                assert(rest[i] == ls[i + 1]);
            }
            assert forall|i: int| 0 <= i < out.len() implies clean_line(#[trigger] out[i]) by {
                if i > 0 {
                    assert(out[i] == fence_pass(rest, f)[i - 1]);
                }
            }
        }
    }
}

proof fn lemma_collapse_props(ls: Seq<Seq<char>>, p: bool, s: bool)
    ensures
        no_blank_run(collapse_blanks(ls, p), p),
        fence_stable(ls, s) ==> fence_stable(collapse_blanks(ls, p), s),
        all_clean(ls) ==> all_clean(collapse_blanks(ls, p)),
    decreases ls.len(),
{
    if ls.len() > 0 {
        let l = ls[0];
        let rest = ls.drop_first();
        let b = all_ws(l);
        let f = if is_fence_line(l) { !s } else { s };
        if all_clean(ls) {
            assert forall|i: int| 0 <= i < rest.len() implies clean_line(#[trigger] rest[i]) by {
                assert(rest[i] == ls[i + 1]);
            }
            assert(clean_line(ls[0]));
        }
        if b && p {
            lemma_blank_not_fence(l);
            lemma_collapse_props(rest, p, s);
        } else {
            lemma_collapse_props(rest, b, f);
            let out = collapse_blanks(ls, p);
            let tail = collapse_blanks(rest, b);
            assert(out == seq![l] + tail);
            assert(out[0] == l);
            assert(out.drop_first() =~= tail);
            if all_clean(ls) {
                assert forall|i: int| 0 <= i < out.len() implies clean_line(#[trigger] out[i]) by {
                    if i > 0 {
                        assert(out[i] == tail[i - 1]);
                    }
                }
            }
        }
    }
}

proof fn lemma_no_run_collapse(ls: Seq<Seq<char>>, p: bool)
    requires
        no_blank_run(ls, p),
    ensures
        collapse_blanks(ls, p) == ls,
    decreases ls.len(),
{
    if ls.len() > 0 {
        lemma_no_run_collapse(ls.drop_first(), all_ws(ls[0]));
        assert(collapse_blanks(ls, p) =~= seq![ls[0]] + ls.drop_first());
        assert(seq![ls[0]] + ls.drop_first() =~= ls);
    }
}

proof fn lemma_prefix_props(ls: Seq<Seq<char>>, k: int, p: bool, s: bool)
    requires
        0 <= k <= ls.len(),
    ensures
        no_blank_run(ls, p) ==> no_blank_run(ls.take(k), p),
        fence_stable(ls, s) ==> fence_stable(ls.take(k), s),
        all_clean(ls) ==> all_clean(ls.take(k)),
    decreases ls.len(),
{
    if k > 0 {
        let l = ls[0];
        let f = if is_fence_line(l) { !s } else { s };
        lemma_prefix_props(ls.drop_first(), k - 1, all_ws(l), f);
        let t = ls.take(k);
        assert(t[0] == l);
        assert(t.drop_first() =~= ls.drop_first().take(k - 1));
    } else {
        assert(no_blank_run(ls.take(0), p));
        assert(fence_stable(ls.take(0), s));
    }
}

proof fn lemma_drop_trailing_prefix(ls: Seq<Seq<char>>) -> (n: int)
    ensures
        0 <= n <= ls.len(),
        drop_trailing_blanks(ls) == ls.take(n),
        drop_trailing_blanks(drop_trailing_blanks(ls)) == drop_trailing_blanks(ls),
        forall|j: int| n <= j < ls.len() ==> all_ws(#[trigger] ls[j]),
        n > 0 ==> !all_ws(ls[n - 1]),
    decreases ls.len(),
{
    if ls.len() > 0 && all_ws(ls.last()) {
        let n = lemma_drop_trailing_prefix(ls.drop_last());
        assert(ls.drop_last().take(n) =~= ls.take(n));
        assert forall|j: int| n <= j < ls.len() implies all_ws(#[trigger] ls[j]) by {
            if j < ls.len() - 1 {
                assert(ls[j] == ls.drop_last()[j]);
            }
        }
        if n > 0 {
            assert(ls[n - 1] == ls.drop_last()[n - 1]);
        }
        n
    } else {
        assert(ls.take(ls.len() as int) =~= ls);
        ls.len() as int
    }
}

/// The lines that formatting Markdown joins: fence tracking, blank runs
/// collapsed, trailing blank lines dropped.
pub open spec fn markdown_lines(input: Seq<char>) -> Seq<Seq<char>> {
    drop_trailing_blanks(collapse_blanks(fence_pass(lines_spec(input), false), false))
}

proof fn lemma_markdown_lines(input: Seq<char>)
    requires
        forall|i: int| 0 <= i < input.len() ==> input[i] != '\r',
    ensures
        all_clean(markdown_lines(input)),
        fence_stable(markdown_lines(input), false),
        no_blank_run(markdown_lines(input), false),
        drop_trailing_blanks(markdown_lines(input)) == markdown_lines(input),
        markdown_format_spec(input) == terminated(markdown_lines(input)),
        lines_spec(markdown_format_spec(input)) == markdown_lines(input),
{
    let l0 = lines_spec(input);
    lemma_lines_clean(input);
    let p1 = fence_pass(l0, false);
    lemma_pass_stable(l0, false);
    let c = collapse_blanks(p1, false);
    lemma_collapse_props(p1, false, false);
    let n = lemma_drop_trailing_prefix(c);
    lemma_prefix_props(c, n, false, false);
    let d = markdown_lines(input);
    lemma_join_is_terminated(d);
    lemma_lines_of_terminated(d);
}

/// Formatting Markdown (without carriage returns) twice gives what
/// formatting once gives.
pub proof fn lemma_markdown_idempotent(input: Seq<char>)
    requires
        forall|i: int| 0 <= i < input.len() ==> input[i] != '\r',
    ensures
        markdown_format_spec(markdown_format_spec(input)) == markdown_format_spec(input),
{
    let d = markdown_lines(input);
    lemma_markdown_lines(input);
    let out = markdown_format_spec(input);
    lemma_stable_pass(d, false);
    lemma_no_run_collapse(d, false);
    assert(collapse_blanks(fence_pass(lines_spec(out), false), false) == d);
}

/// In formatted Markdown (without carriage returns) no line outside a
/// fenced block ends with whitespace, and no blank line follows a blank
/// line.
pub proof fn lemma_markdown_lines_tidy(input: Seq<char>)
    requires
        forall|i: int| 0 <= i < input.len() ==> input[i] != '\r',
    ensures
        fence_stable(lines_spec(markdown_format_spec(input)), false),
        no_blank_run(lines_spec(markdown_format_spec(input)), false),
{
    lemma_markdown_lines(input);
}

/// Some line holds a character other than whitespace.
pub open spec fn has_text(ls: Seq<Seq<char>>) -> bool {
    exists|i: int| 0 <= i < ls.len() && !all_ws(#[trigger] ls[i])
}

proof fn lemma_lines_have_text(s: Seq<char>, j: int)
    requires
        0 <= j < s.len(),
        !is_ws(s[j]),
        forall|i: int| 0 <= i < s.len() ==> s[i] != '\r',
    ensures
        has_text(lines_spec(s)),
    decreases s.len(),
{
    lemma_find_char_bounds(s, '\n');
    let k = find_char(s, '\n');
    let ls = lines_spec(s);
    if k >= s.len() {
        assert(ls == seq![s]);
        assert(!all_ws(ls[0]));
    } else {
        let first = strip_cr(s.take(k));
        assert(first == s.take(k));
        let rest = s.skip(k + 1);
        assert(ls == seq![first] + lines_spec(rest));
        assert(s[k] == '\n');
        if j < k {
            assert(first[j] == s[j]);
            assert(!all_ws(ls[0]));
        } else {
            assert(j != k);
            assert(rest[j - k - 1] == s[j]);
            assert forall|i: int| 0 <= i < rest.len() implies rest[i] != '\r' by {
                assert(rest[i] == s[i + k + 1]);
            }
            lemma_lines_have_text(rest, j - k - 1);
            let i = choose|i: int| 0 <= i < lines_spec(rest).len() && !all_ws(#[trigger] lines_spec(rest)[i]);
            assert(ls[i + 1] == lines_spec(rest)[i]);
        }
    }
}

proof fn lemma_pass_keeps_text(ls: Seq<Seq<char>>, s: bool, i: int)
    requires
        0 <= i < ls.len(),
        !all_ws(ls[i]),
    ensures
        i < fence_pass(ls, s).len() && !all_ws(fence_pass(ls, s)[i]),
    decreases ls.len(),
{
    lemma_pass_stable(ls, s);
    let l = ls[0];
    let f = if is_fence_line(l) { !s } else { s };
    let kept = if f { l } else { trim_end_spec(l) };
    let out = fence_pass(ls, s);
    assert(out == seq![kept] + fence_pass(ls.drop_first(), f));
    if i == 0 {
        if !f {
            let b = lemma_trim_end_at(l);
            let j = choose|j: int| 0 <= j < l.len() && !is_ws(#[trigger] l[j]);
            assert(j < b);
            assert(l.take(b)[j] == l[j]);
        }
    } else {
        assert(ls.drop_first()[i - 1] == ls[i]);
        lemma_pass_keeps_text(ls.drop_first(), f, i - 1);
        assert(out[i] == fence_pass(ls.drop_first(), f)[i - 1]);
    }
}

proof fn lemma_collapse_keeps_text(ls: Seq<Seq<char>>, p: bool, i: int)
    requires
        0 <= i < ls.len(),
        !all_ws(ls[i]),
    ensures
        has_text(collapse_blanks(ls, p)),
    decreases ls.len(),
{
    let b = all_ws(ls[0]);
    let out = collapse_blanks(ls, p);
    if i == 0 {
        assert(out == seq![ls[0]] + collapse_blanks(ls.drop_first(), b));
        assert(out[0] == ls[0]);
    } else {
        assert(ls.drop_first()[i - 1] == ls[i]);
        let np = if b && p { p } else { b };
        lemma_collapse_keeps_text(ls.drop_first(), np, i - 1);
        let tail = collapse_blanks(ls.drop_first(), np);
        let k = choose|k: int| 0 <= k < tail.len() && !all_ws(#[trigger] tail[k]);
        if b && p {
            assert(out == tail);
        } else {
            assert(out == seq![ls[0]] + tail);
            assert(out[k + 1] == tail[k]);
        }
    }
}

/// The text of clean lines, each ended by a newline, never holds three
/// newlines in a row when no blank line follows a blank line.
proof fn lemma_no_triple_newline(ls: Seq<Seq<char>>, p: bool)
    requires
        all_clean(ls),
        no_blank_run(ls, p),
    ensures
        !contains_spec(terminated(ls), "\n\n\n"@),
    decreases ls.len(),
{
    reveal_strlit("\n\n\n");
    let nl3 = "\n\n\n"@;
    assert(nl3.len() == 3 && nl3[0] == '\n' && nl3[1] == '\n' && nl3[2] == '\n');
    if ls.len() > 0 {
        let l = ls[0];
        let rest = ls.drop_first();
        assert(clean_line(l));
        assert forall|i: int| 0 <= i < rest.len() implies clean_line(#[trigger] rest[i]) by {
            assert(rest[i] == ls[i + 1]);
        }
        lemma_no_triple_newline(rest, all_ws(l));
        let tr = terminated(rest);
        let t = terminated(ls);
        assert(t == l + seq!['\n'] + tr);
        let n = l.len() as int;
        if contains_spec(t, nl3) {
            let i = choose|i: int| contains_at(t, nl3, i);
            assert(t.subrange(i, i + 3) == nl3);
            assert(t[i] == t.subrange(i, i + 3)[0]);
            assert(t[i + 1] == t.subrange(i, i + 3)[1]);
            assert(t[i + 2] == t.subrange(i, i + 3)[2]);
            if i < n {
                assert(t[i] == l[i]);
            } else if i == n {
                // Both following lines would be empty.
                assert(tr[0] == t[n + 1]);
                assert(tr[1] == t[n + 2]);
                assert(rest.len() > 0);
                let r0 = rest[0];
                assert(tr == r0 + seq!['\n'] + terminated(rest.drop_first()));
                if r0.len() > 0 {
                    assert(clean_line(r0));
                    assert(tr[0] == r0[0]);
                }
                assert(r0.len() == 0);
                assert(all_ws(r0));
                let rr = rest.drop_first();
                assert(tr[1] == terminated(rr)[0]);
                assert(rr.len() > 0);
                let r1 = rr[0];
                assert(terminated(rr) == r1 + seq!['\n'] + terminated(rr.drop_first()));
                if r1.len() > 0 {
                    assert(rr[0] == ls[2]);
                    assert(clean_line(r1));
                    assert(terminated(rr)[0] == r1[0]);
                }
                assert(r1.len() == 0);
                assert(all_ws(r1));
                assert(no_blank_run(rest, all_ws(l)));
                assert(no_blank_run(rr, all_ws(r0)));
            } else {
                let j = i - n - 1;
                assert(tr.subrange(j, j + 3) =~= t.subrange(i, i + 3));
                assert(contains_at(tr, nl3, j));
            }
        }
    } else {
        if contains_spec(terminated(ls), nl3) {
            let i = choose|i: int| contains_at(terminated(ls), nl3, i);
        }
    }
}

/// Formatted Markdown of a text (without carriage returns) that holds
/// anything but whitespace ends with exactly one newline, never holds three
/// newlines in a row, and leaves no trailing whitespace on a line outside a
/// fenced block.
pub proof fn lemma_markdown_shape(input: Seq<char>, j: int)
    requires
        forall|i: int| 0 <= i < input.len() ==> input[i] != '\r',
        0 <= j < input.len(),
        !is_ws(input[j]),
    ensures
        markdown_format_spec(input).len() >= 2,
        markdown_format_spec(input).last() == '\n',
        markdown_format_spec(input)[markdown_format_spec(input).len() - 2] != '\n',
        !contains_spec(markdown_format_spec(input), "\n\n\n"@),
        fence_stable(lines_spec(markdown_format_spec(input)), false),
{
    lemma_markdown_lines(input);
    let l0 = lines_spec(input);
    lemma_lines_have_text(input, j);
    let i0 = choose|i: int| 0 <= i < l0.len() && !all_ws(#[trigger] l0[i]);
    let p1 = fence_pass(l0, false);
    lemma_pass_keeps_text(l0, false, i0);
    let c = collapse_blanks(p1, false);
    lemma_collapse_keeps_text(p1, false, i0);
    let n = lemma_drop_trailing_prefix(c);
    let d = markdown_lines(input);
    let k = choose|k: int| 0 <= k < c.len() && !all_ws(#[trigger] c[k]);
    assert(k < n);
    assert(d.len() == n);
    let last = d.last();
    assert(last == c[n - 1]);
    assert(!all_ws(last));
    assert(last.len() > 0);
    assert(clean_line(last));
    lemma_terminated_push(d.drop_last(), last);
    assert(d.drop_last().push(last) =~= d);
    let out = markdown_format_spec(input);
    assert(out == terminated(d.drop_last()) + last + seq!['\n']);
    assert(out[out.len() - 2] == last[last.len() - 1]);
    lemma_no_triple_newline(d, false);
}

/// A fence line is one that, after some whitespace, starts with three
/// backticks; indenting a line does not change whether it is one.
pub proof fn lemma_fence_line_means(l: Seq<char>, k: int)
    ensures
        is_fence_line(l) == is_fence_line(trim_start_spec(l)),
        0 <= k <= l.len() && all_ws(l.take(k)) && starts_with_spec(l.skip(k), "```"@) ==> is_fence_line(l),
        is_fence_line(l) ==> exists|j: int| 0 <= j <= l.len() && all_ws(#[trigger] l.take(j))
            && starts_with_spec(l.skip(j), "```"@),
{
    reveal_strlit("```");
    let a = lemma_trim_start_at(l);
    let t = l.skip(a);
    let a2 = lemma_trim_start_at(t);
    if a2 > 0 {
        assert(t[0] == l[a]);
    }
    assert(t.skip(a2) =~= t);
    if 0 <= k <= l.len() && all_ws(l.take(k)) && starts_with_spec(l.skip(k), "```"@) {
        let f = "```"@;
        assert(f.len() == 3 && f[0] == '`');
        assert(l.skip(k).subrange(0, 3) == f);
        assert(l.skip(k).subrange(0, 3)[0] == l.skip(k)[0]);
        assert(l.skip(k)[0] == '`');
        assert(!is_ws('`'));
        if a < k {
            assert(l.take(k)[a] == l[a]);
        }
        if a > k {
            assert(l[k] == l.skip(k)[0]);
        }
        assert(a == k);
    }
    if is_fence_line(l) {
        assert forall|j: int| 0 <= j < l.take(a).len() implies is_ws(#[trigger] l.take(a)[j]) by {
            assert(l.take(a)[j] == l[j]);
        }
        assert(all_ws(l.take(a)));
    }
}

proof fn lemma_block_body_kept(body: Seq<Seq<char>>, close: Seq<char>, post: Seq<Seq<char>>)
    requires
        forall|i: int| 0 <= i < body.len() ==> !is_fence_line(#[trigger] body[i]),
        is_fence_line(close),
    ensures
        fence_pass(body + seq![close] + post, true)
            == body + seq![trim_end_spec(close)] + fence_pass(post, false),
    decreases body.len(),
{
    let all = body + seq![close] + post;
    if body.len() == 0 {
        assert(all =~= seq![close] + post);
        assert(all[0] == close);
        assert(all.drop_first() =~= post);
        assert(fence_pass(all, true) =~= seq![trim_end_spec(close)] + fence_pass(post, false));
        assert(body + seq![trim_end_spec(close)] + fence_pass(post, false) =~= seq![trim_end_spec(close)] + fence_pass(post, false));
    } else {
        let rest = body.drop_first();
        assert forall|i: int| 0 <= i < rest.len() implies !is_fence_line(#[trigger] rest[i]) by {
            assert(rest[i] == body[i + 1]);
        }
        lemma_block_body_kept(rest, close, post);
        assert(all[0] == body[0]);
        assert(!is_fence_line(body[0]));
        assert(all.drop_first() =~= rest + seq![close] + post);
        assert(fence_pass(all, true) == seq![body[0]] + fence_pass(rest + seq![close] + post, true));
        assert(fence_pass(all, true) =~= body + seq![trim_end_spec(close)] + fence_pass(post, false));
    }
}

/// A fenced block is kept byte for byte: from an opening fence line to the
/// next fence line, the lines are left as they are (the closing fence only
/// loses trailing whitespace), and tracking goes on outside the block.
pub proof fn lemma_fenced_block_kept(open: Seq<char>, body: Seq<Seq<char>>, close: Seq<char>, post: Seq<Seq<char>>)
    requires
        is_fence_line(open),
        forall|i: int| 0 <= i < body.len() ==> !is_fence_line(#[trigger] body[i]),
        is_fence_line(close),
    ensures
        fence_pass(seq![open] + body + seq![close] + post, false)
            == seq![open] + body + seq![trim_end_spec(close)] + fence_pass(post, false),
{
    let all = seq![open] + body + seq![close] + post;
    lemma_block_body_kept(body, close, post);
    assert(all[0] == open);
    assert(all.drop_first() =~= body + seq![close] + post);
    assert(fence_pass(all, false) == seq![open] + fence_pass(body + seq![close] + post, true));
    assert(fence_pass(all, false) =~= seq![open] + body + seq![trim_end_spec(close)] + fence_pass(post, false));
}

} // verus!
