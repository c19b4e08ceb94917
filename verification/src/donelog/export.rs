//! The Markdown daily digest of DONE LOG entries.
//!
//! ```markdown
//! # DONE LOG — 2026-05-10
//!
//! ## 09:42 — TestApp
//!
//! hello world
//!
//! > 📝 important note
//!
//! `#work` `#rust`
//!
//! ---
//! ```

use vstd::prelude::*;
use crate::donelog::{effective_body_spec, tag_views, DoneView, LocalDate};
use crate::text::{chars_of, join, join_spec, push_all, push_str, string_of, trim, trim_spec, views};

verus! {

/// The digest's first line.
pub open spec fn heading_spec(date: LocalDate) -> Seq<char> {
    "# DONE LOG — "@ + date.text_spec() + "\n"@
}

/// What an empty day shows under the heading.
pub open spec fn empty_day_spec() -> Seq<char> {
    "\n_（記録なし）_\n"@
}

/// One tag as an inline code chip: `` `#tag` ``.
pub open spec fn tag_chip(t: Seq<char>) -> Seq<char> {
    "`#"@ + t + "`"@
}

/// The tags as chips separated by single spaces.
pub open spec fn tag_line(tags: Seq<Seq<char>>) -> Seq<char> {
    join_spec(tags.map_values(|t: Seq<char>| tag_chip(t)), " "@)
}

/// The note line, when the trimmed note is not empty.
pub open spec fn note_spec(v: DoneView) -> Seq<char> {
    match v.overlay.user_note {
        Some(n) => if trim_spec(n@).len() > 0 {
            "> 📝 "@ + trim_spec(n@) + "\n\n"@
        } else {
            Seq::empty()
        },
        None => Seq::empty(),
    }
}

/// The body paragraph, when the trimmed effective body is not empty.
pub open spec fn body_spec(v: DoneView) -> Seq<char> {
    let b = trim_spec(effective_body_spec(v));
    if b.len() > 0 { b + "\n\n"@ } else { Seq::empty() }
}

/// The tag line, when there are tags.
pub open spec fn tags_spec(v: DoneView) -> Seq<char> {
    if v.overlay.tags@.len() > 0 {
        tag_line(tag_views(v.overlay.tags@)) + "\n\n"@
    } else {
        Seq::empty()
    }
}

/// One entry of the digest: a `## HH:MM — App` heading, then the body, the
/// note and the tags where present, then a rule.
pub open spec fn section_spec(v: DoneView) -> Seq<char> {
    "\n## "@ + v.entry.time.hm_text_spec() + " — "@ + v.entry.source_app.display_name@ + "\n\n"@
        + body_spec(v) + note_spec(v) + tags_spec(v) + "---\n"@
}

pub open spec fn sections_spec(vs: Seq<DoneView>) -> Seq<char>
    decreases vs.len(),
{
    if vs.len() == 0 {
        Seq::empty()
    } else {
        sections_spec(vs.drop_last()) + section_spec(vs.last())
    }
}

/// The digest of a day: the heading, then each entry in the given order, or
/// the empty-day line.
pub open spec fn markdown_spec(date: LocalDate, vs: Seq<DoneView>) -> Seq<char> {
    heading_spec(date) + if vs.len() == 0 { empty_day_spec() } else { sections_spec(vs) }
}

pub open spec fn times_valid(vs: Seq<DoneView>) -> bool {
    forall|i: int| 0 <= i < vs.len() ==> (#[trigger] vs[i]).entry.time.valid()
}

fn tag_chips(tags: &Vec<String>) -> (r: Vec<char>)
    ensures
        r@ == tag_line(tag_views(tags@)),
{
    let mut parts: Vec<Vec<char>> = Vec::new();
    let ghost chips = tag_views(tags@).map_values(|t: Seq<char>| tag_chip(t));
    let mut i: usize = 0;
    while i < tags.len()
        invariant
            i <= tags.len(),
            chips == tag_views(tags@).map_values(|t: Seq<char>| tag_chip(t)),
            views(parts@) == chips.take(i as int),
        decreases tags.len() - i,
    {
        let mut chip: Vec<char> = Vec::new();
        push_str(&mut chip, "`#");
        push_str(&mut chip, tags[i].as_str());
        push_str(&mut chip, "`");
        assert(chip@ == tag_chip(tags@[i as int]@));
        assert(chips[i as int] == tag_chip(tags@[i as int]@));
        let ghost before = parts@;
        parts.push(chip);
        assert(views(parts@) =~= views(before).push(chip@));
        assert(chips.take(i + 1) =~= chips.take(i as int).push(chips[i as int]));
        i += 1;
    }
    assert(chips.take(tags.len() as int) =~= chips);
    let mut sep: Vec<char> = Vec::new();
    push_str(&mut sep, " ");
    join(&parts, &sep)
}

fn push_body(out: &mut Vec<char>, view: &DoneView)
    ensures
        final(out)@ == old(out)@ + body_spec(*view),
{
    let body = trim(&chars_of(view.effective_body()));
    if body.len() > 0 {
        push_all(out, &body);
        push_str(out, "\n\n");
    } else {
        assert(old(out)@ + body_spec(*view) =~= old(out)@);
    }
}

fn push_note(out: &mut Vec<char>, view: &DoneView)
    ensures
        final(out)@ == old(out)@ + note_spec(*view),
{
    match view.note() {
        Some(n) => {
            let note = trim(&chars_of(n));
            if note.len() > 0 {
                push_str(out, "> 📝 ");
                push_all(out, &note);
                push_str(out, "\n\n");
            } else {
                assert(old(out)@ + note_spec(*view) =~= old(out)@);
            }
        },
        None => {
            assert(old(out)@ + note_spec(*view) =~= old(out)@);
        },
    }
}

fn push_tags(out: &mut Vec<char>, view: &DoneView)
    ensures
        final(out)@ == old(out)@ + tags_spec(*view),
{
    if view.tags().len() > 0 {
        let line = tag_chips(&view.overlay.tags);
        push_all(out, &line);
        push_str(out, "\n\n");
    } else {
        assert(old(out)@ + tags_spec(*view) =~= old(out)@);
    }
}

fn push_section(out: &mut Vec<char>, view: &DoneView)
    requires
        view.entry.time.valid(),
    ensures
        final(out)@ == old(out)@ + section_spec(*view),
{
    push_str(out, "\n## ");
    push_str(out, view.entry.time.hm_text().as_str());
    push_str(out, " — ");
    push_str(out, view.entry.source_app.display_name.as_str());
    push_str(out, "\n\n");
    push_body(out, view);
    push_note(out, view);
    push_tags(out, view);
    push_str(out, "---\n");
    assert(out@ =~= old(out)@ + section_spec(*view));
}

/// Renders the views as the Markdown digest of `date`. The views are taken
/// in the given order; the caller sorts and filters them to the day.
pub fn to_markdown(date: &LocalDate, views: &[DoneView]) -> (r: String)
    requires
        date.valid(),
        times_valid(views@),
    ensures
        r@ == markdown_spec(*date, views@),
{
    let mut out: Vec<char> = Vec::new();
    push_str(&mut out, "# DONE LOG — ");
    push_str(&mut out, date.to_text().as_str());
    push_str(&mut out, "\n");
    let ghost head = out@;
    assert(head == heading_spec(*date));

    if views.len() == 0 {
        push_str(&mut out, "\n_（記録なし）_\n");
        return string_of(&out);
    }

    let mut i: usize = 0;
    while i < views.len()
        invariant
            i <= views.len(),
            times_valid(views@),
            out@ == head + sections_spec(views@.take(i as int)),
        decreases views.len() - i,
    {
        let ghost before = out@;
        assert(views@[i as int].entry.time.valid());
        push_section(&mut out, &views[i]);
        let ghost t = views@.take(i + 1);
        assert(t.drop_last() =~= views@.take(i as int));
        assert(t.last() == views@[i as int]);
        i += 1;
    }
    assert(views@.take(views.len() as int) =~= views@);
    string_of(&out)
}

} // verus!
