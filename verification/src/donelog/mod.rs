//! DONE LOG: clipboard entries kept as a work diary.
//!
//! A [`DoneEntry`] never changes once captured; the user's edits (note,
//! body, tags) live in a [`DoneOverlay`] with the history of every edit;
//! a [`DoneView`] combines the two for reading.

use vstd::prelude::*;
use crate::ids::ClipId;
use crate::model::SourceApp;
use crate::text::{chars_of, same_text, string_of};

pub mod dates;
pub mod export;
pub mod store;

pub use dates::{LocalDate, LocalTime};
use dates::utc_now_millis;

verus! {

#[derive(Clone, Debug)]
pub struct DoneEntry {
    pub id: ClipId,
    /// Calendar date of the capture (local time).
    pub date: LocalDate,
    /// Wall-clock time of the capture (local time).
    pub time: LocalTime,
    /// Unix timestamp in milliseconds (UTC); bound to the sealed record.
    pub captured_at: i64,
    pub source_app: SourceApp,
    pub kind: ContentKind,
    /// Primary text body; empty for images.
    pub body: String,
    /// Optional screenshot / image attachment.
    pub attachment: Option<Attachment>,
}

impl DoneEntry {
    /// An entry captured at `captured_at`, dated by the local wall clock at
    /// that instant; an instant chrono cannot date is dated now.
    pub fn new(
        id: ClipId,
        captured_at: i64,
        source_app: SourceApp,
        kind: ContentKind,
        body: String,
        attachment: Option<Attachment>,
    ) -> (r: Self)
        ensures
            r.id == id,
            r.captured_at == captured_at,
            r.source_app == source_app,
            r.kind == kind,
            r.body == body,
            r.attachment == attachment,
            r.date.valid(),
            r.time.valid(),
            -dates::LOCAL_RANGE_MS <= captured_at <= dates::LOCAL_RANGE_MS ==> dates::local_reading_of(r.date, r.time, captured_at),
    {
        let (date, time) = match dates::local_date_time(captured_at) {
            Some(dt) => dt,
            None => dates::local_now(),
        };
        DoneEntry { id, date, time, captured_at, source_app, kind, body, attachment }
    }
}

#[derive(Clone, Debug)]
pub struct Attachment {
    pub path: String,
    pub format: ImageFormat,
    pub width: u32,
    pub height: u32,
    pub bytes: u64,
}

#[derive(Clone, Copy, Debug, PartialEq, Eq)]
pub enum ImageFormat {
    Png,
    Jpeg,
    WebP,
}

#[derive(Clone, Copy, Debug, PartialEq, Eq)]
pub enum ContentKind {
    Text,
    Url,
    Json,
    Code,
    Rtf,
    Html,
    Image,
}

/// One user edit.
#[derive(Clone, Debug)]
pub enum EditOp {
    SetNote(String),
    SetBody(String),
    AddTag(String),
    RemoveTag(String),
}

/// What an edit did, by the texts it carried.
pub enum EditView {
    SetNote(Seq<char>),
    SetBody(Seq<char>),
    AddTag(Seq<char>),
    RemoveTag(Seq<char>),
}

impl View for EditOp {
    type V = EditView;

    open spec fn view(&self) -> EditView {
        match self {
            EditOp::SetNote(s) => EditView::SetNote(s@),
            EditOp::SetBody(s) => EditView::SetBody(s@),
            EditOp::AddTag(s) => EditView::AddTag(s@),
            EditOp::RemoveTag(s) => EditView::RemoveTag(s@),
        }
    }
}

/// An edit history by the texts of its edits.
pub open spec fn history_view(h: Seq<EditOp>) -> Seq<EditView> {
    h.map_values(|o: EditOp| o@)
}

/// The user's edits of an entry.
#[derive(Clone, Debug)]
pub struct DoneOverlay {
    pub user_note: Option<String>,
    pub user_body: Option<String>,
    pub tags: Vec<String>,
    /// Unix ms timestamp of the last edit.
    pub edited_at: Option<i64>,
    /// Every edit, in order.
    pub history: Vec<EditOp>,
}

pub open spec fn tag_views(tags: Seq<String>) -> Seq<Seq<char>> {
    tags.map_values(|t: String| t@)
}

/// Tags after adding `t`: unchanged when present, appended otherwise.
pub open spec fn add_tag_spec(tags: Seq<Seq<char>>, t: Seq<char>) -> Seq<Seq<char>> {
    if tags.contains(t) { tags } else { tags.push(t) }
}

/// Index of the first occurrence of `t`, or `tags.len()`.
pub open spec fn first_index(tags: Seq<Seq<char>>, t: Seq<char>) -> int
    decreases tags.len(),
{
    if tags.len() == 0 || tags[0] == t {
        0
    } else {
        1 + first_index(tags.drop_first(), t)
    }
}

/// Tags after removing the first occurrence of `t`, if any.
pub open spec fn remove_tag_spec(tags: Seq<Seq<char>>, t: Seq<char>) -> Seq<Seq<char>> {
    let p = first_index(tags, t);
    if p < tags.len() { tags.remove(p) } else { tags }
}

pub open spec fn no_duplicates(tags: Seq<Seq<char>>) -> bool {
    forall|i: int, j: int| 0 <= i < j < tags.len() ==> tags[i] != tags[j]
}

proof fn lemma_first_index(tags: Seq<Seq<char>>, t: Seq<char>)
    ensures
        0 <= first_index(tags, t) <= tags.len(),
        first_index(tags, t) < tags.len() ==> tags[first_index(tags, t)] == t,
        forall|j: int| 0 <= j < first_index(tags, t) ==> tags[j] != t,
        (first_index(tags, t) < tags.len()) == tags.contains(t),
    decreases tags.len(),
{
    if tags.len() > 0 && tags[0] != t {
        lemma_first_index(tags.drop_first(), t);
        assert forall|j: int| 0 <= j < first_index(tags, t) implies tags[j] != t by {
            if j > 0 {
                assert(tags[j] == tags.drop_first()[j - 1]);
            }
        }
        if tags.contains(t) {
            let k = choose|k: int| 0 <= k < tags.len() && tags[k] == t;
            assert(tags.drop_first()[k - 1] == t);
        }
        if tags.drop_first().contains(t) {
            let k = choose|k: int| 0 <= k < tags.drop_first().len() && tags.drop_first()[k] == t;
            assert(tags[k + 1] == t);
        }
    } else if tags.len() > 0 {
        assert(tags[0] == t);
    }
}

fn find_tag(tags: &Vec<String>, t: &str) -> (r: usize)
    ensures
        r == first_index(tag_views(tags@), t@),
{
    let ghost tv = tag_views(tags@);
    proof {
        lemma_first_index(tv, t@);
    }
    let mut i: usize = 0;
    while i < tags.len()
        invariant
            i <= tags.len(),
            tv == tag_views(tags@),
            forall|j: int| 0 <= j < i ==> tv[j] != t@,
        decreases tags.len() - i,
    {
        if same_text(tags[i].as_str(), t) {
            proof {
                lemma_first_index_unique(tv, t@, i as int);
            }
            return i;
        }
        i += 1;
    }
    proof {
        lemma_first_index_unique(tv, t@, i as int);
    }
    i
}

proof fn lemma_first_index_unique(tags: Seq<Seq<char>>, t: Seq<char>, k: int)
    requires
        0 <= k <= tags.len(),
        k < tags.len() ==> tags[k] == t,
        forall|j: int| 0 <= j < k ==> tags[j] != t,
    ensures
        first_index(tags, t) == k,
    decreases tags.len(),
{
    if k > 0 {
        assert forall|j: int| 0 <= j < k - 1 implies tags.drop_first()[j] != t by {
            assert(tags.drop_first()[j] == tags[j + 1]);
        }
        lemma_first_index_unique(tags.drop_first(), t, k - 1);
    }
}

impl Default for DoneOverlay {
    /// No edits.
    fn default() -> (r: Self)
        ensures
            r.user_note is None,
            r.user_body is None,
            r.tags@.len() == 0,
            r.edited_at is None,
            r.history@.len() == 0,
    {
        DoneOverlay { user_note: None, user_body: None, tags: Vec::new(), edited_at: None, history: Vec::new() }
    }
}

impl DoneOverlay {
    fn touch(&mut self)
        ensures
            final(self).edited_at is Some,
            final(self).user_note == old(self).user_note,
            final(self).user_body == old(self).user_body,
            final(self).tags == old(self).tags,
            final(self).history == old(self).history,
    {
        self.edited_at = Some(utc_now_millis());
    }

    /// Set the note; the edit is recorded.
    pub fn set_note(&mut self, note: String)
        ensures
            final(self).user_note == Some(note),
            final(self).history@ == old(self).history@.push(EditOp::SetNote(note)),
            final(self).edited_at is Some,
            final(self).user_body == old(self).user_body,
            final(self).tags == old(self).tags,
    {
        self.history.push(EditOp::SetNote(note.clone()));
        self.user_note = Some(note);
        self.touch();
    }

    /// Replace the body shown for the entry; the edit is recorded.
    pub fn set_body(&mut self, body: String)
        ensures
            final(self).user_body == Some(body),
            final(self).history@ == old(self).history@.push(EditOp::SetBody(body)),
            final(self).edited_at is Some,
            final(self).user_note == old(self).user_note,
            final(self).tags == old(self).tags,
    {
        self.history.push(EditOp::SetBody(body.clone()));
        self.user_body = Some(body);
        self.touch();
    }

    /// Add a tag unless it is already there; only an actual addition is
    /// recorded.
    pub fn add_tag(&mut self, tag: String)
        ensures
            tag_views(final(self).tags@) == add_tag_spec(tag_views(old(self).tags@), tag@),
            tag_views(old(self).tags@).contains(tag@) ==> *final(self) == *old(self),
            !tag_views(old(self).tags@).contains(tag@) ==> {
                &&& final(self).history@ == old(self).history@.push(EditOp::AddTag(tag))
                &&& final(self).edited_at is Some
                &&& final(self).user_note == old(self).user_note
                &&& final(self).user_body == old(self).user_body
            },
    {
        let p = find_tag(&self.tags, tag.as_str());
        proof {
            lemma_first_index(tag_views(self.tags@), tag@);
        }
        if p == self.tags.len() {
            self.history.push(EditOp::AddTag(tag.clone()));
            let ghost before = self.tags@;
            self.tags.push(tag);
            assert(tag_views(self.tags@) =~= tag_views(before).push(tag@));
            self.touch();
        }
    }

    /// Remove the first occurrence of a tag, if any; only an actual removal
    /// is recorded.
    pub fn remove_tag(&mut self, tag: &str)
        ensures
            tag_views(final(self).tags@) == remove_tag_spec(tag_views(old(self).tags@), tag@),
            !tag_views(old(self).tags@).contains(tag@) ==> *final(self) == *old(self),
            tag_views(old(self).tags@).contains(tag@) ==> {
                &&& final(self).history@.len() == old(self).history@.len() + 1
                &&& final(self).history@.drop_last() == old(self).history@
                &&& final(self).history@.last() matches EditOp::RemoveTag(s) && s@ == tag@
                &&& final(self).edited_at is Some
                &&& final(self).user_note == old(self).user_note
                &&& final(self).user_body == old(self).user_body
            },
    {
        let p = find_tag(&self.tags, tag);
        proof {
            lemma_first_index(tag_views(self.tags@), tag@);
        }
        if p < self.tags.len() {
            let ghost before_h = self.history@;
            self.history.push(EditOp::RemoveTag(string_of(&chars_of(tag))));
            assert(self.history@.drop_last() =~= before_h);
            let ghost before = self.tags@;
            self.tags.remove(p);
            assert(tag_views(self.tags@) =~= tag_views(before).remove(p as int));
            self.touch();
        }
    }

    /// The body to show: the user's body when set, otherwise the entry's.
    pub fn effective_body<'a>(&'a self, entry_body: &'a str) -> (r: &'a str)
        ensures
            r@ == (match self.user_body { Some(b) => b@, None => entry_body@ }),
    {
        match &self.user_body {
            Some(b) => b.as_str(),
            None => entry_body,
        }
    }
}

/// Adding a tag that was absent and then removing it leaves the tags as
/// they were.
pub proof fn lemma_remove_undoes_add(tags: Seq<Seq<char>>, t: Seq<char>)
    requires
        !tags.contains(t),
    ensures
        remove_tag_spec(add_tag_spec(tags, t), t) == tags,
{
    let added = tags.push(t);
    lemma_first_index(added, t);
    assert(added[tags.len() as int] == t);
    assert(added.contains(t));
    let p = first_index(added, t);
    if p < tags.len() {
        assert(added[p] == tags[p]);
        assert(tags.contains(t));
    }
    assert(added.remove(tags.len() as int) =~= tags);
}

/// Adding tags never creates duplicates, and removing keeps them unique.
pub proof fn lemma_tags_stay_unique(tags: Seq<Seq<char>>, t: Seq<char>)
    requires
        no_duplicates(tags),
    ensures
        no_duplicates(add_tag_spec(tags, t)),
        no_duplicates(remove_tag_spec(tags, t)),
{
    lemma_first_index(tags, t);
    if !tags.contains(t) {
        let a = tags.push(t);
        assert forall|i: int, j: int| 0 <= i < j < a.len() implies a[i] != a[j] by {
            if j == tags.len() {
                assert(a[i] == tags[i]);
            }
        }
    }
    let p = first_index(tags, t);
    if p < tags.len() {
        let r = tags.remove(p);
        assert forall|i: int, j: int| 0 <= i < j < r.len() implies r[i] != r[j] by {
            let i2 = if i < p { i } else { i + 1 };
            let j2 = if j < p { j } else { j + 1 };
            assert(r[i] == tags[i2] && r[j] == tags[j2]);
        }
    }
}

/// An entry with the user's edits.
#[derive(Clone, Debug)]
pub struct DoneView {
    pub entry: DoneEntry,
    pub overlay: DoneOverlay,
}

pub open spec fn effective_body_spec(v: DoneView) -> Seq<char> {
    match v.overlay.user_body {
        Some(b) => b@,
        None => v.entry.body@,
    }
}

impl DoneView {
    pub fn new(entry: DoneEntry, overlay: DoneOverlay) -> (r: Self)
        ensures
            r.entry == entry,
            r.overlay == overlay,
    {
        DoneView { entry, overlay }
    }

    pub fn effective_body(&self) -> (r: &str)
        ensures
            r@ == effective_body_spec(*self),
    {
        self.overlay.effective_body(self.entry.body.as_str())
    }

    pub fn note(&self) -> (r: Option<&str>)
        ensures
            r matches Some(n) ==> self.overlay.user_note matches Some(s) && n@ == s@,
            r is None ==> self.overlay.user_note is None,
    {
        match &self.overlay.user_note {
            Some(n) => Some(n.as_str()),
            None => None,
        }
    }

    pub fn tags(&self) -> (r: &[String])
        ensures
            r@ == self.overlay.tags@,
    {
        self.overlay.tags.as_slice()
    }
}

/// What `DoneLogStore::capture` is given.
#[derive(Debug)]
pub struct CaptureRequest {
    pub id: ClipId,
    pub captured_at: i64,
    pub source_app: SourceApp,
    pub kind: ContentKind,
    pub body: String,
    pub attachment: Option<Attachment>,
}

} // verus!
