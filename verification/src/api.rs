//! The decisions behind the C interface for native front ends: status
//! codes, hotkey ids, paste modes, list limits, the per-thread last error,
//! and the DONE LOG overlay edits a front end sends.

use vstd::prelude::*;
use crate::donelog::{add_tag_spec, history_view, remove_tag_spec, tag_views, DoneOverlay, EditView};
use crate::format::FormatOptions;
use crate::bus::CoreEvent;
use crate::ids::HotkeyId;
use crate::paste::{FormatRequest, PasteMode};

verus! {

/// Status codes of the C interface.
#[derive(Debug, Clone, Copy, PartialEq, Eq, Structural)]
pub enum CnxStatus {
    Success,
    NotInitialized,
    InvalidArgument,
    StorageError,
    ClipboardError,
    HotkeyError,
    InternalError,
}

impl CnxStatus {
    pub open spec fn code_spec(self) -> i32 {
        match self {
            CnxStatus::Success => 0i32,
            CnxStatus::NotInitialized => -1i32,
            CnxStatus::InvalidArgument => -2i32,
            CnxStatus::StorageError => -3i32,
            CnxStatus::ClipboardError => -4i32,
            CnxStatus::HotkeyError => -5i32,
            CnxStatus::InternalError => -99i32,
        }
    }

    /// The number a C caller sees: 0 for success, negative otherwise.
    pub fn code(self) -> (r: i32)
        ensures
            r == self.code_spec(),
    {
        match self {
            CnxStatus::Success => 0,
            CnxStatus::NotInitialized => -1,
            CnxStatus::InvalidArgument => -2,
            CnxStatus::StorageError => -3,
            CnxStatus::ClipboardError => -4,
            CnxStatus::HotkeyError => -5,
            CnxStatus::InternalError => -99,
        }
    }
}

/// The hotkey ids of the C interface.
#[derive(Debug, Clone, Copy, PartialEq, Eq, Structural)]
pub enum CnxHotkeyId {
    ShowHistory,
    ShowSnippets,
    PastePlain,
    PasteFormat,
    PasteFull,
    DoneCapture,
}

impl CnxHotkeyId {
    pub open spec fn code_spec(self) -> i32 {
        match self {
            CnxHotkeyId::ShowHistory => 1,
            CnxHotkeyId::ShowSnippets => 2,
            CnxHotkeyId::PastePlain => 3,
            CnxHotkeyId::PasteFormat => 4,
            CnxHotkeyId::PasteFull => 5,
            CnxHotkeyId::DoneCapture => 6,
        }
    }

    /// The number of the hotkey in the C header.
    pub fn code(self) -> (r: i32)
        ensures
            r == self.code_spec(),
    {
        match self {
            CnxHotkeyId::ShowHistory => 1,
            CnxHotkeyId::ShowSnippets => 2,
            CnxHotkeyId::PastePlain => 3,
            CnxHotkeyId::PasteFormat => 4,
            CnxHotkeyId::PasteFull => 5,
            CnxHotkeyId::DoneCapture => 6,
        }
    }
}

/// The C number of a hotkey.
pub open spec fn hotkey_code(id: HotkeyId) -> i32 {
    match id {
        HotkeyId::ShowHistory => 1,
        HotkeyId::ShowSnippets => 2,
        HotkeyId::PastePlain => 3,
        HotkeyId::PasteFormat => 4,
        HotkeyId::PasteFull => 5,
        HotkeyId::DoneCapture => 6,
    }
}

/// The hotkey with a C number, if any: 1 to 6 in declaration order.
pub fn map_hk(id: i32) -> (r: Option<HotkeyId>)
    ensures
        r is Some <==> 1 <= id <= 6,
        r matches Some(h) ==> hotkey_code(h) == id,
{
    match id {
        1 => Some(HotkeyId::ShowHistory),
        2 => Some(HotkeyId::ShowSnippets),
        3 => Some(HotkeyId::PastePlain),
        4 => Some(HotkeyId::PasteFormat),
        5 => Some(HotkeyId::PasteFull),
        6 => Some(HotkeyId::DoneCapture),
        _ => None,
    }
}

/// The C number of a hotkey.
pub fn unmap_hk(id: HotkeyId) -> (r: i32)
    ensures
        r == hotkey_code(id),
{
    match id {
        HotkeyId::ShowHistory => 1,
        HotkeyId::ShowSnippets => 2,
        HotkeyId::PastePlain => 3,
        HotkeyId::PasteFormat => 4,
        HotkeyId::PasteFull => 5,
        HotkeyId::DoneCapture => 6,
    }
}

/// A hotkey's C number names it again, and a valid C number is the number
/// of the hotkey it names.
pub proof fn lemma_hotkey_codes_roundtrip(id: HotkeyId, code: i32)
    ensures
        1 <= hotkey_code(id) <= 6,
        1 <= code <= 6 ==> exists|h: HotkeyId| hotkey_code(h) == code,
        forall|h: HotkeyId| hotkey_code(h) == hotkey_code(id) ==> h == id,
{
    if code == 1 { assert(hotkey_code(HotkeyId::ShowHistory) == code); }
    else if code == 2 { assert(hotkey_code(HotkeyId::ShowSnippets) == code); }
    else if code == 3 { assert(hotkey_code(HotkeyId::PastePlain) == code); }
    else if code == 4 { assert(hotkey_code(HotkeyId::PasteFormat) == code); }
    else if code == 5 { assert(hotkey_code(HotkeyId::PasteFull) == code); }
    else if code == 6 { assert(hotkey_code(HotkeyId::DoneCapture) == code); }
}

/// Which front-end callback an event is passed to.
#[derive(Debug, Clone, Copy, PartialEq, Eq, Structural)]
pub enum FrontendCallback {
    /// The hotkey callback, with the hotkey's C number.
    Hotkey(i32),
    /// The capture callback.
    Captured,
}

/// The callback an event goes to: hotkey presses to the hotkey callback
/// with the C number of the hotkey, captures to the capture callback;
/// other events to none.
pub fn callback_for(ev: &CoreEvent) -> (r: Option<FrontendCallback>)
    ensures
        *ev matches CoreEvent::HotkeyPressed(h) ==> r == Some(FrontendCallback::Hotkey(hotkey_code(h))),
        *ev is ClipboardCaptured ==> r == Some(FrontendCallback::Captured),
        !(*ev is HotkeyPressed) && !(*ev is ClipboardCaptured) ==> r is None,
{
    match ev {
        CoreEvent::HotkeyPressed(h) => Some(FrontendCallback::Hotkey(unmap_hk(*h))),
        CoreEvent::ClipboardCaptured(_) => Some(FrontendCallback::Captured),
        _ => None,
    }
}

/// The paste mode of a C mode number: 1 plain, 2 format with detection and
/// default options, 3 full, anything else normal.
pub fn paste_mode_from_code(mode: i32) -> (r: PasteMode)
    ensures
        mode == 1 ==> r is Plain,
        mode == 2 ==> (r matches PasteMode::Format(req) && req.lang is None && req.opts.indent is None
            && req.opts.line_width is None && req.opts.dialect is None),
        mode == 3 ==> r is Full,
        !(1 <= mode <= 3) ==> r is Normal,
{
    match mode {
        1 => PasteMode::Plain,
        2 => PasteMode::Format(FormatRequest::default()),
        3 => PasteMode::Full,
        _ => PasteMode::Normal,
    }
}

/// How many items a listing returns at most: the requested number, kept
/// between 1 and 200.
pub fn clamp_limit(limit: usize) -> (r: usize)
    ensures
        r == (if limit > 200 { 200 } else if limit < 1 { 1 } else { limit }),
{
    if limit > 200 {
        200
    } else if limit < 1 {
        1
    } else {
        limit
    }
}

/// Record the calling thread's last error.
pub fn set_last_error(slot: &mut Option<String>, msg: String)
    ensures
        *final(slot) == Some(msg),
{
    *slot = Some(msg);
}

/// Take the calling thread's last error, leaving none.
pub fn take_last_error(slot: &mut Option<String>) -> (r: Option<String>)
    ensures
        r == *old(slot),
        *final(slot) is None,
{
    slot.take()
}

/// The edits a front end applies to a DONE LOG entry in one request.
#[derive(Debug, Clone)]
pub struct UpdateOverlayArgs {
    pub id: String,
    pub note: Option<String>,
    pub body: Option<String>,
    pub add_tags: Vec<String>,
    pub remove_tags: Vec<String>,
}

/// Tags after adding each of `adds` in turn.
pub open spec fn add_all(tags: Seq<Seq<char>>, adds: Seq<Seq<char>>) -> Seq<Seq<char>>
    decreases adds.len(),
{
    if adds.len() == 0 {
        tags
    } else {
        add_tag_spec(add_all(tags, adds.drop_last()), adds.last())
    }
}

/// Tags after removing each of `removes` in turn.
pub open spec fn remove_all(tags: Seq<Seq<char>>, removes: Seq<Seq<char>>) -> Seq<Seq<char>>
    decreases removes.len(),
{
    if removes.len() == 0 {
        tags
    } else {
        remove_tag_spec(remove_all(tags, removes.drop_last()), removes.last())
    }
}

pub open spec fn text_views(v: Seq<String>) -> Seq<Seq<char>> {
    v.map_values(|s: String| s@)
}

pub open spec fn opt_view(o: Option<String>) -> Option<Seq<char>> {
    match o {
        Some(s) => Some(s@),
        None => None,
    }
}

/// The recorded edits of adding each of `adds` in turn to `tags`: one for
/// each tag that was not there yet.
pub open spec fn add_edits(tags: Seq<Seq<char>>, adds: Seq<Seq<char>>) -> Seq<EditView>
    decreases adds.len(),
{
    if adds.len() == 0 {
        Seq::empty()
    } else {
        add_edits(tags, adds.drop_last()) + if add_all(tags, adds.drop_last()).contains(adds.last()) {
            Seq::empty()
        } else {
            seq![EditView::AddTag(adds.last())]
        }
    }
}

/// The recorded edits of removing each of `removes` in turn from `tags`:
/// one for each tag that was there.
pub open spec fn remove_edits(tags: Seq<Seq<char>>, removes: Seq<Seq<char>>) -> Seq<EditView>
    decreases removes.len(),
{
    if removes.len() == 0 {
        Seq::empty()
    } else {
        remove_edits(tags, removes.drop_last()) + if remove_all(tags, removes.drop_last()).contains(removes.last()) {
            seq![EditView::RemoveTag(removes.last())]
        } else {
            Seq::empty()
        }
    }
}

/// The recorded edits of a request: the note, the body, the tags that
/// were actually added, then the tags that were actually removed.
pub open spec fn request_edits(tags: Seq<Seq<char>>, note: Option<Seq<char>>, body: Option<Seq<char>>,
    adds: Seq<Seq<char>>, removes: Seq<Seq<char>>) -> Seq<EditView> {
    (match note { Some(n) => seq![EditView::SetNote(n)], None => Seq::empty() })
        + (match body { Some(b) => seq![EditView::SetBody(b)], None => Seq::empty() })
        + add_edits(tags, adds)
        + remove_edits(add_all(tags, adds), removes)
}

impl UpdateOverlayArgs {
    /// Apply the edits in the order the front end expects: the note, the
    /// body, the added tags, then the removed tags.
    pub fn apply_to(self, overlay: &mut DoneOverlay)
        ensures
            final(overlay).user_note == (match self.note { Some(n) => Some(n), None => old(overlay).user_note }),
            final(overlay).user_body == (match self.body { Some(b) => Some(b), None => old(overlay).user_body }),
            tag_views(final(overlay).tags@) == remove_all(
                add_all(tag_views(old(overlay).tags@), text_views(self.add_tags@)),
                text_views(self.remove_tags@),
            ),
            history_view(final(overlay).history@) == history_view(old(overlay).history@) + request_edits(
                tag_views(old(overlay).tags@), opt_view(self.note), opt_view(self.body),
                text_views(self.add_tags@), text_views(self.remove_tags@)),
            request_edits(tag_views(old(overlay).tags@), opt_view(self.note), opt_view(self.body),
                text_views(self.add_tags@), text_views(self.remove_tags@)).len() > 0 ==> final(overlay).edited_at is Some,
            request_edits(tag_views(old(overlay).tags@), opt_view(self.note), opt_view(self.body),
                text_views(self.add_tags@), text_views(self.remove_tags@)).len() == 0 ==> *final(overlay) == *old(overlay),
    {
        let ghost start = *overlay;
        let ghost tags0 = tag_views(start.tags@);
        let ghost h0 = history_view(start.history@);
        let ghost note_v = opt_view(self.note);
        let ghost body_v = opt_view(self.body);
        match self.note {
            Some(n) => {
                overlay.set_note(n);
                proof {
                    assert(history_view(overlay.history@) =~= h0 + seq![EditView::SetNote(note_v->Some_0)]);
                }
            },
            None => {},
        }
        let ghost pre1: Seq<EditView> = match note_v { Some(n) => seq![EditView::SetNote(n)], None => Seq::empty() };
        assert(history_view(overlay.history@) =~= h0 + pre1);
        let ghost mid = *overlay;
        match self.body {
            Some(b) => {
                overlay.set_body(b);
                proof {
                    assert(history_view(overlay.history@) =~= history_view(mid.history@) + seq![EditView::SetBody(body_v->Some_0)]);
                }
            },
            None => {},
        }
        let ghost pre2: Seq<EditView> = match body_v { Some(b) => seq![EditView::SetBody(b)], None => Seq::empty() };
        let ghost pre = pre1 + pre2;
        assert(history_view(overlay.history@) =~= h0 + pre);
        assert(pre.len() == 0 ==> *overlay == start);
        let ghost note = overlay.user_note;
        let ghost body = overlay.user_body;
        let adds = self.add_tags;
        let removes = self.remove_tags;
        let ghost av = text_views(adds@);
        let ghost rv = text_views(removes@);
        let mut i: usize = 0;
        assert(av.take(0) =~= Seq::<Seq<char>>::empty());
        assert(pre + add_edits(tags0, av.take(0)) =~= pre);
        while i < adds.len()
            invariant
                i <= adds.len(),
                av == text_views(adds@),
                tags0 == tag_views(start.tags@),
                overlay.user_note == note,
                overlay.user_body == body,
                tag_views(overlay.tags@) == add_all(tags0, av.take(i as int)),
                history_view(overlay.history@) == h0 + (pre + add_edits(tags0, av.take(i as int))),
                (pre + add_edits(tags0, av.take(i as int))).len() == 0 ==> *overlay == start,
                (pre + add_edits(tags0, av.take(i as int))).len() > 0 ==> overlay.edited_at is Some,
            decreases adds.len() - i,
        {
            let ghost before = *overlay;
            overlay.add_tag(adds[i].clone());
            proof {
                let t = av.take(i + 1);
                assert(t.drop_last() =~= av.take(i as int));
                assert(t.last() == adds@[i as int]@);
                let e = pre + add_edits(tags0, av.take(i as int));
                if !add_all(tags0, av.take(i as int)).contains(t.last()) {
                    assert(history_view(overlay.history@) =~= history_view(before.history@) + seq![EditView::AddTag(t.last())]);
                    assert(pre + add_edits(tags0, t) =~= e + seq![EditView::AddTag(t.last())]);
                } else {
                    assert(pre + add_edits(tags0, t) =~= e);
                }
            }
            i += 1;
        }
        assert(av.take(adds.len() as int) =~= av);
        let ghost added = tag_views(overlay.tags@);
        let ghost pa = pre + add_edits(tags0, av);
        let mut j: usize = 0;
        assert(rv.take(0) =~= Seq::<Seq<char>>::empty());
        assert(pa + remove_edits(added, rv.take(0)) =~= pa);
        while j < removes.len()
            invariant
                j <= removes.len(),
                rv == text_views(removes@),
                overlay.user_note == note,
                overlay.user_body == body,
                tag_views(overlay.tags@) == remove_all(added, rv.take(j as int)),
                history_view(overlay.history@) == h0 + (pa + remove_edits(added, rv.take(j as int))),
                (pa + remove_edits(added, rv.take(j as int))).len() == 0 ==> *overlay == start,
                (pa + remove_edits(added, rv.take(j as int))).len() > 0 ==> overlay.edited_at is Some,
            decreases removes.len() - j,
        {
            let ghost before = *overlay;
            overlay.remove_tag(removes[j].as_str());
            proof {
                let t = rv.take(j + 1);
                assert(t.drop_last() =~= rv.take(j as int));
                assert(t.last() == removes@[j as int]@);
                let e = pa + remove_edits(added, rv.take(j as int));
                if remove_all(added, rv.take(j as int)).contains(t.last()) {
                    let bh = before.history@;
                    let ah = overlay.history@;
                    assert(ah.drop_last() == bh);
                    assert(ah =~= bh.push(ah.last()));
                    assert(history_view(ah) =~= history_view(bh) + seq![EditView::RemoveTag(t.last())]);
                    assert(pa + remove_edits(added, t) =~= e + seq![EditView::RemoveTag(t.last())]);
                } else {
                    assert(pa + remove_edits(added, t) =~= e);
                }
            }
            j += 1;
        }
        assert(rv.take(removes.len() as int) =~= rv);
        assert(pa + remove_edits(added, rv) =~= request_edits(tags0, note_v, body_v, av, rv));
    }
}

} // verus!
