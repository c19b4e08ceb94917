//! The decisions of the desktop application's start-up and window
//! handling: which keys and directories the stores open with (falling back
//! to temporary stores rather than failing), which shortcuts are
//! registered, where the history window appears and what its hotkey and
//! tray menu do.

use vstd::prelude::*;
use crate::hotkey::{platform_accel, Platform};
use crate::ids::{all_hotkeys, HotkeyId};
use crate::settings::{opt_view, ShortcutMap};
use crate::store::aead::KeySource;
use crate::text::{chars_of, decimal, decimal_chars, push_all, same_text, string_of};

verus! {

/// The data keys the application uses: in-memory keys in a development
/// build, the OS keychain entry `ClipNoteX` / `data_key` otherwise.
pub fn key_source(dev_build: bool) -> (r: KeySource)
    ensures
        dev_build ==> r is Ephemeral,
        !dev_build ==> (r matches KeySource::Keyring { service, account }
            && service@ == "ClipNoteX"@ && account@ == "data_key"@),
{
    if dev_build {
        KeySource::Ephemeral
    } else {
        KeySource::Keyring { service: "ClipNoteX".to_owned(), account: "data_key".to_owned() }
    }
}

/// The two encrypted stores.
#[derive(Debug, Clone, Copy, PartialEq, Eq, Structural)]
pub enum StoreKind {
    History,
    DoneLog,
}

/// The attempts at opening a store, in order.
#[derive(Debug, Clone, Copy, PartialEq, Eq, Structural)]
pub enum OpenStep {
    Primary,
    Fallback,
    LastResort,
}

/// The directory an attempt is relative to.
#[derive(Debug, Clone, Copy, PartialEq, Eq, Structural)]
pub enum BaseDir {
    /// The application's data directory.
    Data,
    /// The system's temporary directory.
    Temp,
}

/// Where and with which keys one attempt opens a store.
#[derive(Debug)]
pub struct OpenAttempt {
    pub base: BaseDir,
    /// The directory below `base`; `None` for `base` itself.
    pub subdir: Option<String>,
    pub keys: KeySource,
}

pub open spec fn fallback_name(kind: StoreKind, step: OpenStep, pid: u32) -> Seq<char> {
    let stem = match kind {
        StoreKind::History => "clipnotex-"@,
        StoreKind::DoneLog => "clipnotex-donelog-"@,
    };
    let which = match step {
        OpenStep::LastResort => "last-"@,
        _ => "fallback-"@,
    };
    stem + which + decimal(pid as nat)
}

/// An attempt at opening a store: first in the data directory (the DONE
/// LOG in its `donelog` subdirectory) with the application's keys, then
/// twice in the temporary directory, under the process id, with in-memory
/// keys.
pub fn open_attempt(kind: StoreKind, step: OpenStep, pid: u32, dev_build: bool) -> (r: OpenAttempt)
    ensures
        step == OpenStep::Primary ==> r.base == BaseDir::Data
            && opt_view(r.subdir) == (if kind == StoreKind::DoneLog { Some("donelog"@) } else { None::<Seq<char>> })
            && (dev_build ==> r.keys is Ephemeral)
            && (!dev_build ==> (r.keys matches KeySource::Keyring { service, account }
                && service@ == "ClipNoteX"@ && account@ == "data_key"@)),
        step != OpenStep::Primary ==> r.base == BaseDir::Temp
            && opt_view(r.subdir) == Some(fallback_name(kind, step, pid))
            && r.keys is Ephemeral,
{
    match step {
        OpenStep::Primary => {
            let subdir = match kind {
                StoreKind::History => None,
                StoreKind::DoneLog => Some("donelog".to_owned()),
            };
            OpenAttempt { base: BaseDir::Data, subdir, keys: key_source(dev_build) }
        },
        _ => {
            let mut name = match kind {
                StoreKind::History => chars_of("clipnotex-"),
                StoreKind::DoneLog => chars_of("clipnotex-donelog-"),
            };
            let which = match step {
                OpenStep::LastResort => chars_of("last-"),
                _ => chars_of("fallback-"),
            };
            push_all(&mut name, &which);
            push_all(&mut name, &decimal_chars(pid as u64));
            OpenAttempt { base: BaseDir::Temp, subdir: Some(string_of(&name)), keys: KeySource::Ephemeral }
        },
    }
}

/// The attempt after a failed one, if any.
pub fn next_open_step(step: OpenStep) -> (r: Option<OpenStep>)
    ensures
        step == OpenStep::Primary ==> r == Some(OpenStep::Fallback),
        step == OpenStep::Fallback ==> r == Some(OpenStep::LastResort),
        step == OpenStep::LastResort ==> r is None,
{
    match step {
        OpenStep::Primary => Some(OpenStep::Fallback),
        OpenStep::Fallback => Some(OpenStep::LastResort),
        OpenStep::LastResort => None,
    }
}

/// The accelerator of a hotkey on a platform, when it has a binding there.
pub open spec fn accel_of(map: ShortcutMap, platform: Platform, id: HotkeyId) -> Option<Seq<char>> {
    match map.lookup(id) {
        Some(b) => if platform == Platform::MacOs { opt_view(b.macos) } else { opt_view(b.windows) },
        None => None,
    }
}

pub open spec fn accelerators_spec(map: ShortcutMap, platform: Platform, ids: Seq<HotkeyId>) -> Seq<(HotkeyId, Seq<char>)>
    decreases ids.len(),
{
    if ids.len() == 0 {
        Seq::empty()
    } else {
        accelerators_spec(map, platform, ids.drop_last()) + match accel_of(map, platform, ids.last()) {
            Some(a) => seq![(ids.last(), a)],
            None => Seq::empty(),
        }
    }
}

pub open spec fn pair_views(v: Seq<(HotkeyId, String)>) -> Seq<(HotkeyId, Seq<char>)> {
    v.map_values(|p: (HotkeyId, String)| (p.0, p.1@))
}

fn hotkey_at(i: usize) -> (r: HotkeyId)
    requires
        i < 6,
    ensures
        r == all_hotkeys()[i as int],
{
    match i {
        0 => HotkeyId::ShowHistory,
        1 => HotkeyId::ShowSnippets,
        2 => HotkeyId::PastePlain,
        3 => HotkeyId::PasteFormat,
        4 => HotkeyId::PasteFull,
        _ => HotkeyId::DoneCapture,
    }
}

/// The shortcuts to register on a platform: each hotkey with a binding
/// there, with its accelerator, in the settings' order.
pub fn shortcut_accelerators(map: &ShortcutMap, platform: Platform) -> (r: Vec<(HotkeyId, String)>)
    requires
        map.well_formed(),
    ensures
        pair_views(r@) == accelerators_spec(*map, platform, all_hotkeys()),
{
    let mut out: Vec<(HotkeyId, String)> = Vec::new();
    let mut i: usize = 0;
    while i < 6
        invariant
            i <= 6,
            map.well_formed(),
            pair_views(out@) == accelerators_spec(*map, platform, all_hotkeys().take(i as int)),
        decreases 6 - i,
    {
        let id = hotkey_at(i);
        let accel: Option<&str> = match map.get(&id) {
            Some(b) => platform_accel(b, platform),
            None => None,
        };
        let ghost before = out@;
        match accel {
            Some(a) => out.push((id, a.to_owned())),
            None => {},
        }
        proof {
            let t = all_hotkeys().take(i + 1);
            assert(t.drop_last() =~= all_hotkeys().take(i as int));
            assert(t.last() == id);
            assert(pair_views(out@) =~= accelerators_spec(*map, platform, t));
        }
        i += 1;
    }
    assert(all_hotkeys().take(6) =~= all_hotkeys());
    out
}

/// Where the history window goes: just below and right of the cursor,
/// pulled back inside the monitor's right and bottom edges, and never left
/// of or above the monitor.
pub open spec fn place_spec(
    width: int, height: int, cursor_x: int, cursor_y: int,
    mon_x: int, mon_y: int, mon_w: int, mon_h: int,
) -> (int, int) {
    let right = mon_x + mon_w;
    let bottom = mon_y + mon_h;
    let x0 = cursor_x + 8;
    let y0 = cursor_y + 8;
    let x1 = if x0 + width > right { right - width - 8 } else { x0 };
    let y1 = if y0 + height > bottom { bottom - height - 8 } else { y0 };
    let x2 = if x1 < mon_x { mon_x + 8 } else { x1 };
    let y2 = if y1 < mon_y { mon_y + 8 } else { y1 };
    (x2, y2)
}

pub open spec fn fits_i32(v: int) -> bool {
    i32::MIN <= v <= i32::MAX
}

/// The window position near the cursor (see [`place_spec`]); the sizes and
/// positions are in physical pixels.
pub fn place_near_cursor(
    width: i32, height: i32, cursor_x: i32, cursor_y: i32,
    mon_x: i32, mon_y: i32, mon_w: i32, mon_h: i32,
) -> (r: (i32, i32))
    requires
        fits_i32(mon_x + mon_w),
        fits_i32(mon_y + mon_h),
        fits_i32(cursor_x + 8),
        fits_i32(cursor_y + 8),
        fits_i32(cursor_x + 8 + width),
        fits_i32(cursor_y + 8 + height),
        fits_i32(mon_x + mon_w - width - 8),
        fits_i32(mon_y + mon_h - height - 8),
        fits_i32(mon_x + 8),
        fits_i32(mon_y + 8),
    ensures
        (r.0 as int, r.1 as int) == place_spec(
            width as int, height as int, cursor_x as int, cursor_y as int,
            mon_x as int, mon_y as int, mon_w as int, mon_h as int,
        ),
{
    let right = mon_x + mon_w;
    let bottom = mon_y + mon_h;
    let mut x = cursor_x + 8;
    let mut y = cursor_y + 8;
    if x + width > right {
        x = right - width - 8;
    }
    if y + height > bottom {
        y = bottom - height - 8;
    }
    if x < mon_x {
        x = mon_x + 8;
    }
    if y < mon_y {
        y = mon_y + 8;
    }
    (x, y)
}

/// What the history hotkey does to the window.
#[derive(Debug, Clone, Copy, PartialEq, Eq, Structural)]
pub enum WindowAction {
    /// Bring the visible but unfocused window to the front.
    Focus,
    Hide,
    /// Place it near the cursor, show it and focus it.
    ShowNearCursor,
}

/// Toggling the history window, from whether it is visible and focused
/// (`None` where the window system could not tell): a visible window is
/// hidden, unless it is known to be unfocused, when it is brought to the
/// front; otherwise it is shown.
pub fn toggle_action(visible: Option<bool>, focused: Option<bool>) -> (r: WindowAction)
    ensures
        visible == Some(true) && focused == Some(false) ==> r == WindowAction::Focus,
        visible == Some(true) && focused != Some(false) ==> r == WindowAction::Hide,
        visible != Some(true) ==> r == WindowAction::ShowNearCursor,
{
    match visible {
        Some(true) => match focused {
            Some(false) => WindowAction::Focus,
            _ => WindowAction::Hide,
        },
        _ => WindowAction::ShowNearCursor,
    }
}

/// The entries of the tray menu.
#[derive(Debug, Clone, Copy, PartialEq, Eq, Structural)]
pub enum MenuAction {
    ShowHistory,
    Quit,
}

/// The action of a tray menu item id.
pub fn menu_action(id: &str) -> (r: Option<MenuAction>)
    ensures
        id@ == "show"@ ==> r == Some(MenuAction::ShowHistory),
        id@ == "quit"@ ==> r == Some(MenuAction::Quit),
        id@ != "show"@ && id@ != "quit"@ ==> r is None,
{
    proof {
        reveal_strlit("show");
        reveal_strlit("quit");
        assert("show"@[0] != "quit"@[0]);
    }
    if same_text(id, "show") {
        Some(MenuAction::ShowHistory)
    } else if same_text(id, "quit") {
        Some(MenuAction::Quit)
    } else {
        None
    }
}

/// What a hotkey press does in the desktop application: the history
/// hotkey toggles the history window; the others are handled elsewhere.
pub fn toggles_history(id: HotkeyId) -> (r: bool)
    ensures
        r == (id == HotkeyId::ShowHistory),
{
    match id {
        HotkeyId::ShowHistory => true,
        _ => false,
    }
}

} // verus!
