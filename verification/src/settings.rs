//! User settings and their defaults.

use vstd::prelude::*;
use crate::ids::{all_hotkeys, hotkey_rank, HotkeyId};

verus! {

#[derive(Clone, Debug)]
pub struct Settings {
    pub version: u32,
    pub history: HistoryConfig,
    pub shortcuts: ShortcutMap,
    pub exclusions: Vec<ExclusionRule>,
    pub respect_concealed_pasteboard: bool,
    pub self_write_ignore_ms: u64,
}

#[derive(Clone, Debug)]
pub struct HistoryConfig {
    pub max_items: u64,
    pub max_bytes: u64,
    pub eviction_policy: EvictionPolicy,
    pub keep_pinned: bool,
}

#[derive(Clone, Copy, Debug, Eq, PartialEq, Structural)]
pub enum EvictionPolicy {
    CountPriority,
    SizePriority,
}

#[derive(Clone, Debug)]
pub struct ShortcutBinding {
    pub macos: Option<String>,
    pub windows: Option<String>,
}

/// A rule that keeps clipboard changes of an application out of history.
#[derive(Clone, Debug)]
pub enum ExclusionRule {
    BundleId(String),
    ExeBasename { name: String, fuzzy: bool },
    /// Glob over window title (e.g. "*1Password*").
    WindowTitle(String),
}

/// The shortcut binding of each hotkey, kept in hotkey order (declaration
/// order); each hotkey appears at most once.
#[derive(Clone, Debug)]
pub struct ShortcutMap {
    entries: Vec<(HotkeyId, ShortcutBinding)>,
}

pub open spec fn opt_view(o: Option<String>) -> Option<Seq<char>> {
    match o {
        Some(s) => Some(s@),
        None => None,
    }
}

pub open spec fn binding_view(b: ShortcutBinding) -> (Option<Seq<char>>, Option<Seq<char>>) {
    (opt_view(b.macos), opt_view(b.windows))
}

/// Whether the hotkeys of a sequence are in strictly increasing order.
pub open spec fn ascending(ks: Seq<HotkeyId>) -> bool {
    forall|i: int, j: int| 0 <= i < j < ks.len() ==> hotkey_rank(#[trigger] ks[i]) < hotkey_rank(#[trigger] ks[j])
}

spec fn entry_keys(es: Seq<(HotkeyId, ShortcutBinding)>) -> Seq<HotkeyId> {
    es.map_values(|e: (HotkeyId, ShortcutBinding)| e.0)
}

/// The binding of the first entry for `id`.
spec fn find_binding(es: Seq<(HotkeyId, ShortcutBinding)>, id: HotkeyId) -> Option<ShortcutBinding>
    decreases es.len(),
{
    if es.len() == 0 {
        None
    } else if es[0].0 == id {
        Some(es[0].1)
    } else {
        find_binding(es.drop_first(), id)
    }
}

proof fn lemma_find_first(es: Seq<(HotkeyId, ShortcutBinding)>, i: int)
    requires
        0 <= i < es.len(),
        forall|j: int| 0 <= j < i ==> (#[trigger] es[j]).0 != es[i].0,
    ensures
        find_binding(es, es[i].0) == Some(es[i].1),
    decreases i,
{
    if i > 0 {
        let t = es.drop_first();
        assert(es[0].0 != es[i].0);
        assert(t[i - 1] == es[i]);
        assert forall|j: int| 0 <= j < i - 1 implies (#[trigger] t[j]).0 != t[i - 1].0 by {
            assert(t[j] == es[j + 1]);
        }
        lemma_find_first(t, i - 1);
    }
}

proof fn lemma_find_at(es: Seq<(HotkeyId, ShortcutBinding)>, i: int)
    requires
        ascending(entry_keys(es)),
        0 <= i < es.len(),
    ensures
        find_binding(es, es[i].0) == Some(es[i].1),
{
    let ks = entry_keys(es);
    assert forall|j: int| 0 <= j < i implies (#[trigger] es[j]).0 != es[i].0 by {
        assert(ks[j] == es[j].0 && ks[i] == es[i].0);
        assert(hotkey_rank(ks[j]) < hotkey_rank(ks[i]));
    }
    lemma_find_first(es, i);
}

proof fn lemma_find_absent(es: Seq<(HotkeyId, ShortcutBinding)>, id: HotkeyId)
    requires
        forall|i: int| 0 <= i < es.len() ==> (#[trigger] es[i]).0 != id,
    ensures
        find_binding(es, id) is None,
    decreases es.len(),
{
    if es.len() > 0 {
        let t = es.drop_first();
        assert(es[0].0 != id);
        assert forall|i: int| 0 <= i < t.len() implies (#[trigger] t[i]).0 != id by {
            assert(t[i] == es[i + 1]);
        }
        lemma_find_absent(t, id);
    }
}

fn rank_of(id: &HotkeyId) -> (r: u8)
    ensures
        r == hotkey_rank(*id),
{
    match id {
        HotkeyId::ShowHistory => 0,
        HotkeyId::ShowSnippets => 1,
        HotkeyId::PastePlain => 2,
        HotkeyId::PasteFormat => 3,
        HotkeyId::PasteFull => 4,
        HotkeyId::DoneCapture => 5,
    }
}

impl ShortcutMap {
    /// The hotkeys with a binding, in hotkey order.
    pub closed spec fn keys(&self) -> Seq<HotkeyId> {
        entry_keys(self.entries@)
    }

    /// The binding of `id`, if it has one.
    pub closed spec fn lookup(&self, id: HotkeyId) -> Option<ShortcutBinding> {
        find_binding(self.entries@, id)
    }

    pub closed spec fn count(&self) -> nat {
        self.entries@.len()
    }

    pub closed spec fn well_formed(&self) -> bool {
        ascending(entry_keys(self.entries@))
    }

    /// A well-formed map lists its hotkeys in increasing order, once each,
    /// and a hotkey has a binding exactly when it is listed.
    pub proof fn lemma_keys(&self)
        requires
            self.well_formed(),
        ensures
            ascending(self.keys()),
            self.keys().len() == self.count(),
            forall|id: HotkeyId| #[trigger] self.lookup(id) is Some <==> self.keys().contains(id),
    {
        assert forall|id: HotkeyId| #[trigger] self.lookup(id) is Some <==> self.keys().contains(id) by {
            if self.keys().contains(id) {
                let i = choose|i: int| 0 <= i < self.keys().len() && self.keys()[i] == id;
                lemma_find_at(self.entries@, i);
            } else {
                assert forall|i: int| 0 <= i < self.entries@.len() implies (#[trigger] self.entries@[i]).0 != id by {
                    assert(self.keys()[i] == self.entries@[i].0);
                }
                lemma_find_absent(self.entries@, id);
            }
        }
    }

    pub fn new() -> (r: Self)
        ensures
            r.well_formed(),
            r.count() == 0,
            r.keys().len() == 0,
            forall|id: HotkeyId| r.lookup(id) is None,
    {
        ShortcutMap { entries: Vec::new() }
    }

    /// The hotkeys with a binding, in hotkey order.
    pub fn hotkeys(&self) -> (r: Vec<HotkeyId>)
        ensures
            r@ == self.keys(),
    {
        let mut out: Vec<HotkeyId> = Vec::new();
        let mut i: usize = 0;
        while i < self.entries.len()
            invariant
                i <= self.entries.len(),
                out@ == entry_keys(self.entries@).take(i as int),
            decreases self.entries.len() - i,
        {
            out.push(self.entries[i].0);
            assert(entry_keys(self.entries@).take(i + 1) =~= entry_keys(self.entries@).take(i as int).push(self.entries@[i as int].0));
            i += 1;
        }
        assert(entry_keys(self.entries@).take(i as int) =~= entry_keys(self.entries@));
        out
    }

    /// Number of hotkeys with a binding.
    pub fn len(&self) -> (r: usize)
        ensures
            r == self.count(),
    {
        self.entries.len()
    }

    fn position(&self, id: &HotkeyId) -> (r: Option<usize>)
        ensures
            r matches Some(i) ==> i < self.entries@.len() && self.entries@[i as int].0 == *id,
            r is None ==> forall|i: int| 0 <= i < self.entries@.len() ==> self.entries@[i].0 != *id,
    {
        let mut i: usize = 0;
        while i < self.entries.len()
            invariant
                i <= self.entries.len(),
                forall|j: int| 0 <= j < i ==> self.entries@[j].0 != *id,
            decreases self.entries.len() - i,
        {
            if self.entries[i].0 == *id {
                return Some(i);
            }
            i += 1;
        }
        None
    }

    pub fn contains_key(&self, id: &HotkeyId) -> (r: bool)
        requires
            self.well_formed(),
        ensures
            r == self.lookup(*id) is Some,
    {
        match self.position(id) {
            Some(i) => {
                proof {
                    lemma_find_at(self.entries@, i as int);
                }
                true
            },
            None => {
                proof {
                    lemma_find_absent(self.entries@, *id);
                }
                false
            },
        }
    }

    pub fn get(&self, id: &HotkeyId) -> (r: Option<&ShortcutBinding>)
        requires
            self.well_formed(),
        ensures
            r matches Some(b) ==> self.lookup(*id) == Some(*b),
            r is None ==> self.lookup(*id) is None,
    {
        match self.position(id) {
            Some(i) => {
                proof {
                    lemma_find_at(self.entries@, i as int);
                }
                Some(&self.entries[i].1)
            },
            None => {
                proof {
                    lemma_find_absent(self.entries@, *id);
                }
                None
            },
        }
    }

    /// Bind `id` to `b`, replacing any earlier binding of `id`; a new
    /// hotkey takes its place in hotkey order.
    pub fn insert(&mut self, id: HotkeyId, b: ShortcutBinding)
        requires
            old(self).well_formed(),
        ensures
            final(self).well_formed(),
            final(self).lookup(id) == Some(b),
            forall|k: HotkeyId| k != id ==> final(self).lookup(k) == old(self).lookup(k),
            final(self).count() == old(self).count() + (if old(self).lookup(id) is Some { 0int } else { 1int }),
            old(self).lookup(id) is Some ==> final(self).keys() == old(self).keys(),
            old(self).lookup(id) is None ==> exists|p: int| 0 <= p <= old(self).keys().len()
                && final(self).keys() == old(self).keys().insert(p, id),
            old(self).lookup(id) is None && (forall|i: int| 0 <= i < old(self).keys().len()
                ==> hotkey_rank(#[trigger] old(self).keys()[i]) < hotkey_rank(id))
                ==> final(self).keys() == old(self).keys().push(id),
    {
        let ghost before = self.entries@;
        match self.position(&id) {
            Some(i) => {
                proof {
                    lemma_find_at(before, i as int);
                }
                self.entries.set(i, (id, b));
                proof {
                    assert(entry_keys(self.entries@) =~= entry_keys(before));
                    lemma_find_at(self.entries@, i as int);
                    assert forall|k: HotkeyId| k != id implies self.lookup(k) == old(self).lookup(k) by {
                        if exists|x: int| 0 <= x < before.len() && before[x].0 == k {
                            let x = choose|x: int| 0 <= x < before.len() && before[x].0 == k;
                            lemma_find_at(before, x);
                            assert(self.entries@[x] == before[x]);
                            lemma_find_at(self.entries@, x);
                        } else {
                            assert forall|y: int| 0 <= y < self.entries@.len() implies (#[trigger] self.entries@[y]).0 != k by {
                                if y != i {
                                    assert(self.entries@[y] == before[y]);
                                }
                            }
                            lemma_find_absent(self.entries@, k);
                            assert forall|y: int| 0 <= y < before.len() implies (#[trigger] before[y]).0 != k by {}
                            lemma_find_absent(before, k);
                        }
                    }
                }
            },
            None => {
                proof {
                    lemma_find_absent(before, id);
                }
                let r = rank_of(&id);
                let mut p: usize = 0;
                while p < self.entries.len() && rank_of(&self.entries[p].0) < r
                    invariant
                        p <= self.entries.len(),
                        self.entries@ == before,
                        r == hotkey_rank(id),
                        forall|j: int| 0 <= j < p ==> hotkey_rank(#[trigger] before[j].0) < r,
                    decreases self.entries.len() - p,
                {
                    p += 1;
                }
                let ghost n = before.len() as int;
                proof {
                    let ks = entry_keys(before);
                    assert forall|j: int| p <= j < n implies hotkey_rank(#[trigger] before[j].0) > r by {
                        assert(before[p as int].0 != id);
                        assert(hotkey_rank(before[p as int].0) >= r);
                        if hotkey_rank(before[p as int].0) == r {
                            assert(before[p as int].0 == id);
                        }
                        if j > p {
                            assert(hotkey_rank(ks[p as int]) < hotkey_rank(ks[j]));
                        }
                    }
                }
                self.entries.insert(p, (id, b));
                proof {
                    let es = self.entries@;
                    assert(es =~= before.insert(p as int, (id, b)));
                    assert(entry_keys(es) =~= entry_keys(before).insert(p as int, id));
                    let ks = entry_keys(before);
                    let ks2 = entry_keys(es);
                    assert forall|i: int, j: int| 0 <= i < j < ks2.len() implies hotkey_rank(#[trigger] ks2[i]) < hotkey_rank(#[trigger] ks2[j]) by {
                        if j < p {
                            assert(ks2[i] == ks[i] && ks2[j] == ks[j]);
                        } else if j == p {
                            assert(ks2[i] == before[i].0);
                        } else if i > p {
                            assert(ks2[i] == ks[i - 1] && ks2[j] == ks[j - 1]);
                        } else if i == p {
                            assert(ks2[j] == before[j - 1].0);
                        } else {
                            assert(ks2[i] == ks[i] && ks2[j] == ks[j - 1]);
                        }
                    }
                    assert(es[p as int] == (id, b));
                    lemma_find_at(es, p as int);
                    assert(0 <= p <= before.len() && self.keys() == old(self).keys().insert(p as int, id));
                    if forall|i: int| 0 <= i < ks.len() ==> hotkey_rank(#[trigger] ks[i]) < hotkey_rank(id) {
                        if p < n {
                            assert(ks[p as int] == before[p as int].0);
                        }
                        assert(ks.insert(p as int, id) =~= ks.push(id));
                    }
                    assert forall|k: HotkeyId| k != id implies self.lookup(k) == old(self).lookup(k) by {
                        if exists|x: int| 0 <= x < before.len() && before[x].0 == k {
                            let x = choose|x: int| 0 <= x < before.len() && before[x].0 == k;
                            lemma_find_at(before, x);
                            let x2 = if x < p { x } else { x + 1 };
                            assert(es[x2] == before[x]);
                            lemma_find_at(es, x2);
                        } else {
                            assert forall|y: int| 0 <= y < es.len() implies (#[trigger] es[y]).0 != k by {
                                if y < p {
                                    assert(es[y] == before[y]);
                                } else if y > p {
                                    assert(es[y] == before[y - 1]);
                                }
                            }
                            lemma_find_absent(es, k);
                            assert forall|y: int| 0 <= y < before.len() implies (#[trigger] before[y]).0 != k by {}
                            lemma_find_absent(before, k);
                        }
                    }
                }
            },
        }
    }
}

impl Default for HistoryConfig {
    /// A thousand items, 500 MiB, size-priority eviction, pinned items kept.
    fn default() -> (r: Self)
        ensures
            r.max_items == 1000,
            r.max_bytes == 500 * 1024 * 1024,
            r.eviction_policy == EvictionPolicy::SizePriority,
            r.keep_pinned,
    {
        HistoryConfig {
            max_items: 1000,
            max_bytes: 500 * 1024 * 1024,
            eviction_policy: EvictionPolicy::SizePriority,
            keep_pinned: true,
        }
    }
}

/// The default key bindings of the six hotkeys, `(macOS, Windows)`.
pub open spec fn default_binding(id: HotkeyId) -> (Option<Seq<char>>, Option<Seq<char>>) {
    match id {
        HotkeyId::ShowHistory => (Some("Cmd+Shift+V"@), Some("Ctrl+Shift+V"@)),
        HotkeyId::ShowSnippets => (Some("Cmd+Shift+C"@), Some("Ctrl+Shift+C"@)),
        HotkeyId::PastePlain => (Some("Cmd+Ctrl+V"@), Some("Ctrl+Shift+Alt+V"@)),
        HotkeyId::PasteFormat => (Some("Cmd+Alt+V"@), Some("Ctrl+Alt+V"@)),
        HotkeyId::PasteFull => (Some("Cmd+Shift+Alt+V"@), Some("Ctrl+Shift+Alt+F"@)),
        HotkeyId::DoneCapture => (Some("Cmd+Shift+D"@), Some("Ctrl+Shift+D"@)),
    }
}

pub fn default_shortcuts() -> (m: ShortcutMap)
    ensures
        m.well_formed(),
        m.count() == 6,
        m.keys() == all_hotkeys(),
        forall|id: HotkeyId| #[trigger] m.lookup(id) matches Some(b) && binding_view(b) == default_binding(id),
{
    let mut m = ShortcutMap::new();
    m.insert(HotkeyId::ShowHistory, b("Cmd+Shift+V", "Ctrl+Shift+V"));
    m.insert(HotkeyId::ShowSnippets, b("Cmd+Shift+C", "Ctrl+Shift+C"));
    m.insert(HotkeyId::PastePlain, b("Cmd+Ctrl+V", "Ctrl+Shift+Alt+V"));
    m.insert(HotkeyId::PasteFormat, b("Cmd+Alt+V", "Ctrl+Alt+V"));
    m.insert(HotkeyId::PasteFull, b("Cmd+Shift+Alt+V", "Ctrl+Shift+Alt+F"));
    m.insert(HotkeyId::DoneCapture, b("Cmd+Shift+D", "Ctrl+Shift+D"));
    assert forall|id: HotkeyId| #[trigger] m.lookup(id) matches Some(x) && binding_view(x) == default_binding(id) by {
        match id {
            HotkeyId::ShowHistory => {},
            HotkeyId::ShowSnippets => {},
            HotkeyId::PastePlain => {},
            HotkeyId::PasteFormat => {},
            HotkeyId::PasteFull => {},
            HotkeyId::DoneCapture => {},
        }
    }
    m
}

fn b(mac: &str, win: &str) -> (r: ShortcutBinding)
    ensures
        binding_view(r) == (Some(mac@), Some(win@)),
{
    ShortcutBinding { macos: Some(mac.to_owned()), windows: Some(win.to_owned()) }
}

pub open spec fn is_bundle_rule(r: ExclusionRule, id: Seq<char>) -> bool {
    r matches ExclusionRule::BundleId(s) && s@ == id
}

pub open spec fn is_exe_rule(r: ExclusionRule, name: Seq<char>, fuzzy: bool) -> bool {
    r matches ExclusionRule::ExeBasename { name: n, fuzzy: f } && n@ == name && f == fuzzy
}

/// Password managers are excluded by bundle id and, fuzzily, by executable.
pub fn default_exclusions() -> (r: Vec<ExclusionRule>)
    ensures
        r@.len() == 7,
        is_bundle_rule(r@[0], "com.1password.1password"@),
        is_bundle_rule(r@[1], "com.1password.1password7"@),
        is_bundle_rule(r@[2], "com.bitwarden.desktop"@),
        is_bundle_rule(r@[3], "org.keepassxc.keepassxc"@),
        is_exe_rule(r@[4], "1Password"@, true),
        is_exe_rule(r@[5], "Bitwarden"@, true),
        is_exe_rule(r@[6], "KeePassXC"@, true),
{
    let mut v: Vec<ExclusionRule> = Vec::new();
    v.push(ExclusionRule::BundleId("com.1password.1password".to_owned()));
    v.push(ExclusionRule::BundleId("com.1password.1password7".to_owned()));
    v.push(ExclusionRule::BundleId("com.bitwarden.desktop".to_owned()));
    v.push(ExclusionRule::BundleId("org.keepassxc.keepassxc".to_owned()));
    v.push(ExclusionRule::ExeBasename { name: "1Password".to_owned(), fuzzy: true });
    v.push(ExclusionRule::ExeBasename { name: "Bitwarden".to_owned(), fuzzy: true });
    v.push(ExclusionRule::ExeBasename { name: "KeePassXC".to_owned(), fuzzy: true });
    v
}

impl Settings {
    pub open spec fn is_default(&self) -> bool {
        &&& self.version == 1
        &&& self.history.max_items == 1000
        &&& self.history.max_bytes == 500 * 1024 * 1024
        &&& self.history.eviction_policy == EvictionPolicy::SizePriority
        &&& self.history.keep_pinned
        &&& self.shortcuts.well_formed()
        &&& self.shortcuts.count() == 6
        &&& forall|id: HotkeyId| #[trigger] self.shortcuts.lookup(id) matches Some(b) && binding_view(b) == default_binding(id)
        &&& self.exclusions@.len() == 7
        &&& self.respect_concealed_pasteboard
        &&& self.self_write_ignore_ms == 800
    }
}

impl Default for Settings {
    fn default() -> (r: Self)
        ensures
            r.is_default(),
    {
        Settings {
            version: 1,
            history: HistoryConfig::default(),
            shortcuts: default_shortcuts(),
            exclusions: default_exclusions(),
            respect_concealed_pasteboard: true,
            self_write_ignore_ms: 800,
        }
    }
}

} // verus!
