//! The configuration: its defaults, how it is loaded and how it is saved without ever
//! leaving half a file behind.

use crate::paths::{
    self, beside, clear_name, is_final, is_sibling, last_piece, lemma_bare_name_grows,
    lemma_clear_name, placed, plain_directory,
};
use crate::text::{
    copy_texts, has_substring, law_part_is_found, lemma_precedes_total, lemma_precedes_transitive,
    precedes, same_text, text_precedes,
};
use std::collections::HashMap;
use vstd::prelude::*;

verus! {

/// The configuration file, beside the executable.
pub const DEFAULT_CONFIG_PATH: &'static str = "config/tltoolbox.toml";

/// Where terminal logs go by default, beside the executable.
pub const DEFAULT_TERMINAL_LOG_DIR: &'static str = "logs/terminals";

/// Where a path of the application lies: an absolute one where it is, another beside
/// the executable, whose directory is `exe_dir` if it is known. Which paths are
/// absolute is the platform's affair, unless none takes the path for absolute;
/// [`paths::anchor`] says what is made of the answer.
pub fn resolve_app_path(sub_path: &str, exe_dir: Option<&str>) -> (r: String)
    ensures
        placed(exe_dir, sub_path@, r@),
{
    let beside_exe = match exe_dir {
        Some(dir) => Some(paths::join(dir, sub_path)),
        None => None,
    };
    paths::anchor(sub_path, paths::is_absolute(sub_path), beside_exe)
}

/// The texts of a list of strings.
pub open spec fn texts(list: Seq<String>) -> Seq<Seq<char>> {
    list.map_values(|s: String| s@)
}

// ---------------------------------------------------------------------------
// Icon layouts
// ---------------------------------------------------------------------------

/// A position on the desktop.
#[derive(Debug, Clone, Copy, PartialEq, Eq, Structural)]
pub struct IconCoordinate {
    pub x: i32,
    pub y: i32,
}

/// The position of one icon.
#[derive(Debug, PartialEq, Eq)]
pub struct IconPosition {
    pub name: String,
    pub at: IconCoordinate,
}

/// The position that `entries` give for a name: that of the first entry with it.
pub open spec fn position_in(entries: Seq<IconPosition>, name: Seq<char>) -> Option<IconCoordinate>
    decreases entries.len(),
{
    if entries.len() == 0 {
        None
    } else if entries[0].name@ == name {
        Some(entries[0].at)
    } else {
        position_in(entries.drop_first(), name)
    }
}

/// Whether the entries stand in the order of their names, each name once.
pub open spec fn in_order(entries: Seq<IconPosition>) -> bool {
    forall|i: int, j: int|
        0 <= i < j < entries.len() ==> precedes(
            (#[trigger] entries[i]).name@,
            (#[trigger] entries[j]).name@,
        )
}

/// Whether two lists of entries hold the same names and positions in the same order.
pub open spec fn same_entries(a: Seq<IconPosition>, b: Seq<IconPosition>) -> bool {
    &&& a.len() == b.len()
    &&& forall|i: int|
        0 <= i < a.len() ==> (#[trigger] a[i]).name@ == (#[trigger] b[i]).name@ && a[i].at
            == b[i].at
}

/// The positions of icons, by name.
#[derive(Debug, Eq)]
pub struct IconMap {
    entries: Vec<IconPosition>,
}

impl IconMap {
    /// The names are in order, and none occurs twice.
    #[verifier::type_invariant]
    spec fn names_in_order(&self) -> bool {
        in_order(self.entries@)
    }

    /// The position of the icon with this name.
    pub closed spec fn position(&self, name: Seq<char>) -> Option<IconCoordinate> {
        position_in(self.entries@, name)
    }

    /// The number of icons.
    pub closed spec fn count(&self) -> nat {
        self.entries@.len()
    }

    /// The icons, in the order of their names.
    pub closed spec fn listed(&self) -> Seq<IconPosition> {
        self.entries@
    }

    /// No icons.
    pub fn new() -> (r: Self)
        ensures
            forall|name: Seq<char>| r.position(name) is None,
            r.count() == 0,
    {
        IconMap { entries: Vec::new() }
    }

    /// The number of icons.
    pub fn len(&self) -> (r: usize)
        ensures
            r == self.count(),
    {
        self.entries.len()
    }

    /// The icons, each once, in the order of their names.
    pub fn entries(&self) -> (r: &Vec<IconPosition>)
        ensures
            r@ == self.listed(),
            in_order(r@),
            forall|name: Seq<char>| #[trigger] position_in(r@, name) == self.position(name),
            r@.len() == self.count(),
    {
        proof {
            use_type_invariant(self);
        }
        &self.entries
    }

    /// How many names come before this one, and whether the next is it.
    fn find(&self, name: &str) -> (r: (usize, bool))
        ensures
            r.0 <= self.entries@.len(),
            forall|i: int|
                0 <= i < r.0 ==> precedes((#[trigger] self.entries@[i]).name@, name@),
            r.1 ==> r.0 < self.entries@.len() && self.entries@[r.0 as int].name@ == name@
                && self.position(name@) == Some(self.entries@[r.0 as int].at),
            !r.1 ==> self.position(name@) is None && forall|i: int|
                r.0 <= i < self.entries@.len() ==> precedes(
                    name@,
                    (#[trigger] self.entries@[i]).name@,
                ),
    {
        proof {
            use_type_invariant(self);
        }
        let mut i: usize = 0;
        while i < self.entries.len() && text_precedes(self.entries[i].name.as_str(), name)
            invariant
                i <= self.entries@.len(),
                forall|k: int|
                    0 <= k < i ==> precedes((#[trigger] self.entries@[k]).name@, name@),
            decreases self.entries@.len() - i,
        {
            i = i + 1;
        }
        let found = i < self.entries.len() && same_text(self.entries[i].name.as_str(), name);
        proof {
            assert forall|k: int| 0 <= k < i implies (#[trigger] self.entries@[k]).name@
                != name@ by {
                lemma_precedes_total(self.entries@[k].name@, name@);
            }
            if found {
                lemma_position_of_entry(self.entries@, i as int);
            } else {
                assert forall|k: int| i <= k < self.entries@.len() implies precedes(
                    name@,
                    (#[trigger] self.entries@[k]).name@,
                ) by {
                    let next = self.entries@[i as int].name@;
                    lemma_precedes_total(next, name@);
                    if i < k {
                        lemma_precedes_transitive(name@, next, self.entries@[k].name@);
                    }
                }
                assert forall|k: int| 0 <= k < self.entries@.len() implies (
                #[trigger] self.entries@[k]).name@ != name@ by {
                    lemma_precedes_total(name@, self.entries@[k].name@);
                }
                lemma_position_absent(self.entries@, name@);
            }
        }
        (i, found)
    }

    /// The position of the icon with this name.
    pub fn get(&self, name: &str) -> (r: Option<IconCoordinate>)
        ensures
            r == self.position(name@),
    {
        let (place, found) = self.find(name);
        if found {
            Some(self.entries[place].at)
        } else {
            None
        }
    }

    /// Places the icon with this name.
    pub fn insert(&mut self, name: String, at: IconCoordinate)
        ensures
            forall|n: Seq<char>| #[trigger]
                final(self).position(n) == (if n == name@ {
                    Some(at)
                } else {
                    old(self).position(n)
                }),
            final(self).count() == old(self).count() + (if old(self).position(name@) is Some {
                0nat
            } else {
                1nat
            }),
    {
        proof {
            use_type_invariant(&*self);
        }
        let (place, found) = self.find(name.as_str());
        let mut entries: Vec<IconPosition> = Vec::new();
        std::mem::swap(&mut entries, &mut self.entries);
        let ghost before = entries@;
        let ghost key = name@;
        let entry = IconPosition { name, at };
        if found {
            entries.set(place, entry);
            proof {
                assert forall|n: Seq<char>| #[trigger]
                    position_in(entries@, n) == (if n == key {
                        Some(at)
                    } else {
                        position_in(before, n)
                    }) by {
                    lemma_position_after_update(before, place as int, entry, n);
                }
            }
        } else {
            entries.insert(place, entry);
            proof {
                assert forall|i: int| 0 <= i < before.len() implies (
                #[trigger] before[i]).name@ != key by {
                    lemma_precedes_total(before[i].name@, key);
                    lemma_precedes_total(key, before[i].name@);
                }
                assert forall|i: int, j: int| 0 <= i < j < entries@.len() implies precedes(
                    (#[trigger] entries@[i]).name@,
                    (#[trigger] entries@[j]).name@,
                ) by {
                    let from = if i < place {
                        i
                    } else {
                        i - 1
                    };
                    let to = if j < place {
                        j
                    } else {
                        j - 1
                    };
                    if i != place {
                        assert(entries@[i] == before[from]);
                    }
                    if j != place {
                        assert(entries@[j] == before[to]);
                    }
                }
                assert forall|n: Seq<char>| #[trigger]
                    position_in(entries@, n) == (if n == key {
                        Some(at)
                    } else {
                        position_in(before, n)
                    }) by {
                    lemma_position_after_insert(before, place as int, entry, n);
                }
            }
        }
        self.entries = entries;
    }
}

/// The first entry with a name decides for it.
proof fn lemma_position_of_entry(entries: Seq<IconPosition>, i: int)
    requires
        0 <= i < entries.len(),
        forall|k: int| 0 <= k < i ==> (#[trigger] entries[k]).name@ != entries[i].name@,
    ensures
        position_in(entries, entries[i].name@) == Some(entries[i].at),
    decreases i,
{
    if i > 0 {
        let rest = entries.drop_first();
        assert(rest[i - 1] == entries[i]);
        assert forall|k: int| 0 <= k < i - 1 implies (#[trigger] rest[k]).name@ != rest[i
            - 1].name@ by {
            assert(rest[k] == entries[k + 1]);
        }
        assert(entries[0].name@ != entries[i].name@);
        lemma_position_of_entry(rest, i - 1);
    }
}

/// A name that no entry has is given no position.
proof fn lemma_position_absent(entries: Seq<IconPosition>, name: Seq<char>)
    requires
        forall|k: int| 0 <= k < entries.len() ==> (#[trigger] entries[k]).name@ != name,
    ensures
        position_in(entries, name) is None,
    decreases entries.len(),
{
    if entries.len() > 0 {
        let rest = entries.drop_first();
        assert forall|k: int| 0 <= k < rest.len() implies (#[trigger] rest[k]).name@
            != name by {
            assert(rest[k] == entries[k + 1]);
        }
        assert(entries[0].name@ != name);
        lemma_position_absent(rest, name);
    }
}

/// Replacing the entry at `i` by one of the same name changes that name's position
/// alone, where no name occurs twice.
proof fn lemma_position_after_update(
    entries: Seq<IconPosition>,
    i: int,
    entry: IconPosition,
    name: Seq<char>,
)
    requires
        0 <= i < entries.len(),
        entry.name@ == entries[i].name@,
        in_order(entries),
    ensures
        position_in(entries.update(i, entry), name) == (if name == entry.name@ {
            Some(entry.at)
        } else {
            position_in(entries, name)
        }),
    decreases entries.len(),
{
    let updated = entries.update(i, entry);
    if i == 0 {
        assert(updated.drop_first() =~= entries.drop_first());
    } else {
        let rest = entries.drop_first();
        assert(updated.drop_first() =~= rest.update(i - 1, entry));
        assert(updated[0] == entries[0]);
        lemma_rest_in_order(entries);
        lemma_position_after_update(rest, i - 1, entry, name);
        lemma_precedes_total(entries[0].name@, entries[i].name@);
    }
}

/// An entry that is put in anywhere decides for its name where no entry has it yet.
proof fn lemma_position_after_insert(
    entries: Seq<IconPosition>,
    i: int,
    entry: IconPosition,
    name: Seq<char>,
)
    requires
        0 <= i <= entries.len(),
        forall|k: int| 0 <= k < entries.len() ==> (#[trigger] entries[k]).name@ != entry.name@,
    ensures
        position_in(entries.insert(i, entry), name) == (if name == entry.name@ {
            Some(entry.at)
        } else {
            position_in(entries, name)
        }),
    decreases i,
{
    let grown = entries.insert(i, entry);
    if i == 0 {
        assert(grown.drop_first() =~= entries);
    } else {
        let rest = entries.drop_first();
        assert(grown.drop_first() =~= rest.insert(i - 1, entry));
        assert(grown[0] == entries[0]);
        assert forall|k: int| 0 <= k < rest.len() implies (#[trigger] rest[k]).name@
            != entry.name@ by {
            assert(rest[k] == entries[k + 1]);
        }
        assert(entries[0].name@ != entry.name@);
        lemma_position_after_insert(rest, i - 1, entry, name);
    }
}

/// What is in order is so without its first entry, whose name does not occur again.
proof fn lemma_rest_in_order(entries: Seq<IconPosition>)
    requires
        entries.len() > 0,
        in_order(entries),
    ensures
        in_order(entries.drop_first()),
        position_in(entries.drop_first(), entries[0].name@) is None,
{
    let rest = entries.drop_first();
    assert forall|i: int, j: int| 0 <= i < j < rest.len() implies precedes(
        (#[trigger] rest[i]).name@,
        (#[trigger] rest[j]).name@,
    ) by {
        assert(rest[i] == entries[i + 1]);
        assert(rest[j] == entries[j + 1]);
    }
    assert forall|k: int| 0 <= k < rest.len() implies (#[trigger] rest[k]).name@
        != entries[0].name@ by {
        assert(rest[k] == entries[k + 1]);
        lemma_precedes_total(entries[0].name@, entries[k + 1].name@);
    }
    lemma_position_absent(rest, entries[0].name@);
}

/// In a list in order, a name with a position is the first one or comes behind it.
proof fn lemma_first_comes_first(entries: Seq<IconPosition>, name: Seq<char>)
    requires
        in_order(entries),
        position_in(entries, name) is Some,
    ensures
        entries.len() > 0,
        entries[0].name@ == name || precedes(entries[0].name@, name),
{
    if forall|k: int| 0 <= k < entries.len() ==> (#[trigger] entries[k]).name@ != name {
        lemma_position_absent(entries, name);
    } else {
        let k = choose|k: int| 0 <= k < entries.len() && (#[trigger] entries[k]).name@ == name;
        assert(k > 0 ==> precedes(entries[0].name@, entries[k].name@));
    }
}

/// Two lists in the order of their names that give every name the same position hold the
/// same entries.
pub proof fn law_same_positions_same_entries(a: Seq<IconPosition>, b: Seq<IconPosition>)
    requires
        in_order(a),
        in_order(b),
        forall|name: Seq<char>| #[trigger] position_in(a, name) == position_in(b, name),
    ensures
        same_entries(a, b),
    decreases a.len(),
{
    if a.len() == 0 {
        if b.len() > 0 {
            assert(position_in(a, b[0].name@) is None);
        }
    } else {
        assert(position_in(a, a[0].name@) == position_in(b, a[0].name@));
        lemma_first_comes_first(b, a[0].name@);
        assert(position_in(a, b[0].name@) == position_in(b, b[0].name@));
        lemma_first_comes_first(a, b[0].name@);
        lemma_precedes_total(a[0].name@, b[0].name@);
        let rest = a.drop_first();
        let others = b.drop_first();
        lemma_rest_in_order(a);
        lemma_rest_in_order(b);
        assert forall|name: Seq<char>| #[trigger]
            position_in(rest, name) == position_in(others, name) by {
            assert(position_in(a, name) == position_in(b, name));
        }
        law_same_positions_same_entries(rest, others);
        assert forall|i: int| 0 <= i < a.len() implies (#[trigger] a[i]).name@ == (
        #[trigger] b[i]).name@ && a[i].at == b[i].at by {
            if i > 0 {
                assert(rest[i - 1] == a[i]);
                assert(others[i - 1] == b[i]);
            }
        }
    }
}

/// Lists that hold the same entries give every name the same position.
proof fn lemma_same_entries_same_position(
    a: Seq<IconPosition>,
    b: Seq<IconPosition>,
    name: Seq<char>,
)
    requires
        same_entries(a, b),
    ensures
        position_in(a, name) == position_in(b, name),
    decreases a.len(),
{
    if a.len() > 0 {
        let rest = a.drop_first();
        let others = b.drop_first();
        assert forall|i: int| 0 <= i < rest.len() implies (#[trigger] rest[i]).name@ == (
        #[trigger] others[i]).name@ && rest[i].at == others[i].at by {
            assert(rest[i] == a[i + 1]);
            assert(others[i] == b[i + 1]);
        }
        assert(a[0].name@ == b[0].name@ && a[0].at == b[0].at);
        lemma_same_entries_same_position(rest, others, name);
    }
}

/// Whether two maps give every name the same position.
pub open spec fn same_positions(a: IconMap, b: IconMap) -> bool {
    forall|name: Seq<char>| #[trigger] a.position(name) == b.position(name)
}

impl PartialEq for IconMap {
    /// Two maps are equal where every name has the same position in both, whatever the
    /// order was in which the icons were placed.
    fn eq(&self, other: &Self) -> (r: bool) {
        proof {
            use_type_invariant(self);
            use_type_invariant(other);
            if same_positions(*self, *other) {
                assert forall|name: Seq<char>| #[trigger]
                    position_in(self.entries@, name) == position_in(other.entries@, name) by {
                    assert(self.position(name) == other.position(name));
                }
                law_same_positions_same_entries(self.entries@, other.entries@);
            }
        }
        if self.entries.len() != other.entries.len() {
            return false;
        }
        let mut i: usize = 0;
        while i < self.entries.len()
            invariant
                i <= self.entries@.len(),
                self.entries@.len() == other.entries@.len(),
                same_positions(*self, *other) ==> same_entries(self.entries@, other.entries@),
                forall|k: int|
                    0 <= k < i ==> (#[trigger] self.entries@[k]).name@ == (
                    #[trigger] other.entries@[k]).name@ && self.entries@[k].at
                        == other.entries@[k].at,
            decreases self.entries@.len() - i,
        {
            let a = &self.entries[i];
            let b = &other.entries[i];
            if a.at != b.at || !same_text(a.name.as_str(), b.name.as_str()) {
                return false;
            }
            i = i + 1;
        }
        proof {
            assert forall|name: Seq<char>| #[trigger]
                self.position(name) == other.position(name) by {
                lemma_same_entries_same_position(self.entries@, other.entries@, name);
            }
        }
        true
    }
}

impl vstd::std_specs::cmp::PartialEqSpecImpl for IconMap {
    open spec fn obeys_eq_spec() -> bool {
        true
    }

    open spec fn eq_spec(&self, other: &Self) -> bool {
        same_positions(*self, *other)
    }
}

impl Clone for IconMap {
    fn clone(&self) -> (r: Self)
        ensures
            same_positions(r, *self),
            r.count() == self.count(),
            r.listed() == self.listed(),
    {
        proof {
            use_type_invariant(self);
        }
        let mut entries: Vec<IconPosition> = Vec::new();
        let mut i: usize = 0;
        while i < self.entries.len()
            invariant
                i <= self.entries@.len(),
                self.names_in_order(),
                entries@ == self.entries@.take(i as int),
            decreases self.entries@.len() - i,
        {
            let entry = &self.entries[i];
            entries.push(IconPosition { name: entry.name.clone(), at: entry.at });
            i = i + 1;
            assert(self.entries@.take(i as int) =~= self.entries@.take(i - 1).push(
                self.entries@[i - 1],
            ));
        }
        assert(entries@ =~= self.entries@);
        IconMap { entries }
    }
}

impl Default for IconMap {
    fn default() -> (r: Self)
        ensures
            forall|name: Seq<char>| r.position(name) is None,
            r.count() == 0,
    {
        Self::new()
    }
}

/// A saved icon layout, with the monitors that it belongs to.
#[derive(Debug, PartialEq, Eq)]
pub struct IconLayoutProfile {
    pub id: String,
    pub name: String,
    pub topology_fingerprint: String,
    pub icon_positions: IconMap,
}

/// Whether two profiles are the same in every respect.
pub open spec fn same_profile(a: IconLayoutProfile, b: IconLayoutProfile) -> bool {
    &&& a.id == b.id
    &&& a.name == b.name
    &&& a.topology_fingerprint == b.topology_fingerprint
    &&& a.icon_positions.count() == b.icon_positions.count()
    &&& same_positions(a.icon_positions, b.icon_positions)
}

impl Clone for IconLayoutProfile {
    fn clone(&self) -> (r: Self)
        ensures
            same_profile(r, *self),
    {
        IconLayoutProfile {
            id: self.id.clone(),
            name: self.name.clone(),
            topology_fingerprint: self.topology_fingerprint.clone(),
            icon_positions: self.icon_positions.clone(),
        }
    }
}

// ---------------------------------------------------------------------------
// The configuration
// ---------------------------------------------------------------------------

/// The configuration of the application.
#[derive(Debug, PartialEq, Eq)]
pub struct AppConfig {
    /// The modules that are started with the application, in order.
    pub auto_start_modules: Vec<String>,
    /// The keywords of the popup blocker.
    pub popup_blacklist: Vec<String>,
    /// Whether the application starts with the system.
    pub auto_start_windows: bool,
    /// Whether closing the window leaves the application in the tray.
    pub minimize_to_tray: bool,
    /// Where terminal logs go; the default where it is not given.
    pub terminal_log_dir: Option<String>,
    /// The shells whose sessions are logged.
    pub enabled_shells: Vec<String>,
    /// Settings of single modules.
    pub module_custom_params: HashMap<String, String>,
}

/// The modules that are started with the application by default.
pub open spec fn default_modules() -> Seq<Seq<char>> {
    seq!["popup_blocker"@]
}

/// The keywords of the popup blocker by default.
pub open spec fn default_keywords() -> Seq<Seq<char>> {
    seq!["广告"@, "Flash Helper Service"@, "Update Notice"@, "推广弹窗"@]
}

/// The shells whose sessions are logged by default.
pub open spec fn default_shells() -> Seq<Seq<char>> {
    seq!["powershell"@, "cmd"@, "bash"@]
}

/// Whether two configurations are the same in every field.
pub open spec fn same_config(a: AppConfig, b: AppConfig) -> bool {
    &&& a.auto_start_modules@ == b.auto_start_modules@
    &&& a.popup_blacklist@ == b.popup_blacklist@
    &&& a.auto_start_windows == b.auto_start_windows
    &&& a.minimize_to_tray == b.minimize_to_tray
    &&& a.terminal_log_dir == b.terminal_log_dir
    &&& a.enabled_shells@ == b.enabled_shells@
    &&& a.module_custom_params@ == b.module_custom_params@
}

impl Clone for AppConfig {
    fn clone(&self) -> (r: Self)
        ensures
            same_config(r, *self),
    {
        AppConfig {
            auto_start_modules: copy_texts(self.auto_start_modules.as_slice()),
            popup_blacklist: copy_texts(self.popup_blacklist.as_slice()),
            auto_start_windows: self.auto_start_windows,
            minimize_to_tray: self.minimize_to_tray,
            terminal_log_dir: match &self.terminal_log_dir {
                Some(dir) => Some(dir.clone()),
                None => None,
            },
            enabled_shells: copy_texts(self.enabled_shells.as_slice()),
            module_custom_params: self.module_custom_params.clone(),
        }
    }
}

impl AppConfig {
    /// The popup blocker alone.
    pub fn default_auto_start_modules() -> (r: Vec<String>)
        ensures
            texts(r@) == default_modules(),
    {
        let mut r: Vec<String> = Vec::new();
        r.push("popup_blocker".to_owned());
        assert(texts(r@) =~= default_modules());
        r
    }

    /// Keywords of common advertisements.
    pub fn default_popup_blacklist() -> (r: Vec<String>)
        ensures
            texts(r@) == default_keywords(),
    {
        let mut r: Vec<String> = Vec::new();
        r.push("广告".to_owned());
        r.push("Flash Helper Service".to_owned());
        r.push("Update Notice".to_owned());
        r.push("推广弹窗".to_owned());
        assert(texts(r@) =~= default_keywords());
        r
    }

    /// The application does not start with the system unless it is told to.
    pub fn default_auto_start_windows() -> (r: bool)
        ensures
            !r,
    {
        false
    }

    /// Closing the window leaves the application in the tray.
    pub fn default_minimize_to_tray() -> (r: bool)
        ensures
            r,
    {
        true
    }

    /// No directory is given.
    pub fn default_terminal_log_dir() -> (r: Option<String>)
        ensures
            r is None,
    {
        None
    }

    /// The usual shells.
    pub fn default_enabled_shells() -> (r: Vec<String>)
        ensures
            texts(r@) == default_shells(),
    {
        let mut r: Vec<String> = Vec::new();
        r.push("powershell".to_owned());
        r.push("cmd".to_owned());
        r.push("bash".to_owned());
        assert(texts(r@) =~= default_shells());
        r
    }

    /// The directory of terminal logs as it is configured.
    pub open spec fn terminal_log_path(self) -> Seq<char> {
        match self.terminal_log_dir {
            Some(dir) => dir@,
            None => DEFAULT_TERMINAL_LOG_DIR@,
        }
    }

    /// The directory of terminal logs as it is configured.
    pub fn terminal_log_sub_path(&self) -> (r: &str)
        ensures
            r@ == self.terminal_log_path(),
    {
        match &self.terminal_log_dir {
            Some(dir) => dir.as_str(),
            None => DEFAULT_TERMINAL_LOG_DIR,
        }
    }

    /// Where terminal logs go, as [`resolve_app_path`] places the configured directory.
    pub fn effective_terminal_log_dir(&self, exe_dir: Option<&str>) -> (r: String)
        ensures
            placed(exe_dir, self.terminal_log_path(), r@),
            self.terminal_log_dir is None ==> beside(exe_dir, DEFAULT_TERMINAL_LOG_DIR@, r@),
    {
        proof {
            reveal_strlit("logs/terminals");
        }
        resolve_app_path(self.terminal_log_sub_path(), exe_dir)
    }

    /// Whether this is the configuration of a first start.
    pub open spec fn is_default(self) -> bool {
        &&& texts(self.auto_start_modules@) == default_modules()
        &&& texts(self.popup_blacklist@) == default_keywords()
        &&& !self.auto_start_windows
        &&& self.minimize_to_tray
        &&& self.terminal_log_dir is None
        &&& texts(self.enabled_shells@) == default_shells()
        &&& self.module_custom_params@ == Map::<String, String>::empty()
    }
}

impl Default for AppConfig {
    fn default() -> (r: Self)
        ensures
            r.is_default(),
    {
        AppConfig {
            auto_start_modules: Self::default_auto_start_modules(),
            popup_blacklist: Self::default_popup_blacklist(),
            auto_start_windows: Self::default_auto_start_windows(),
            minimize_to_tray: Self::default_minimize_to_tray(),
            terminal_log_dir: Self::default_terminal_log_dir(),
            enabled_shells: Self::default_enabled_shells(),
            module_custom_params: HashMap::new(),
        }
    }
}

// ---------------------------------------------------------------------------
// The fields of the file
// ---------------------------------------------------------------------------

/// The fields that a configuration file gives. A file of an earlier version lacks
/// some.
#[derive(Debug, PartialEq, Eq)]
pub struct ConfigFields {
    pub auto_start_modules: Option<Vec<String>>,
    pub popup_blacklist: Option<Vec<String>>,
    pub auto_start_windows: Option<bool>,
    pub minimize_to_tray: Option<bool>,
    pub terminal_log_dir: Option<String>,
    pub enabled_shells: Option<Vec<String>>,
    pub module_custom_params: Option<HashMap<String, String>>,
}

/// Whether `config` has what `fields` give, and the default for each field that they
/// lack.
pub open spec fn completes(config: AppConfig, fields: ConfigFields) -> bool {
    &&& match fields.auto_start_modules {
        Some(given) => config.auto_start_modules == given,
        None => texts(config.auto_start_modules@) == default_modules(),
    }
    &&& match fields.popup_blacklist {
        Some(given) => config.popup_blacklist == given,
        None => texts(config.popup_blacklist@) == default_keywords(),
    }
    &&& config.auto_start_windows == (match fields.auto_start_windows {
        Some(given) => given,
        None => false,
    })
    &&& config.minimize_to_tray == (match fields.minimize_to_tray {
        Some(given) => given,
        None => true,
    })
    &&& config.terminal_log_dir == fields.terminal_log_dir
    &&& match fields.enabled_shells {
        Some(given) => config.enabled_shells == given,
        None => texts(config.enabled_shells@) == default_shells(),
    }
    &&& match fields.module_custom_params {
        Some(given) => config.module_custom_params == given,
        None => config.module_custom_params@ == Map::<String, String>::empty(),
    }
}

/// The fields of a configuration that are written into the file: all, but for a
/// directory that is not given.
pub open spec fn written_fields(config: AppConfig) -> ConfigFields {
    ConfigFields {
        auto_start_modules: Some(config.auto_start_modules),
        popup_blacklist: Some(config.popup_blacklist),
        auto_start_windows: Some(config.auto_start_windows),
        minimize_to_tray: Some(config.minimize_to_tray),
        terminal_log_dir: config.terminal_log_dir,
        enabled_shells: Some(config.enabled_shells),
        module_custom_params: Some(config.module_custom_params),
    }
}

impl ConfigFields {
    /// The fields of a configuration that are written into the file.
    pub fn written(config: AppConfig) -> (r: Self)
        ensures
            r == written_fields(config),
    {
        ConfigFields {
            auto_start_modules: Some(config.auto_start_modules),
            popup_blacklist: Some(config.popup_blacklist),
            auto_start_windows: Some(config.auto_start_windows),
            minimize_to_tray: Some(config.minimize_to_tray),
            terminal_log_dir: config.terminal_log_dir,
            enabled_shells: Some(config.enabled_shells),
            module_custom_params: Some(config.module_custom_params),
        }
    }

    /// The configuration of a file with these fields; those that it lacks have their
    /// defaults.
    pub fn complete(self) -> (r: AppConfig)
        ensures
            completes(r, self),
    {
        AppConfig {
            auto_start_modules: match self.auto_start_modules {
                Some(given) => given,
                None => AppConfig::default_auto_start_modules(),
            },
            popup_blacklist: match self.popup_blacklist {
                Some(given) => given,
                None => AppConfig::default_popup_blacklist(),
            },
            auto_start_windows: match self.auto_start_windows {
                Some(given) => given,
                None => AppConfig::default_auto_start_windows(),
            },
            minimize_to_tray: match self.minimize_to_tray {
                Some(given) => given,
                None => AppConfig::default_minimize_to_tray(),
            },
            terminal_log_dir: match self.terminal_log_dir {
                Some(given) => Some(given),
                None => AppConfig::default_terminal_log_dir(),
            },
            enabled_shells: match self.enabled_shells {
                Some(given) => given,
                None => AppConfig::default_enabled_shells(),
            },
            module_custom_params: match self.module_custom_params {
                Some(given) => given,
                None => HashMap::new(),
            },
        }
    }
}

/// What is read back from the fields that were written is the configuration that was
/// saved.
pub proof fn law_configuration_is_read_back(saved: AppConfig, loaded: AppConfig)
    requires
        completes(loaded, written_fields(saved)),
    ensures
        loaded == saved,
{
}

/// A file without any field gives the configuration of a first start.
pub proof fn law_empty_file_gives_the_defaults(fields: ConfigFields, loaded: AppConfig)
    requires
        fields.auto_start_modules is None,
        fields.popup_blacklist is None,
        fields.auto_start_windows is None,
        fields.minimize_to_tray is None,
        fields.terminal_log_dir is None,
        fields.enabled_shells is None,
        fields.module_custom_params is None,
        completes(loaded, fields),
    ensures
        loaded.is_default(),
{
}

// ---------------------------------------------------------------------------
// Errors
// ---------------------------------------------------------------------------

/// Why the configuration could not be loaded or saved.
#[derive(Debug, PartialEq, Eq)]
pub enum ConfigError {
    /// A file or directory could not be accessed.
    Io { path: String, source: String },
    /// The file is no configuration.
    Parse { path: String, source: String },
    /// The configuration could not be written as text.
    Serialize { path: String, source: String },
}

impl ConfigError {
    /// What the user is told.
    pub open spec fn text(self) -> Seq<char> {
        match self {
            ConfigError::Io { path, source } => "配置文件 '"@ + path@ + "' 访问失败: "@ + source@,
            ConfigError::Parse { path, source } => "配置文件 '"@ + path@ + "' 解析失败: "@
                + source@,
            ConfigError::Serialize { path, source } => "配置序列化失败（目标 '"@ + path@
                + "'）: "@ + source@,
        }
    }

    /// What the user is told.
    pub fn to_string(&self) -> (r: String)
        ensures
            r@ == self.text(),
    {
        match self {
            ConfigError::Io { path, source } => {
                let mut r = "配置文件 '".to_owned();
                r.append(path.as_str());
                r.append("' 访问失败: ");
                r.append(source.as_str());
                r
            },
            ConfigError::Parse { path, source } => {
                let mut r = "配置文件 '".to_owned();
                r.append(path.as_str());
                r.append("' 解析失败: ");
                r.append(source.as_str());
                r
            },
            ConfigError::Serialize { path, source } => {
                let mut r = "配置序列化失败（目标 '".to_owned();
                r.append(path.as_str());
                r.append("'）: ");
                r.append(source.as_str());
                r
            },
        }
    }
}

// ---------------------------------------------------------------------------
// Loading and saving
// ---------------------------------------------------------------------------

/// What came of reading the configuration file.
pub enum ReadOutcome {
    /// It was read, and its text is this configuration or none for this reason.
    Content(Result<AppConfig, String>),
    /// There is no such file.
    Missing,
    /// It could not be read, for this reason.
    Failed(String),
}

/// What a load comes to.
pub struct LoadOutcome {
    pub config: Result<AppConfig, ConfigError>,
    /// Whether the configuration is to be saved at once, as on a first start.
    pub save: bool,
}

/// A step of saving. The new text first goes into a temporary file beside the old
/// one, which then takes its place.
#[derive(Debug, Clone, Copy, PartialEq, Eq, Structural)]
pub enum SaveStage {
    /// Create the directory of the file.
    CreateDir,
    /// Write the text into the temporary file.
    WriteTemp,
    /// Let the temporary file take the place of the file.
    Replace,
    /// Remove the temporary file.
    DiscardTemp,
    /// The file holds the new text.
    Saved,
    /// The file holds what it held before.
    Failed,
}

/// The stage that follows `stage` when it succeeded or not.
pub open spec fn next_stage(stage: SaveStage, ok: bool) -> SaveStage {
    match stage {
        SaveStage::CreateDir => if ok {
            SaveStage::WriteTemp
        } else {
            SaveStage::Failed
        },
        SaveStage::WriteTemp => if ok {
            SaveStage::Replace
        } else {
            SaveStage::Failed
        },
        SaveStage::Replace => if ok {
            SaveStage::Saved
        } else {
            SaveStage::DiscardTemp
        },
        SaveStage::DiscardTemp => SaveStage::Failed,
        SaveStage::Saved => SaveStage::Saved,
        SaveStage::Failed => SaveStage::Failed,
    }
}

impl SaveStage {
    /// The stage that follows this one when it succeeded or not.
    pub fn advance(self, ok: bool) -> (r: SaveStage)
        ensures
            r == next_stage(self, ok),
    {
        match self {
            SaveStage::CreateDir => {
                if ok {
                    SaveStage::WriteTemp
                } else {
                    SaveStage::Failed
                }
            },
            SaveStage::WriteTemp => {
                if ok {
                    SaveStage::Replace
                } else {
                    SaveStage::Failed
                }
            },
            SaveStage::Replace => {
                if ok {
                    SaveStage::Saved
                } else {
                    SaveStage::DiscardTemp
                }
            },
            SaveStage::DiscardTemp => SaveStage::Failed,
            SaveStage::Saved => SaveStage::Saved,
            SaveStage::Failed => SaveStage::Failed,
        }
    }
}

/// The name of the temporary file beside a file of this name.
pub fn tmp_file_name(file_name: &str) -> (r: String)
    ensures
        r@ == file_name@ + ".tmp"@,
{
    let mut r = file_name.to_owned();
    r.append(".tmp");
    r
}

/// Whether reading the file at `path` leads to `r`.
pub open spec fn loads(path: Seq<char>, read: ReadOutcome, r: LoadOutcome) -> bool {
    &&& r.save == (read is Missing)
    &&& match read {
        ReadOutcome::Content(Ok(config)) => r.config == Ok::<AppConfig, ConfigError>(config),
        ReadOutcome::Content(Err(source)) => r.config matches Err(
            ConfigError::Parse { path: p, source: s },
        ) && p@ == path && s == source,
        ReadOutcome::Missing => r.config matches Ok(config) && config.is_default(),
        ReadOutcome::Failed(source) => r.config matches Err(
            ConfigError::Io { path: p, source: s },
        ) && p@ == path && s == source,
    }
}

/// The first stage of saving a file with a directory to create or without one.
pub open spec fn first_stage(has_parent: bool) -> SaveStage {
    if has_parent {
        SaveStage::CreateDir
    } else {
        SaveStage::WriteTemp
    }
}

/// The configuration file.
pub struct ConfigManager {
    file_path: String,
}

impl ConfigManager {
    /// The path of the file.
    pub closed spec fn path_text(&self) -> Seq<char> {
        self.file_path@
    }

    /// The configuration in the file at `path`.
    pub fn new(path: &str) -> (r: Self)
        ensures
            r.path_text() == path@,
    {
        ConfigManager { file_path: path.to_owned() }
    }

    /// The configuration in its usual place, as [`resolve_app_path`] finds it.
    pub fn beside_exe(exe_dir: Option<&str>) -> (r: Self)
        ensures
            beside(exe_dir, DEFAULT_CONFIG_PATH@, r.path_text()),
    {
        proof {
            reveal_strlit("config/tltoolbox.toml");
        }
        ConfigManager { file_path: resolve_app_path(DEFAULT_CONFIG_PATH, exe_dir) }
    }

    /// The path of the file.
    pub fn path(&self) -> (r: &str)
        ensures
            r@ == self.path_text(),
    {
        self.file_path.as_str()
    }

    /// The path of the temporary file through which the file is written, which lies beside
    /// it.
    pub fn tmp_path(&self) -> (r: String)
        ensures
            clear_name(self.path_text()) && plain_directory(self.path_text()) ==> is_sibling(
                self.path_text(),
                last_piece(self.path_text()) + ".tmp"@,
                r@,
            ),
    {
        let name = match paths::file_name(self.file_path.as_str()) {
            Some(name) => tmp_file_name(name.as_str()),
            None => tmp_file_name(""),
        };
        proof {
            let path = self.file_path@;
            if clear_name(path) {
                reveal_strlit(".tmp");
                assert forall|old: Seq<char>| #[trigger] is_final(path, old) implies old
                    == last_piece(path) by {
                    lemma_clear_name(path, old);
                }
                lemma_bare_name_grows(last_piece(path), ".tmp"@);
            }
        }
        paths::with_file_name(self.file_path.as_str(), name.as_str())
    }

    /// Settles a load. Without a file the defaults are taken and saved; a file that is
    /// no configuration is reported and left as it is.
    pub fn load(&self, read: ReadOutcome) -> (r: LoadOutcome)
        ensures
            loads(self.path_text(), read, r),
    {
        match read {
            ReadOutcome::Content(Ok(config)) => LoadOutcome { config: Ok(config), save: false },
            ReadOutcome::Content(Err(source)) => LoadOutcome {
                config: Err(ConfigError::Parse { path: self.file_path.clone(), source }),
                save: false,
            },
            ReadOutcome::Missing => LoadOutcome { config: Ok(AppConfig::default()), save: true },
            ReadOutcome::Failed(source) => LoadOutcome {
                config: Err(ConfigError::Io { path: self.file_path.clone(), source }),
                save: false,
            },
        }
    }

    /// The first stage of saving: the directory, where the file has one; or the error
    /// where the configuration could not be written as text.
    pub fn begin_save(&self, serialized: Result<(), String>, has_parent: bool) -> (r: Result<
        SaveStage,
        ConfigError,
    >)
        ensures
            match serialized {
                Ok(_) => r == Ok::<SaveStage, ConfigError>(first_stage(has_parent)),
                Err(source) => r matches Err(ConfigError::Serialize { path, source: s }) && path@
                    == self.path_text() && s == source,
            },
    {
        match serialized {
            Ok(_) => {
                if has_parent {
                    Ok(SaveStage::CreateDir)
                } else {
                    Ok(SaveStage::WriteTemp)
                }
            },
            Err(source) => Err(ConfigError::Serialize { path: self.file_path.clone(), source }),
        }
    }

    /// The error of a stage that failed. It names the directory, the temporary file or
    /// the file itself.
    pub fn save_error(&self, stage: SaveStage, parent: &str, temp: &str, source: String) -> (r:
        ConfigError)
        ensures
            r matches ConfigError::Io { path, source: s } && s == source && path@ == (match stage {
                SaveStage::CreateDir => parent@,
                SaveStage::WriteTemp => temp@,
                _ => self.path_text(),
            }),
    {
        let path = match stage {
            SaveStage::CreateDir => parent.to_owned(),
            SaveStage::WriteTemp => temp.to_owned(),
            _ => self.file_path.clone(),
        };
        ConfigError::Io { path, source }
    }
}

// ---------------------------------------------------------------------------
// Laws
// ---------------------------------------------------------------------------

/// What the file and the temporary file beside it hold.
pub struct Disk {
    pub file: Option<Seq<char>>,
    pub temp: Option<Seq<char>>,
}

/// What a stage does to the disk when it succeeded or not. Only a replacement touches
/// the file, and it happens as a whole or not at all; a write that fails, and a
/// removal, may leave anything in the temporary file.
pub open spec fn after_stage(
    stage: SaveStage,
    ok: bool,
    text: Seq<char>,
    left_over: Option<Seq<char>>,
    disk: Disk,
) -> Disk {
    match stage {
        SaveStage::WriteTemp => Disk {
            file: disk.file,
            temp: if ok {
                Some(text)
            } else {
                left_over
            },
        },
        SaveStage::Replace => if ok {
            Disk { file: disk.temp, temp: None }
        } else {
            disk
        },
        SaveStage::DiscardTemp => Disk { file: disk.file, temp: left_over },
        _ => disk,
    }
}

/// The stage that saving has reached after `steps`, which tell of each stage whether
/// it succeeded and what it left in the temporary file.
pub open spec fn stage_after(first: SaveStage, steps: Seq<(bool, Option<Seq<char>>)>) -> SaveStage
    decreases steps.len(),
{
    if steps.len() == 0 {
        first
    } else {
        next_stage(stage_after(first, steps.drop_last()), steps.last().0)
    }
}

/// What the disk holds after `steps`.
pub open spec fn disk_after(
    first: SaveStage,
    steps: Seq<(bool, Option<Seq<char>>)>,
    text: Seq<char>,
    disk: Disk,
) -> Disk
    decreases steps.len(),
{
    if steps.len() == 0 {
        disk
    } else {
        after_stage(
            stage_after(first, steps.drop_last()),
            steps.last().0,
            text,
            steps.last().1,
            disk_after(first, steps.drop_last(), text, disk),
        )
    }
}

/// Whatever fails, and wherever saving stops, the file holds the whole of the old text
/// or the whole of the new one; and it holds the new one if and only if saving
/// succeeded.
pub proof fn law_saving_is_all_or_nothing(
    first: SaveStage,
    steps: Seq<(bool, Option<Seq<char>>)>,
    text: Seq<char>,
    disk: Disk,
)
    requires
        first is CreateDir || first is WriteTemp,
    ensures
        disk_after(first, steps, text, disk).file == (if stage_after(first, steps) is Saved {
            Some(text)
        } else {
            disk.file
        }),
{
    lemma_saving(first, steps, text, disk);
}

proof fn lemma_saving(
    first: SaveStage,
    steps: Seq<(bool, Option<Seq<char>>)>,
    text: Seq<char>,
    disk: Disk,
)
    requires
        first is CreateDir || first is WriteTemp,
    ensures
        ({
            let stage = stage_after(first, steps);
            let now = disk_after(first, steps, text, disk);
            &&& stage is Saved ==> now.file == Some(text)
            &&& !(stage is Saved) ==> now.file == disk.file
            &&& stage is Replace ==> now.temp == Some(text)
        }),
    decreases steps.len(),
{
    if steps.len() > 0 {
        lemma_saving(first, steps.drop_last(), text, disk);
    }
}

/// A save is through after at most four stages, whatever fails.
pub proof fn law_saving_ends(first: SaveStage, steps: Seq<(bool, Option<Seq<char>>)>)
    requires
        first is CreateDir || first is WriteTemp,
        steps.len() >= 4,
    ensures
        stage_after(first, steps) is Saved || stage_after(first, steps) is Failed,
{
    lemma_stages_left(first, steps);
}

/// How many stages are still to come at most.
pub open spec fn stages_left(stage: SaveStage) -> nat {
    match stage {
        SaveStage::CreateDir => 4,
        SaveStage::WriteTemp => 3,
        SaveStage::Replace => 2,
        SaveStage::DiscardTemp => 1,
        SaveStage::Saved => 0,
        SaveStage::Failed => 0,
    }
}

proof fn lemma_stages_left(first: SaveStage, steps: Seq<(bool, Option<Seq<char>>)>)
    ensures
        stages_left(stage_after(first, steps)) + steps.len() <= 4 || stages_left(
            stage_after(first, steps),
        ) == 0,
    decreases steps.len(),
{
    if steps.len() > 0 {
        lemma_stages_left(first, steps.drop_last());
    }
}

/// A file that is there is never overwritten by loading it, be it good, broken or
/// unreadable: the defaults are saved only where there is none. What a good file says is
/// taken as it is, and a broken or unreadable one is reported, not replaced.
pub proof fn law_loading_spares_the_file(path: Seq<char>, read: ReadOutcome, r: LoadOutcome)
    requires
        loads(path, read, r),
    ensures
        r.save <==> read is Missing,
        r.config is Ok <==> read is Missing || (read matches ReadOutcome::Content(Ok(_))),
        read matches ReadOutcome::Content(Ok(config)) ==> r.config->Ok_0 == config,
        read is Missing ==> r.config->Ok_0.is_default(),
        r.config matches Err(ConfigError::Parse { path: p, source }) ==> read
            == ReadOutcome::Content(Err(source)) && p@ == path,
        r.config matches Err(ConfigError::Io { path: p, source }) ==> read
            == ReadOutcome::Failed(source) && p@ == path,
        !(r.config matches Err(ConfigError::Serialize { .. })),
{
}

/// A field that the file has counts, whatever it says; only the others have their
/// defaults.
pub proof fn law_given_fields_count(config: AppConfig, fields: ConfigFields)
    requires
        completes(config, fields),
    ensures
        fields.auto_start_modules matches Some(given) ==> config.auto_start_modules@ == given@,
        fields.popup_blacklist matches Some(given) ==> config.popup_blacklist@ == given@,
        fields.auto_start_windows matches Some(given) ==> config.auto_start_windows == given,
        fields.minimize_to_tray matches Some(given) ==> config.minimize_to_tray == given,
        fields.terminal_log_dir matches Some(given) ==> config.terminal_log_dir == Some(given),
        fields.enabled_shells matches Some(given) ==> config.enabled_shells@ == given@,
        fields.module_custom_params matches Some(given) ==> config.module_custom_params@ == given@,
        fields.auto_start_windows is None ==> !config.auto_start_windows,
        fields.minimize_to_tray is None ==> config.minimize_to_tray,
        fields.terminal_log_dir is None ==> config.terminal_log_dir is None,
{
}

/// Saving goes through wherever every stage succeeds, and fails wherever one does not.
pub proof fn law_saving_succeeds_if_every_stage_does(
    has_parent: bool,
    left: Seq<Option<Seq<char>>>,
    ok: Seq<bool>,
)
    requires
        left.len() == 3,
        ok.len() == 3,
    ensures
        ({
            let steps = Seq::new(3, |i: int| (ok[i], left[i]));
            let first = first_stage(has_parent);
            &&& has_parent ==> (stage_after(first, steps) is Saved <==> ok[0] && ok[1] && ok[2])
            &&& !has_parent ==> (stage_after(first, steps.take(2)) is Saved <==> ok[0] && ok[1])
        }),
{
    let steps = Seq::new(3, |i: int| (ok[i], left[i]));
    reveal_with_fuel(stage_after, 4);
    assert(steps.drop_last() =~= steps.take(2));
    assert(steps.take(2).drop_last() =~= steps.take(1));
    assert(steps.take(1).drop_last() =~= steps.take(0));
    assert(steps.take(2).last() == steps[1] && steps.take(1).last() == steps[0]);
}

/// Two maps are the same where no name tells them apart, two layouts where they agree in
/// their id, name, monitors and icons, and two configurations where they agree in every
/// field.
pub proof fn law_what_is_the_same(
    a: IconMap,
    b: IconMap,
    name: Seq<char>,
    p: IconLayoutProfile,
    q: IconLayoutProfile,
    x: AppConfig,
    y: AppConfig,
)
    ensures
        same_positions(a, b) ==> a.position(name) == b.position(name),
        a.position(name) != b.position(name) ==> !same_positions(a, b),
        same_positions(a, a),
        same_profile(p, q) ==> p.id@ == q.id@ && p.name@ == q.name@ && p.topology_fingerprint@
            == q.topology_fingerprint@ && p.icon_positions.position(name)
            == q.icon_positions.position(name) && p.icon_positions.count()
            == q.icon_positions.count(),
        same_config(x, y) ==> texts(x.auto_start_modules@) == texts(y.auto_start_modules@)
            && texts(x.popup_blacklist@) == texts(y.popup_blacklist@) && x.auto_start_windows
            == y.auto_start_windows && x.minimize_to_tray == y.minimize_to_tray
            && x.terminal_log_dir == y.terminal_log_dir && texts(x.enabled_shells@) == texts(
            y.enabled_shells@,
        ) && x.module_custom_params@ == y.module_custom_params@,
{
}

/// A list of strings stands for their texts, one for each and in order.
pub proof fn law_texts_one_for_each(list: Seq<String>, i: int)
    ensures
        texts(list).len() == list.len(),
        0 <= i < list.len() ==> texts(list)[i] == list[i]@,
{
}

/// Terminal logs go where the configuration says, and into their usual directory where it
/// says nothing.
pub proof fn law_terminal_logs_go_where_they_are_sent(config: AppConfig)
    ensures
        config.terminal_log_dir matches Some(dir) ==> config.terminal_log_path() == dir@,
        config.terminal_log_dir is None ==> config.terminal_log_path() == "logs/terminals"@,
{
}

/// What the user is told of a failure names the file and the whole reason.
pub proof fn law_failure_names_file_and_reason(path: String, source: String)
    ensures
        has_substring((ConfigError::Io { path, source }).text(), path@),
        has_substring((ConfigError::Io { path, source }).text(), source@),
        has_substring((ConfigError::Parse { path, source }).text(), path@),
        has_substring((ConfigError::Parse { path, source }).text(), source@),
        has_substring((ConfigError::Serialize { path, source }).text(), path@),
        has_substring((ConfigError::Serialize { path, source }).text(), source@),
{
    lemma_parts_are_found("配置文件 '"@, path@, "' 访问失败: "@, source@);
    lemma_parts_are_found("配置文件 '"@, path@, "' 解析失败: "@, source@);
    lemma_parts_are_found("配置序列化失败（目标 '"@, path@, "'）: "@, source@);
}

proof fn lemma_parts_are_found(
    first: Seq<char>,
    one: Seq<char>,
    between: Seq<char>,
    other: Seq<char>,
)
    ensures
        has_substring(first + one + between + other, one),
        has_substring(first + one + between + other, other),
{
    law_part_is_found(first, one, between + other);
    assert(first + one + (between + other) =~= first + one + between + other);
    law_part_is_found(first + one + between, other, Seq::empty());
    assert(first + one + between + other + Seq::<char>::empty() =~= first + one + between + other);
}

} // verus!
