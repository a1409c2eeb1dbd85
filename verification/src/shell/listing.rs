//! The list of modules: what is shown of them and which of them are switched.

use crate::manager::ModuleMeta;
use crate::text::same_text;
use vstd::prelude::*;

verus! {

/// Whether a module has settings of its own.
pub open spec fn has_settings(id: Seq<char>) -> bool {
    ||| id == "popup_blocker"@
    ||| id == "terminal_logger"@
    ||| id == "topmost_manager"@
    ||| id == "port_hunter"@
    ||| id == "icon_locker"@
}

/// Whether a module has settings of its own.
pub fn module_has_settings(id: &str) -> (r: bool)
    ensures
        r == has_settings(id@),
{
    same_text(id, "popup_blocker") || same_text(id, "terminal_logger") || same_text(
        id,
        "topmost_manager",
    ) || same_text(id, "port_hunter") || same_text(id, "icon_locker")
}

/// The panel that shows the settings of a module.
#[derive(Debug, Clone, Copy, PartialEq, Eq, Structural)]
pub enum SettingsPanel {
    /// The rules and captures of the popup blocker.
    PopupRules,
    TerminalLog,
    TopmostWindows,
    IconLayouts,
    Ports,
}

/// The panel that shows the settings of a module, where it has one.
pub open spec fn panel_of(id: Seq<char>) -> Option<SettingsPanel> {
    if id == "popup_blocker"@ {
        Some(SettingsPanel::PopupRules)
    } else if id == "terminal_logger"@ {
        Some(SettingsPanel::TerminalLog)
    } else if id == "topmost_manager"@ {
        Some(SettingsPanel::TopmostWindows)
    } else if id == "icon_locker"@ {
        Some(SettingsPanel::IconLayouts)
    } else if id == "port_hunter"@ {
        Some(SettingsPanel::Ports)
    } else {
        None
    }
}

/// The panel that shows the settings of a module, where it has one.
pub fn settings_panel(id: &str) -> (r: Option<SettingsPanel>)
    ensures
        r == panel_of(id@),
{
    if same_text(id, "popup_blocker") {
        Some(SettingsPanel::PopupRules)
    } else if same_text(id, "terminal_logger") {
        Some(SettingsPanel::TerminalLog)
    } else if same_text(id, "topmost_manager") {
        Some(SettingsPanel::TopmostWindows)
    } else if same_text(id, "icon_locker") {
        Some(SettingsPanel::IconLayouts)
    } else if same_text(id, "port_hunter") {
        Some(SettingsPanel::Ports)
    } else {
        None
    }
}

/// Whether a module can be switched on and off: all but the one that works on demand.
pub open spec fn toggleable(id: Seq<char>) -> bool {
    id != "port_hunter"@
}

/// Whether a module can be switched on and off.
pub fn module_is_toggleable(id: &str) -> (r: bool)
    ensures
        r == toggleable(id@),
{
    !same_text(id, "port_hunter")
}

/// One row of the list of modules.
#[derive(Debug, Clone, Copy, PartialEq, Eq)]
pub struct ModuleItem {
    pub id: &'static str,
    pub name: &'static str,
    pub desc: &'static str,
    pub enabled: bool,
    pub has_settings: bool,
    pub toggleable: bool,
}

/// The row of a module.
pub open spec fn item_of(meta: ModuleMeta) -> ModuleItem {
    ModuleItem {
        id: meta.id,
        name: meta.display_name,
        desc: meta.description,
        enabled: meta.running,
        has_settings: has_settings(meta.id@),
        toggleable: toggleable(meta.id@),
    }
}

/// The rows of the list of modules.
pub fn module_items(metas: &[ModuleMeta]) -> (r: Vec<ModuleItem>)
    ensures
        r@ == metas@.map_values(|m: ModuleMeta| item_of(m)),
{
    let mut r: Vec<ModuleItem> = Vec::new();
    let mut i: usize = 0;
    while i < metas.len()
        invariant
            i <= metas@.len(),
            r@ == metas@.take(i as int).map_values(|m: ModuleMeta| item_of(m)),
        decreases metas@.len() - i,
    {
        let meta = metas[i];
        r.push(
            ModuleItem {
                id: meta.id,
                name: meta.display_name,
                desc: meta.description,
                enabled: meta.running,
                has_settings: module_has_settings(meta.id),
                toggleable: module_is_toggleable(meta.id),
            },
        );
        i = i + 1;
        assert(r@ =~= metas@.take(i as int).map_values(|m: ModuleMeta| item_of(m)));
    }
    assert(metas@.take(i as int) =~= metas@);
    r
}

/// Whether there are modules and all of them are running.
pub open spec fn all_running(metas: Seq<ModuleMeta>) -> bool {
    metas.len() > 0 && forall|i: int| 0 <= i < metas.len() ==> (#[trigger] metas[i]).running
}

/// Whether there are modules and all of them are running.
pub fn all_modules_enabled(metas: &[ModuleMeta]) -> (r: bool)
    ensures
        r == all_running(metas@),
{
    let mut i: usize = 0;
    while i < metas.len()
        invariant
            i <= metas@.len(),
            forall|k: int| 0 <= k < i ==> (#[trigger] metas@[k]).running,
        decreases metas@.len() - i,
    {
        if !metas[i].running {
            return false;
        }
        i = i + 1;
    }
    metas.len() > 0
}

/// Whether switching all modules to `enable` switches this one.
pub open spec fn to_be_switched(enable: bool) -> spec_fn(ModuleMeta) -> bool {
    |m: ModuleMeta| toggleable(m.id@) && m.running != enable
}

/// The modules that are switched when all are to be on or off, in order: those that
/// can be switched and are not so already.
pub fn modules_to_switch(metas: &[ModuleMeta], enable: bool) -> (r: Vec<ModuleMeta>)
    ensures
        r@ == metas@.filter(to_be_switched(enable)),
{
    let mut r: Vec<ModuleMeta> = Vec::new();
    let ghost p = to_be_switched(enable);
    let mut i: usize = 0;
    assert(metas@.take(0).filter(p) =~= Seq::<ModuleMeta>::empty()) by {
        reveal(Seq::filter);
    }
    while i < metas.len()
        invariant
            i <= metas@.len(),
            p == to_be_switched(enable),
            r@ == metas@.take(i as int).filter(p),
        decreases metas@.len() - i,
    {
        proof {
            crate::seqs::lemma_filter_take(metas@, p, i as int);
        }
        if module_is_toggleable(metas[i].id) && metas[i].running != enable {
            r.push(metas[i]);
        }
        i = i + 1;
    }
    assert(metas@.take(i as int) =~= metas@);
    r
}

/// The modules that are still running, the last first.
pub open spec fn still_running(metas: Seq<ModuleMeta>) -> Seq<ModuleMeta> {
    metas.filter(|m: ModuleMeta| m.running).reverse()
}

/// The modules that are still running, the last first.
pub fn modules_to_stop(metas: &[ModuleMeta]) -> (r: Vec<ModuleMeta>)
    ensures
        r@ == still_running(metas@),
{
    let mut r: Vec<ModuleMeta> = Vec::new();
    let ghost p = |m: ModuleMeta| m.running;
    let mut i: usize = metas.len();
    let ghost all = metas@;
    assert(all.skip(all.len() as int).filter(p) =~= Seq::<ModuleMeta>::empty()) by {
        reveal(Seq::filter);
    }
    while i > 0
        invariant
            i <= metas@.len(),
            metas@ == all,
            p == (|m: ModuleMeta| m.running),
            r@ == all.skip(i as int).filter(p).reverse(),
        decreases i,
    {
        i = i - 1;
        proof {
            let rest = all.skip(i + 1);
            assert(all.skip(i as int) =~= seq![all[i as int]] + rest);
            Seq::filter_distributes_over_add(seq![all[i as int]], rest, p);
            assert(seq![all[i as int]].filter(p) =~= (if p(all[i as int]) {
                seq![all[i as int]]
            } else {
                Seq::empty()
            })) by {
                reveal(Seq::filter);
                assert(seq![all[i as int]].drop_last() =~= Seq::<ModuleMeta>::empty());
                assert(seq![all[i as int]].drop_last().filter(p) =~= Seq::<ModuleMeta>::empty());
            }
        }
        if metas[i].running {
            r.push(metas[i]);
        }
        assert(r@ =~= all.skip(i as int).filter(p).reverse());
    }
    assert(all.skip(0) =~= all);
    r
}

/// Whether `ids` has this one.
pub open spec fn lists_id(ids: Seq<String>, id: Seq<char>) -> bool {
    exists|i: int| 0 <= i < ids.len() && (#[trigger] ids[i])@ == id
}

/// Whether `ids` has this one.
fn has_id(ids: &Vec<String>, id: &str) -> (r: bool)
    ensures
        r == lists_id(ids@, id@),
{
    let mut i: usize = 0;
    while i < ids.len()
        invariant
            i <= ids@.len(),
            forall|k: int| 0 <= k < i ==> (#[trigger] ids@[k])@ != id@,
        decreases ids@.len() - i,
    {
        if same_text(ids[i].as_str(), id) {
            return true;
        }
        i = i + 1;
    }
    false
}

/// The texts of a list with one more at its end, if it is wanted and not there yet.
pub open spec fn with_id(ids: Seq<Seq<char>>, id: Seq<char>, wanted: bool) -> Seq<Seq<char>> {
    if wanted && !ids.contains(id) {
        ids.push(id)
    } else {
        ids
    }
}

/// The modules that are started with the application: those of the list, then the
/// window pinner and the icon locker where they were left on.
pub fn auto_start_ids(
    auto_start_modules: &[String],
    topmost_enabled: bool,
    icon_locker_enabled: bool,
) -> (r: Vec<String>)
    ensures
        crate::config::texts(r@) == with_id(
            with_id(
                crate::config::texts(auto_start_modules@),
                "topmost_manager"@,
                topmost_enabled,
            ),
            "icon_locker"@,
            icon_locker_enabled,
        ),
{
    let mut r: Vec<String> = Vec::new();
    let mut i: usize = 0;
    while i < auto_start_modules.len()
        invariant
            i <= auto_start_modules@.len(),
            r@ == auto_start_modules@.take(i as int),
        decreases auto_start_modules@.len() - i,
    {
        r.push(auto_start_modules[i].clone());
        i = i + 1;
        assert(r@ =~= auto_start_modules@.take(i as int));
    }
    assert(r@ =~= auto_start_modules@);
    add_id(&mut r, "topmost_manager", topmost_enabled);
    add_id(&mut r, "icon_locker", icon_locker_enabled);
    r
}

/// Adds an id at the end of a list, if it is wanted and not there yet.
fn add_id(ids: &mut Vec<String>, id: &str, wanted: bool)
    ensures
        crate::config::texts(final(ids)@) == with_id(crate::config::texts(old(ids)@), id@, wanted),
{
    let known = has_id(ids, id);
    proof {
        let list = crate::config::texts(ids@);
        if known {
            let k = choose|k: int| 0 <= k < ids@.len() && (#[trigger] ids@[k])@ == id@;
            assert(list[k] == id@);
        } else if list.contains(id@) {
            let k = choose|k: int| 0 <= k < list.len() && list[k] == id@;
            assert(ids@[k]@ == id@);
        }
    }
    if wanted && !known {
        ids.push(id.to_owned());
    }
    assert(crate::config::texts(ids@) =~= with_id(
        crate::config::texts(old(ids)@),
        id@,
        wanted,
    ));
}

// ---------------------------------------------------------------------------
// Laws
// ---------------------------------------------------------------------------

/// A module is shown with settings if and only if there is a panel for them.
pub proof fn law_settings_have_a_panel(id: Seq<char>)
    ensures
        has_settings(id) <==> panel_of(id) is Some,
{
}

/// The module that works on demand is never switched with the others.
pub proof fn law_on_demand_module_is_left_alone(metas: Seq<ModuleMeta>, enable: bool)
    ensures
        forall|i: int|
            0 <= i < metas.filter(to_be_switched(enable)).len() ==> toggleable(
                (#[trigger] metas.filter(to_be_switched(enable))[i]).id@,
            ),
{
    assert forall|i: int| 0 <= i < metas.filter(to_be_switched(enable)).len() implies toggleable(
        (#[trigger] metas.filter(to_be_switched(enable))[i]).id@,
    ) by {
        metas.lemma_filter_pred(to_be_switched(enable), i);
    }
}

/// Once every module that can be switched is as it should be, switching all changes
/// nothing.
pub proof fn law_switching_all_settles(metas: Seq<ModuleMeta>, enable: bool)
    requires
        forall|i: int|
            0 <= i < metas.len() && toggleable((#[trigger] metas[i]).id@) ==> metas[i].running
                == enable,
    ensures
        metas.filter(to_be_switched(enable)).len() == 0,
{
    let p = to_be_switched(enable);
    if metas.filter(p).len() > 0 {
        metas.lemma_filter_pred(p, 0);
        metas.lemma_filter_contains_rev(p, metas.filter(p)[0]);
        assert(metas.contains(metas.filter(p)[0]));
        let i = choose|i: int| 0 <= i < metas.len() && metas[i] == metas.filter(p)[0];
        assert(toggleable(metas[i].id@));
    }
}

/// All modules are on where there is one and none of them is off.
pub proof fn law_all_are_on(metas: Seq<ModuleMeta>, m: ModuleMeta)
    ensures
        !all_running(Seq::empty()),
        all_running(seq![m]) == m.running,
        metas.len() > 0 ==> all_running(metas.push(m)) == (all_running(metas) && m.running),
{
    assert(seq![m][0] == m);
    if metas.len() > 0 {
        if all_running(metas.push(m)) {
            assert forall|i: int| 0 <= i < metas.len() implies (#[trigger] metas[i]).running by {
                assert(metas.push(m)[i] == metas[i]);
            }
            assert(metas.push(m)[metas.len() as int] == m);
        }
    }
}

/// When the application is left every running module is stopped, the last one first.
pub proof fn law_running_modules_are_stopped(metas: Seq<ModuleMeta>, m: ModuleMeta)
    ensures
        still_running(Seq::empty()).len() == 0,
        m.running ==> still_running(metas.push(m)) == seq![m] + still_running(metas),
        !m.running ==> still_running(metas.push(m)) == still_running(metas),
{
    reveal(Seq::filter);
    let p = |m: ModuleMeta| m.running;
    assert(metas.push(m).drop_last() =~= metas);
    assert(metas.push(m).filter(p) == if p(m) {
        metas.filter(p).push(m)
    } else {
        metas.filter(p)
    });
    if m.running {
        assert(still_running(metas.push(m)) =~= seq![m] + still_running(metas));
    }
}

/// Switching all modules switches those that are not yet what is asked for, all but the one
/// that works on demand.
pub proof fn law_who_is_switched(m: ModuleMeta, enable: bool)
    ensures
        to_be_switched(enable)(m) <==> m.id@ != "port_hunter"@ && m.running != enable,
        item_of(m).enabled == m.running,
        item_of(m).toggleable <==> m.id@ != "port_hunter"@,
        item_of(m).id@ == m.id@ && item_of(m).name@ == m.display_name@ && item_of(m).desc@
            == m.description@,
        item_of(m).has_settings <==> seq![
            "popup_blocker"@,
            "terminal_logger"@,
            "topmost_manager"@,
            "port_hunter"@,
            "icon_locker"@,
        ].contains(m.id@),
{
    let ids = seq![
        "popup_blocker"@,
        "terminal_logger"@,
        "topmost_manager"@,
        "port_hunter"@,
        "icon_locker"@,
    ];
    if has_settings(m.id@) {
        assert(ids[0] == "popup_blocker"@ && ids[1] == "terminal_logger"@);
        assert(ids[2] == "topmost_manager"@ && ids[3] == "port_hunter"@);
        assert(ids[4] == "icon_locker"@);
    }
}

/// A module that was left on is started too, once, behind those of the list, which stay as
/// they are.
pub proof fn law_module_left_on_is_started(ids: Seq<Seq<char>>, id: Seq<char>, wanted: bool)
    ensures
        wanted ==> with_id(ids, id, wanted).contains(id),
        !wanted ==> with_id(ids, id, wanted) == ids,
        ids.contains(id) ==> with_id(ids, id, wanted) == ids,
        ids.is_prefix_of(with_id(ids, id, wanted)),
        with_id(ids, id, wanted).len() <= ids.len() + 1,
{
    if wanted && !ids.contains(id) {
        assert(ids.push(id)[ids.len() as int] == id);
    }
}

} // verus!
