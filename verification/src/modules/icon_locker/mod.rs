//! The icon locker: saves the layout of the desktop icons together with the monitors
//! it belongs to, and restores it when those monitors are back.

use crate::bus::{is_toast, published, toasted, AppEvent, EventBus};
use crate::config::{same_profile, IconLayoutProfile};
use crate::modules::icon_locker::daemon::{
    fingerprint, law_fingerprint_identifies_arrangement, law_fingerprint_is_not_empty, MonitorRect,
};
use crate::modules::icon_locker::explorer::DesktopLayout;
use crate::modules::{ModuleError, ToolModule};
use crate::seqs::lemma_filter_idempotent;
use crate::text::{decimal_of_signed, decimal_signed, same_text};
use vstd::prelude::*;

pub mod daemon;
pub mod explorer;

verus! {

/// Whether a layout belongs to the current monitors: it has a fingerprint, and that is
/// the current one.
pub open spec fn belongs_here(fingerprint: Seq<char>, current: Seq<char>) -> bool {
    fingerprint.len() > 0 && fingerprint == current
}

/// Whether a layout belongs to the current monitors.
pub fn profile_matches_topology(profile_fingerprint: &str, current: &str) -> (r: bool)
    ensures
        r == belongs_here(profile_fingerprint@, current@),
{
    !profile_fingerprint.is_empty() && same_text(profile_fingerprint, current)
}

/// The place of the first profile with this id.
pub open spec fn index_of(profiles: Seq<IconLayoutProfile>, id: Seq<char>) -> Option<int>
    decreases profiles.len(),
{
    if profiles.len() == 0 {
        None
    } else {
        match index_of(profiles.drop_last(), id) {
            Some(i) => Some(i),
            None => if profiles.last().id@ == id {
                Some(profiles.len() - 1)
            } else {
                None
            },
        }
    }
}

/// The place of the first profile with this id.
fn find_index(profiles: &Vec<IconLayoutProfile>, id: &str) -> (r: Option<usize>)
    ensures
        match r {
            Some(i) => index_of(profiles@, id@) == Some(i as int) && i < profiles@.len()
                && profiles@[i as int].id@ == id@,
            None => index_of(profiles@, id@) is None && forall|i: int|
                0 <= i < profiles@.len() ==> (#[trigger] profiles@[i]).id@ != id@,
        },
{
    let mut i: usize = 0;
    while i < profiles.len()
        invariant
            i <= profiles@.len(),
            index_of(profiles@.take(i as int), id@) is None,
            forall|k: int| 0 <= k < i ==> (#[trigger] profiles@[k]).id@ != id@,
        decreases profiles@.len() - i,
    {
        proof {
            assert(profiles@.take(i + 1).drop_last() =~= profiles@.take(i as int));
            assert(profiles@.take(i + 1).last() == profiles@[i as int]);
        }
        if same_text(profiles[i].id.as_str(), id) {
            proof {
                lemma_index_in_prefix(profiles@, id@, i + 1);
            }
            return Some(i);
        }
        i = i + 1;
    }
    assert(profiles@.take(i as int) =~= profiles@);
    None
}

/// A profile that is found in the front is found in the whole.
proof fn lemma_index_in_prefix(profiles: Seq<IconLayoutProfile>, id: Seq<char>, n: int)
    requires
        0 <= n <= profiles.len(),
        index_of(profiles.take(n), id) is Some,
    ensures
        index_of(profiles, id) == index_of(profiles.take(n), id),
    decreases profiles.len() - n,
{
    if n < profiles.len() {
        assert(profiles.take(n + 1).drop_last() =~= profiles.take(n));
        lemma_index_in_prefix(profiles, id, n + 1);
    } else {
        assert(profiles.take(n) =~= profiles);
    }
}

/// The place of the profile that is restored on its own: that of the active one, or
/// of the newest.
pub open spec fn restore_index(profiles: Seq<IconLayoutProfile>, active: Option<Seq<char>>) -> Option<
    int,
> {
    let preferred = match active {
        Some(id) => index_of(profiles, id),
        None => None,
    };
    if preferred is Some {
        preferred
    } else if profiles.len() > 0 {
        Some(profiles.len() - 1)
    } else {
        None
    }
}

/// The profile that `restore_index` finds is one of the profiles.
proof fn lemma_index_in_range(profiles: Seq<IconLayoutProfile>, id: Seq<char>)
    ensures
        index_of(profiles, id) matches Some(i) ==> 0 <= i < profiles.len() && profiles[i].id@ == id,
    decreases profiles.len(),
{
    if profiles.len() > 0 {
        lemma_index_in_range(profiles.drop_last(), id);
    }
}

/// What a change of the monitors leads to.
pub enum AutoRestore {
    /// There is nothing to restore.
    NoProfile,
    /// The layout belongs to other monitors; the icons stay and the user is told.
    OtherMonitors { toast: AppEvent },
    /// The layout is restored.
    Restore { profile: IconLayoutProfile },
}

/// Whether a change of the monitors to `current` leads to `r`, for these layouts and the
/// active one of them.
pub open spec fn leads_to(
    saved: Seq<IconLayoutProfile>,
    active: Option<Seq<char>>,
    current: Seq<char>,
    r: AutoRestore,
) -> bool {
    match restore_index(saved, active) {
        None => r is NoProfile,
        Some(i) => {
            let profile = saved[i];
            if belongs_here(profile.topology_fingerprint@, current) {
                r is Restore && same_profile(r->profile, profile)
            } else {
                r is OtherMonitors && is_toast(
                    r->toast,
                    other_monitors_text(profile.name@, profile.topology_fingerprint@),
                )
            }
        },
    }
}

/// Whether a change of the monitors is acted upon.
pub open spec fn acts(watching: bool, restores: bool) -> bool {
    watching && restores
}

/// The layouts that have another id than this one.
pub open spec fn other_than(id: Seq<char>) -> spec_fn(IconLayoutProfile) -> bool {
    |p: IconLayoutProfile| p.id@ != id
}

/// The active layout after the one with this id was removed, if there was one.
pub open spec fn active_without(active: Option<Seq<char>>, id: Seq<char>, known: bool) -> Option<
    Seq<char>,
> {
    if known && active == Some(id) {
        None
    } else {
        active
    }
}

/// What the user is told of a layout that was not restored.
pub open spec fn other_monitors_text(name: Seq<char>, fingerprint: Seq<char>) -> Seq<char> {
    "显示器拓扑与方案「"@ + name + "」不一致，未自动还原（方案对应 "@ + (if fingerprint.len()
        == 0 {
        "的拓扑信息缺失"@
    } else {
        "其他显示器布局"@
    }) + "）"@
}

/// The saved layouts.
pub struct IconLockerModule {
    active_run: bool,
    profiles: Vec<IconLayoutProfile>,
    active_profile: Option<String>,
    auto_restore: bool,
    bus: Option<EventBus>,
}

impl IconLockerModule {
    /// The saved layouts, in the order in which they were saved.
    pub closed spec fn saved(&self) -> Seq<IconLayoutProfile> {
        self.profiles@
    }

    /// The id of the layout that was saved or restored last.
    pub closed spec fn active(&self) -> Option<Seq<char>> {
        match self.active_profile {
            Some(id) => Some(id@),
            None => None,
        }
    }

    /// Whether a layout is restored when its monitors are back.
    pub closed spec fn restores(&self) -> bool {
        self.auto_restore
    }

    /// Whether the monitors are watched.
    pub closed spec fn watching(&self) -> bool {
        self.active_run
    }

    /// The bus for toasts, if there is one.
    pub closed spec fn announces_on(&self) -> Option<EventBus> {
        self.bus
    }

    /// Whether everything but the running state is the same in `other`.
    pub open spec fn same_settings(&self, other: &Self) -> bool {
        &&& self.saved() == other.saved()
        &&& self.active() == other.active()
        &&& self.restores() == other.restores()
        &&& self.announces_on() == other.announces_on()
    }

    /// A stopped module with these layouts, none of them active, which restores them.
    pub fn new(profiles: Vec<IconLayoutProfile>) -> (r: Self)
        ensures
            r.saved() == profiles@,
            r.active() is None,
            r.restores(),
            !r.watching(),
            r.announces_on() is None,
    {
        IconLockerModule {
            active_run: false,
            profiles,
            active_profile: None,
            auto_restore: true,
            bus: None,
        }
    }

    /// The module with another setting for restoring.
    pub fn with_auto_restore(self, auto_restore: bool) -> (r: Self)
        ensures
            r.saved() == self.saved(),
            r.active() == self.active(),
            r.restores() == auto_restore,
            r.watching() == self.watching(),
            r.announces_on() == self.announces_on(),
    {
        let mut module = self;
        module.auto_restore = auto_restore;
        module
    }

    /// The module with another bus for its toasts.
    pub fn with_bus(self, bus: Option<EventBus>) -> (r: Self)
        ensures
            r.saved() == self.saved(),
            r.active() == self.active(),
            r.restores() == self.restores(),
            r.watching() == self.watching(),
            r.announces_on() == bus,
    {
        let mut module = self;
        module.bus = bus;
        module
    }

    /// The saved layouts.
    pub fn profiles(&self) -> (r: Vec<IconLayoutProfile>)
        ensures
            r@.len() == self.saved().len(),
            forall|i: int| 0 <= i < r@.len() ==> same_profile(#[trigger] r@[i], self.saved()[i]),
    {
        let mut r: Vec<IconLayoutProfile> = Vec::new();
        let mut i: usize = 0;
        while i < self.profiles.len()
            invariant
                i <= self.profiles@.len(),
                r@.len() == i,
                forall|k: int| 0 <= k < i ==> same_profile(#[trigger] r@[k], self.profiles@[k]),
            decreases self.profiles@.len() - i,
        {
            r.push(self.profiles[i].clone());
            i = i + 1;
        }
        r
    }

    /// Whether a layout is restored when its monitors are back.
    pub fn auto_restore(&self) -> (r: bool)
        ensures
            r == self.restores(),
    {
        self.auto_restore
    }

    /// Sets whether a layout is restored when its monitors are back.
    pub fn set_auto_restore(&mut self, enabled: bool)
        ensures
            final(self).restores() == enabled,
            final(self).saved() == old(self).saved(),
            final(self).active() == old(self).active(),
            final(self).watching() == old(self).watching(),
            final(self).announces_on() == old(self).announces_on(),
    {
        self.auto_restore = enabled;
    }

    /// Whether this module is `before` with one more layout at its end, now the active
    /// one, and `saved` is a copy of that: the layout with this name, read at the moment
    /// `created_ms` on monitors with this fingerprint.
    pub open spec fn has_saved(
        &self,
        before: &Self,
        saved: IconLayoutProfile,
        name: String,
        created_ms: i64,
        fingerprint: String,
        layout: DesktopLayout,
    ) -> bool {
        &&& self.saved().len() == before.saved().len() + 1
        &&& self.saved().drop_last() == before.saved()
        &&& same_profile(saved, self.saved().last())
        &&& saved.id@ == "profile-"@ + decimal_signed(created_ms as int)
        &&& saved.name == name
        &&& saved.topology_fingerprint == fingerprint
        &&& saved.icon_positions.count() == layout.positions.count()
        &&& forall|n: Seq<char>| #[trigger]
            saved.icon_positions.position(n) == layout.positions.position(n)
        &&& self.active() == Some(saved.id@)
        &&& self.restores() == before.restores()
        &&& self.watching() == before.watching()
        &&& self.announces_on() == before.announces_on()
    }

    /// Saves a layout that was read at the moment `created_ms`, in milliseconds since
    /// 1970, and makes it the active one.
    pub fn save_profile(
        &mut self,
        name: String,
        created_ms: i64,
        fingerprint: String,
        layout: DesktopLayout,
    ) -> (r: IconLayoutProfile)
        ensures
            final(self).has_saved(old(self), r, name, created_ms, fingerprint, layout),
    {
        let mut id = "profile-".to_owned();
        id.append(decimal_of_signed(created_ms).as_str());
        let profile = IconLayoutProfile {
            id,
            name,
            topology_fingerprint: fingerprint,
            icon_positions: layout.positions,
        };
        let copy = profile.clone();
        self.active_profile = Some(profile.id.clone());
        self.profiles.push(profile);
        assert(self.profiles@.drop_last() =~= old(self).profiles@);
        copy
    }

    /// Settles reading the current layout: it is saved, or the user is told why it could
    /// not be read.
    pub fn settle_capture(
        &mut self,
        name: String,
        created_ms: i64,
        fingerprint: String,
        captured: Result<DesktopLayout, explorer::ExplorerError>,
    ) -> (r: Result<IconLayoutProfile, ModuleError>)
        ensures
            match captured {
                Ok(layout) => r is Ok && final(self).has_saved(
                    old(self),
                    r->Ok_0,
                    name,
                    created_ms,
                    fingerprint,
                    layout,
                ),
                Err(error) => r is Err && r->Err_0@ == error.text() && *final(self) == *old(self),
            },
    {
        match captured {
            Ok(layout) => Ok(self.save_profile(name, created_ms, fingerprint, layout)),
            Err(error) => Err(error.to_string()),
        }
    }

    /// Reads the current layout and saves it as of the moment `created_ms`. Without
    /// Windows this is refused.
    pub fn capture_profile(&mut self, name: String, created_ms: i64) -> (r: Result<
        IconLayoutProfile,
        ModuleError,
    >)
        ensures
            r is Err,
            r->Err_0@ == explorer::ExplorerError::Unsupported.text(),
            *final(self) == *old(self),
    {
        let captured = explorer::capture_layout();
        let fingerprint = daemon::current_topology_fingerprint();
        self.settle_capture(name, created_ms, fingerprint, captured)
    }

    /// The layout with this id, or what the user is told where there is none.
    pub fn find_profile(&self, id: &str) -> (r: Result<IconLayoutProfile, ModuleError>)
        ensures
            match index_of(self.saved(), id@) {
                Some(i) => r is Ok && 0 <= i < self.saved().len() && same_profile(
                    r->Ok_0,
                    self.saved()[i],
                ) && r->Ok_0.id@ == id@,
                None => r is Err && r->Err_0@ == "未找到布局方案: "@ + id@,
            },
    {
        match find_index(&self.profiles, id) {
            Some(i) => Ok(self.profiles[i].clone()),
            None => {
                let mut text = "未找到布局方案: ".to_owned();
                text.append(id);
                Err(text)
            },
        }
    }

    /// Makes a layout the active one, after it was restored.
    pub fn activate(&mut self, id: &str)
        ensures
            final(self).active() == Some(id@),
            final(self).saved() == old(self).saved(),
            final(self).restores() == old(self).restores(),
            final(self).watching() == old(self).watching(),
            final(self).announces_on() == old(self).announces_on(),
    {
        self.active_profile = Some(id.to_owned());
    }

    /// Settles restoring the layout with this id: it becomes the active one, or the user
    /// is told why it could not be restored.
    pub fn settle_restore(&mut self, id: &str, restored: Result<(), explorer::ExplorerError>)
        -> (r: Result<(), ModuleError>)
        ensures
            match restored {
                Ok(_) => {
                    &&& r is Ok
                    &&& final(self).active() == Some(id@)
                    &&& final(self).saved() == old(self).saved()
                    &&& final(self).restores() == old(self).restores()
                    &&& final(self).watching() == old(self).watching()
                    &&& final(self).announces_on() == old(self).announces_on()
                },
                Err(error) => r is Err && r->Err_0@ == error.text() && *final(self) == *old(self),
            },
    {
        match restored {
            Ok(_) => {
                self.activate(id);
                Ok(())
            },
            Err(error) => Err(error.to_string()),
        }
    }

    /// Restores the layout with this id, whatever the monitors are, and makes it the
    /// active one. Without Windows this is refused.
    pub fn restore_profile(&mut self, id: &str) -> (r: Result<(), ModuleError>)
        ensures
            r is Err,
            r->Err_0@ == (if index_of(old(self).saved(), id@) is Some {
                explorer::ExplorerError::Unsupported.text()
            } else {
                "未找到布局方案: "@ + id@
            }),
            *final(self) == *old(self),
    {
        let profile = match self.find_profile(id) {
            Ok(profile) => profile,
            Err(error) => return Err(error),
        };
        let layout = DesktopLayout { positions: profile.icon_positions };
        let restored = explorer::restore_layout(&layout);
        self.settle_restore(id, restored)
    }

    /// Removes every layout with this id and returns whether there was one. If it was
    /// the active one, there is no active one any more.
    pub fn remove_profile(&mut self, id: &str) -> (r: bool)
        ensures
            final(self).saved() == old(self).saved().filter(other_than(id@)),
            r == (index_of(old(self).saved(), id@) is Some),
            final(self).active() == active_without(old(self).active(), id@, r),
            final(self).restores() == old(self).restores(),
            final(self).watching() == old(self).watching(),
            final(self).announces_on() == old(self).announces_on(),
    {
        let known = find_index(&self.profiles, id).is_some();
        let ghost keep = other_than(id@);
        let ghost all = self.profiles@;
        let mut i: usize = 0;
        proof {
            reveal(Seq::filter);
            assert(all.take(0).filter(keep) =~= Seq::<IconLayoutProfile>::empty());
            assert(self.profiles@.take(0) =~= all.take(0).filter(keep));
            assert(all.skip(0) =~= self.profiles@.skip(0));
        }
        let ghost mut seen: int = 0;
        while i < self.profiles.len()
            invariant
                i <= self.profiles@.len(),
                0 <= seen <= all.len(),
                keep == other_than(id@),
                self.profiles@.take(i as int) == all.take(seen).filter(keep),
                self.profiles@.skip(i as int) == all.skip(seen),
                self.active_profile == old(self).active_profile,
                self.auto_restore == old(self).auto_restore,
                self.active_run == old(self).active_run,
                self.bus == old(self).bus,
            decreases self.profiles@.len() - i,
        {
            let ghost before = self.profiles@;
            proof {
                assert(before.skip(i as int)[0] == before[i as int]);
                assert(all.skip(seen)[0] == before[i as int]);
                assert(all.skip(seen).len() == before.len() - i);
                crate::seqs::lemma_filter_take(all, keep, seen);
                assert(all.skip(seen).drop_first() =~= all.skip(seen + 1));
                assert(before.skip(i as int).drop_first() =~= before.skip(i + 1));
            }
            if same_text(self.profiles[i].id.as_str(), id) {
                let _removed = self.profiles.remove(i);
                proof {
                    assert(self.profiles@ =~= before.remove(i as int));
                    assert(self.profiles@.take(i as int) =~= before.take(i as int));
                    assert(self.profiles@.skip(i as int) =~= before.skip(i + 1));
                }
            } else {
                i = i + 1;
                proof {
                    assert(before.take(i as int) =~= before.take(i - 1).push(before[i - 1]));
                }
            }
            proof {
                seen = seen + 1;
            }
        }
        proof {
            assert(self.profiles@.skip(i as int).len() == 0);
            assert(all.take(seen) =~= all);
            assert(self.profiles@.take(i as int) =~= self.profiles@);
        }
        if known {
            let is_active = match &self.active_profile {
                Some(active) => same_text(active.as_str(), id),
                None => false,
            };
            if is_active {
                self.active_profile = None;
            }
        }
        known
    }

    /// The layout that is restored on its own.
    pub fn pick_auto_restore_profile(&self) -> (r: Option<IconLayoutProfile>)
        ensures
            match restore_index(self.saved(), self.active()) {
                Some(i) => r is Some && 0 <= i < self.saved().len() && same_profile(
                    r->0,
                    self.saved()[i],
                ),
                None => r is None,
            },
    {
        if let Some(id) = &self.active_profile {
            if let Some(i) = find_index(&self.profiles, id.as_str()) {
                return Some(self.profiles[i].clone());
            }
        }
        let count: usize = self.profiles.len();
        if count > 0 {
            Some(self.profiles[count - 1].clone())
        } else {
            None
        }
    }

    /// What a change of the monitors to `current` leads to. Only a layout of these very
    /// monitors is restored.
    pub fn plan_auto_restore(&self, current: &str) -> (r: AutoRestore)
        ensures
            leads_to(self.saved(), self.active(), current@, r),
    {
        let profile = match self.pick_auto_restore_profile() {
            Some(profile) => profile,
            None => return AutoRestore::NoProfile,
        };
        if profile_matches_topology(profile.topology_fingerprint.as_str(), current) {
            return AutoRestore::Restore { profile };
        }
        let mut text = "显示器拓扑与方案「".to_owned();
        text.append(profile.name.as_str());
        text.append("」不一致，未自动还原（方案对应 ");
        if profile.topology_fingerprint.as_str().is_empty() {
            text.append("的拓扑信息缺失");
        } else {
            text.append("其他显示器布局");
        }
        text.append("）");
        AutoRestore::OtherMonitors { toast: AppEvent::ToastRequested(text) }
    }

    /// Publishes a toast where there is a bus.
    pub fn toast(&self, event: AppEvent)
        ensures
            self.announces_on() matches Some(bus) ==> published(bus, event),
    {
        if let Some(bus) = &self.bus {
            bus.publish(event);
        }
    }

    /// Restores the layout that belongs to the current monitors. Without Windows these
    /// are unknown, so no layout belongs to them.
    pub fn restore_active(&mut self) -> (r: Result<(), ModuleError>)
        ensures
            old(self).saved().len() == 0 ==> r is Err && r->Err_0@
                == "尚无已保存的布局方案，无法自动还原"@,
            restore_index(old(self).saved(), old(self).active()) matches Some(i) ==> r is Ok
                && toasted(
                old(self).announces_on(),
                other_monitors_text(
                    old(self).saved()[i].name@,
                    old(self).saved()[i].topology_fingerprint@,
                ),
            ),
            old(self).saved().len() > 0 ==> r is Ok,
            *final(self) == *old(self),
    {
        let current = daemon::current_topology_fingerprint();
        match self.plan_auto_restore(current.as_str()) {
            AutoRestore::NoProfile => Err("尚无已保存的布局方案，无法自动还原".to_owned()),
            AutoRestore::OtherMonitors { toast } => {
                self.toast(toast);
                Ok(())
            },
            AutoRestore::Restore { profile } => {
                let layout = DesktopLayout { positions: profile.icon_positions };
                let restored = explorer::restore_layout(&layout);
                self.settle_restore(profile.id.as_str(), restored)
            },
        }
    }

    /// Whether a change of the monitors is acted upon.
    pub fn acts_on_change(&self) -> (r: bool)
        ensures
            r == acts(self.watching(), self.restores()),
    {
        self.active_run && self.auto_restore
    }

    /// What the user is told of a layout that could not be restored.
    pub fn restore_failure_toast() -> (r: AppEvent)
        ensures
            is_toast(
                r,
                "图标布局自动还原失败：若图标被系统弹回，请排查桌面右键「自动排列图标」"@,
            ),
    {
        AppEvent::ToastRequested(
            "图标布局自动还原失败：若图标被系统弹回，请排查桌面右键「自动排列图标」".to_owned(),
        )
    }

    /// Settles a start on whether the watching thread came up.
    pub fn settle_start(&mut self, spawned: Result<(), String>) -> (r: Result<(), ModuleError>)
        ensures
            final(self).same_settings(old(self)),
            old(self).watching() ==> r is Ok && final(self).watching(),
            !old(self).watching() ==> match spawned {
                Ok(_) => r is Ok && final(self).watching(),
                Err(reason) => r is Err && !final(self).watching() && r->Err_0@
                    == "显示器守护线程启动失败: "@ + reason@,
            },
    {
        if self.active_run {
            return Ok(());
        }
        match spawned {
            Ok(_) => {
                self.active_run = true;
                Ok(())
            },
            Err(reason) => {
                let mut text = "显示器守护线程启动失败: ".to_owned();
                text.append(reason.as_str());
                Err(text)
            },
        }
    }
}

impl ToolModule for IconLockerModule {
    open spec fn id_text(&self) -> Seq<char> {
        "icon_locker"@
    }

    open spec fn name_text(&self) -> Seq<char> {
        "桌面图标布局锁"@
    }

    open spec fn description_text(&self) -> Seq<char> {
        "保存并自动还原多显示器桌面图标布局"@
    }

    open spec fn running(&self) -> bool {
        self.watching()
    }

    open spec fn can_start(before: Self, after: Self, r: Result<(), ModuleError>) -> bool {
        r is Ok && after.watching() && after.same_settings(&before)
    }

    open spec fn can_stop(before: Self, after: Self, r: Result<(), ModuleError>) -> bool {
        r is Ok && !after.watching() && after.same_settings(&before)
    }

    fn id(&self) -> &'static str {
        "icon_locker"
    }

    fn display_name(&self) -> &'static str {
        "桌面图标布局锁"
    }

    fn description(&self) -> &'static str {
        "保存并自动还原多显示器桌面图标布局"
    }

    fn is_running(&self) -> bool {
        self.active_run
    }

    /// Starts the module without a watching thread, as platforms other than Windows do.
    fn start(&mut self) -> (r: Result<(), ModuleError>) {
        self.settle_start(Ok(()))
    }

    /// Stops the module.
    fn stop(&mut self) -> (r: Result<(), ModuleError>) {
        self.active_run = false;
        Ok(())
    }
}

// ---------------------------------------------------------------------------
// Laws
// ---------------------------------------------------------------------------

/// A removed layout is gone: it is not found any more, and removing it again changes
/// nothing.
pub proof fn law_removed_profile_is_gone(profiles: Seq<IconLayoutProfile>, id: Seq<char>)
    ensures
        ({
            let keep = other_than(id);
            &&& index_of(profiles.filter(keep), id) is None
            &&& profiles.filter(keep).filter(keep) == profiles.filter(keep)
        }),
{
    let keep = other_than(id);
    let left = profiles.filter(keep);
    lemma_filter_idempotent(profiles, keep);
    lemma_index_in_range(left, id);
    if index_of(left, id) is Some {
        profiles.lemma_filter_pred(keep, index_of(left, id)->0);
    }
}

/// A layout without a fingerprint belongs to no monitors, not even to unknown ones.
pub proof fn law_unknown_monitors_match_nothing(fingerprint: Seq<char>, current: Seq<char>)
    ensures
        !belongs_here(Seq::empty(), current),
        !belongs_here(fingerprint, Seq::empty()),
{
}

/// The layout that is restored on its own is a saved one: the active one where it is
/// still there, else the newest.
pub proof fn law_restored_profile_is_saved(profiles: Seq<IconLayoutProfile>, active: Option<Seq<char>>)
    ensures
        restore_index(profiles, active) is None <==> profiles.len() == 0,
        restore_index(profiles, active) matches Some(i) ==> 0 <= i < profiles.len(),
        active matches Some(id) ==> (index_of(profiles, id) matches Some(i) ==> restore_index(
            profiles,
            active,
        ) == Some(i) && profiles[i].id@ == id),
        active is None && profiles.len() > 0 ==> restore_index(profiles, active) == Some(
            profiles.len() - 1,
        ),
{
    if active is Some {
        lemma_index_in_range(profiles, active->0);
    }
}

/// A layout is found by its id: the first that has it, and none where none has.
pub proof fn law_first_layout_with_an_id(profiles: Seq<IconLayoutProfile>, id: Seq<char>, i: int)
    ensures
        0 <= i < profiles.len() && profiles[i].id@ == id && (forall|k: int|
            0 <= k < i ==> (#[trigger] profiles[k]).id@ != id) ==> index_of(profiles, id) == Some(
            i,
        ),
        (forall|k: int| 0 <= k < profiles.len() ==> (#[trigger] profiles[k]).id@ != id)
            ==> index_of(profiles, id) is None,
    decreases profiles.len(),
{
    if profiles.len() > 0 {
        let front = profiles.drop_last();
        assert forall|k: int| 0 <= k < front.len() implies #[trigger] front[k] == profiles[k] by {}
        law_first_layout_with_an_id(front, id, i);
        if i == front.len() {
            lemma_index_in_range(front, id);
        }
    }
}

/// Whether the layout at place `i` is the one that is restored on its own: the first with
/// the id of the active one, or the newest where there is no active one any more.
pub open spec fn is_preferred(
    profiles: Seq<IconLayoutProfile>,
    active: Option<Seq<char>>,
    i: int,
) -> bool {
    &&& 0 <= i < profiles.len()
    &&& match active {
        Some(id) => if exists|k: int| 0 <= k < profiles.len() && (#[trigger] profiles[k]).id@ == id {
            profiles[i].id@ == id && forall|k: int|
                0 <= k < i ==> (#[trigger] profiles[k]).id@ != id
        } else {
            i == profiles.len() - 1
        },
        None => i == profiles.len() - 1,
    }
}

proof fn lemma_preferred(profiles: Seq<IconLayoutProfile>, active: Option<Seq<char>>, i: int)
    requires
        is_preferred(profiles, active, i),
    ensures
        restore_index(profiles, active) == Some(i),
{
    if active is Some {
        law_first_layout_with_an_id(profiles, active->0, i);
    }
}

/// When the monitors change, the layout that counts is restored if and only if it was
/// saved on the very monitors that are there now, in whatever order they are listed: not
/// where one was added, not where one is missing, and not where it was saved on unknown
/// ones. Else the icons stay, and the user is told.
pub proof fn law_restored_on_its_own_monitors_only(
    profiles: Seq<IconLayoutProfile>,
    active: Option<Seq<char>>,
    i: int,
    then: Seq<MonitorRect>,
    now: Seq<MonitorRect>,
    r: AutoRestore,
)
    requires
        is_preferred(profiles, active, i),
        profiles[i].topology_fingerprint@ == fingerprint(then),
        leads_to(profiles, active, fingerprint(now), r),
    ensures
        r is Restore <==> then.len() > 0 && then.to_multiset() == now.to_multiset(),
        r is OtherMonitors <==> then.len() == 0 || then.to_multiset() != now.to_multiset(),
        r is Restore ==> {
            &&& r->profile.id@ == profiles[i].id@
            &&& r->profile.name@ == profiles[i].name@
            &&& forall|name: Seq<char>| #[trigger]
                r->profile.icon_positions.position(name) == profiles[i].icon_positions.position(
                    name,
                )
        },
{
    lemma_preferred(profiles, active, i);
    law_fingerprint_identifies_arrangement(then, now);
    law_fingerprint_is_not_empty(then);
}

/// No fingerprint belongs to two arrangements: a layout that belongs to one belongs to no
/// other, and to its own one always.
pub proof fn law_layout_belongs_to_one_arrangement(
    saved: Seq<char>,
    current: Seq<char>,
    other: Seq<char>,
)
    ensures
        belongs_here(saved, current) && belongs_here(saved, other) ==> current == other,
        belongs_here(saved, current) && belongs_here(other, current) ==> saved == other,
        saved.len() > 0 ==> belongs_here(saved, saved),
        saved.len() == 0 ==> !belongs_here(saved, current),
{
}

/// Without a layout nothing is restored, and with one there is always an answer.
pub proof fn law_no_layout_no_restore(
    profiles: Seq<IconLayoutProfile>,
    active: Option<Seq<char>>,
    current: Seq<char>,
    r: AutoRestore,
)
    requires
        leads_to(profiles, active, current, r),
    ensures
        r is NoProfile <==> profiles.len() == 0,
{
    law_restored_profile_is_saved(profiles, active);
}

/// A layout that was just saved is restored when its monitors come back, with the icons
/// where they were, given that no earlier one has its id.
pub proof fn law_saved_layout_is_restored(
    before: IconLockerModule,
    after: IconLockerModule,
    copy: IconLayoutProfile,
    name: String,
    created_ms: i64,
    print: String,
    layout: DesktopLayout,
    r: AutoRestore,
)
    requires
        after.has_saved(&before, copy, name, created_ms, print, layout),
        forall|k: int| 0 <= k < before.saved().len() ==> (#[trigger] before.saved()[k]).id@
            != copy.id@,
        leads_to(after.saved(), after.active(), print@, r),
    ensures
        print@.len() > 0 ==> r is Restore && r->profile.name@ == name@ && forall|n: Seq<char>|
         #[trigger]
            r->profile.icon_positions.position(n) == layout.positions.position(n),
        print@.len() == 0 ==> r is OtherMonitors,
        forall|k: int|
            0 <= k < before.saved().len() ==> #[trigger] after.saved()[k] == before.saved()[k],
{
    let all = after.saved();
    let last = all.len() - 1;
    assert forall|k: int| 0 <= k < last implies (#[trigger] all[k]) == before.saved()[k] by {
        assert(all.drop_last()[k] == all[k]);
    }
    assert(all[last].id@ == copy.id@);
    lemma_preferred(all, after.active(), last);
    assert forall|n: Seq<char>| r is Restore implies #[trigger] r->profile.icon_positions.position(
        n,
    ) == layout.positions.position(n) by {
        assert(copy.icon_positions.position(n) == all[last].icon_positions.position(n));
    }
}

/// Removing a layout takes away those with its id and leaves every other one, in order.
pub proof fn law_other_layouts_stay(profiles: Seq<IconLayoutProfile>, id: Seq<char>, p: IconLayoutProfile)
    ensures
        profiles.push(p).filter(other_than(id)) == (if p.id@ == id {
            profiles.filter(other_than(id))
        } else {
            profiles.filter(other_than(id)).push(p)
        }),
        Seq::<IconLayoutProfile>::empty().filter(other_than(id)).len() == 0,
{
    reveal(Seq::filter);
    assert(profiles.push(p).drop_last() =~= profiles);
}

/// A start leaves the module running and a stop leaves it stopped; neither fails.
pub proof fn law_start_runs_and_stop_ends(
    before: IconLockerModule,
    after: IconLockerModule,
    r: Result<(), ModuleError>,
)
    ensures
        IconLockerModule::can_start(before, after, r) ==> r is Ok && after.running(),
        IconLockerModule::can_stop(before, after, r) ==> r is Ok && !after.running(),
        IconLockerModule::can_start(before, after, r) || IconLockerModule::can_stop(
            before,
            after,
            r,
        ) ==> after.saved() == before.saved() && after.active() == before.active()
            && after.restores() == before.restores() && after.announces_on()
            == before.announces_on(),
{
}

/// Removing a layout leaves another one active as it was; only the removed one is active
/// no more. A change of the monitors is acted upon only while they are watched and only
/// where layouts are to be restored.
pub proof fn law_other_layout_stays_active(id: Seq<char>, other: Seq<char>, known: bool, any: bool)
    ensures
        id != other ==> active_without(Some(other), id, known) == Some(other),
        active_without(Some(id), id, true) is None,
        active_without(Some(id), id, false) == Some(id),
        active_without(None, id, known) is None,
        acts(true, true),
        !acts(false, any),
        !acts(any, false),
{
}

/// What the user is told of a layout that was not restored names the layout.
pub proof fn law_toast_names_the_layout(name: Seq<char>, print: Seq<char>)
    ensures
        crate::text::has_substring(other_monitors_text(name, print), name),
        print.len() == 0 ==> crate::text::has_substring(
            other_monitors_text(name, print),
            "拓扑信息缺失"@,
        ),
{
    let a = "显示器拓扑与方案「"@;
    let b = "」不一致，未自动还原（方案对应 "@;
    let c = if print.len() == 0 {
        "的拓扑信息缺失"@
    } else {
        "其他显示器布局"@
    };
    let d = "）"@;
    crate::text::law_part_is_found(a, name, b + c + d);
    assert(a + name + (b + c + d) =~= other_monitors_text(name, print));
    if print.len() == 0 {
        reveal_strlit("的拓扑信息缺失");
        reveal_strlit("拓扑信息缺失");
        let front = seq!['的'];
        assert(c =~= front + "拓扑信息缺失"@);
        crate::text::law_part_is_found(a + name + b + front, "拓扑信息缺失"@, d);
        assert(a + name + b + front + "拓扑信息缺失"@ + d =~= other_monitors_text(name, print));
    }
}

} // verus!
