//! Keeping the system awake: while the module runs, neither the display nor the
//! system goes to sleep.

use crate::modules::{ModuleError, ToolModule};
use vstd::prelude::*;

verus! {

/// The execution state that keeps the system and the display awake: continuous, with
/// the system and the display required.
pub const AWAKE_FLAGS: u32 = 0x8000_0003;

/// The execution state that restores the default: continuous alone.
pub const RESTORE_FLAGS: u32 = 0x8000_0000;

/// The execution state to request, if switching to `enable` needs a request at all.
pub open spec fn state_for(active: bool, enable: bool) -> Option<u32> {
    if active == enable {
        None
    } else if enable {
        Some(AWAKE_FLAGS)
    } else {
        Some(RESTORE_FLAGS)
    }
}

/// Whether the system is kept awake after a start that found it so or not, by the state
/// that the system returned; zero means that it refused.
pub open spec fn awake_after_start(active: bool, previous: u32) -> bool {
    active || previous != 0
}

/// Whether the system is still kept awake after a stop that found it so or not.
pub open spec fn awake_after_stop(active: bool, previous: u32) -> bool {
    active && previous == 0
}

/// Whether the system is kept awake.
pub struct KeepAwakeModule {
    active: bool,
}

impl KeepAwakeModule {
    /// Whether the system is kept awake.
    pub closed spec fn is_active(&self) -> bool {
        self.active
    }

    /// A stopped module.
    pub fn new() -> (r: Self)
        ensures
            !r.is_active(),
    {
        KeepAwakeModule { active: false }
    }

    /// The execution state to request, if switching to `enable` needs a request at all.
    pub fn requested_state(&self, enable: bool) -> (r: Option<u32>)
        ensures
            r == state_for(self.is_active(), enable),
    {
        if self.active == enable {
            None
        } else if enable {
            Some(AWAKE_FLAGS)
        } else {
            Some(RESTORE_FLAGS)
        }
    }

    /// Settles a start on the previous execution state that the system returned; zero
    /// means that it refused.
    pub fn settle_start(&mut self, previous: u32) -> (r: Result<(), ModuleError>)
        ensures
            final(self).is_active() == awake_after_start(old(self).is_active(), previous),
            r is Ok <==> awake_after_start(old(self).is_active(), previous),
            old(self).is_active() ==> r is Ok && final(self).is_active(),
            !old(self).is_active() && previous != 0 ==> r is Ok && final(self).is_active(),
            !old(self).is_active() && previous == 0 ==> r is Err && !final(self).is_active()
                && r->Err_0@
                == "SetThreadExecutionState 注入防休眠标志失败（返回空前态）"@,
    {
        if self.active {
            return Ok(());
        }
        if previous == 0 {
            return Err(
                "SetThreadExecutionState 注入防休眠标志失败（返回空前态）".to_owned(),
            );
        }
        self.active = true;
        Ok(())
    }

    /// Settles a stop on the previous execution state that the system returned. Where
    /// the system refused it stays awake, and so does the module.
    pub fn settle_stop(&mut self, previous: u32) -> (r: Result<(), ModuleError>)
        ensures
            final(self).is_active() == awake_after_stop(old(self).is_active(), previous),
            r is Ok <==> !awake_after_stop(old(self).is_active(), previous),
            !old(self).is_active() ==> r is Ok && !final(self).is_active(),
            old(self).is_active() && previous != 0 ==> r is Ok && !final(self).is_active(),
            old(self).is_active() && previous == 0 ==> r is Err && final(self).is_active()
                && r->Err_0@
                == "SetThreadExecutionState 还原默认休眠策略失败（返回空前态）"@,
    {
        if !self.active {
            return Ok(());
        }
        if previous == 0 {
            return Err(
                "SetThreadExecutionState 还原默认休眠策略失败（返回空前态）".to_owned(),
            );
        }
        self.active = false;
        Ok(())
    }
}

impl Default for KeepAwakeModule {
    fn default() -> (r: Self)
        ensures
            !r.is_active(),
    {
        Self::new()
    }
}

impl ToolModule for KeepAwakeModule {
    open spec fn id_text(&self) -> Seq<char> {
        "keep_awake"@
    }

    open spec fn name_text(&self) -> Seq<char> {
        "系统防休眠"@
    }

    open spec fn description_text(&self) -> Seq<char> {
        "阻止显示器关闭与系统自动睡眠，保持后台任务持续运行"@
    }

    open spec fn running(&self) -> bool {
        self.is_active()
    }

    open spec fn can_start(before: Self, after: Self, r: Result<(), ModuleError>) -> bool {
        r is Ok && after.is_active()
    }

    open spec fn can_stop(before: Self, after: Self, r: Result<(), ModuleError>) -> bool {
        r is Ok && !after.is_active()
    }

    fn id(&self) -> &'static str {
        "keep_awake"
    }

    fn display_name(&self) -> &'static str {
        "系统防休眠"
    }

    fn description(&self) -> &'static str {
        "阻止显示器关闭与系统自动睡眠，保持后台任务持续运行"
    }

    fn is_running(&self) -> bool {
        self.active
    }

    /// Starts the module without a request, as platforms other than Windows do.
    fn start(&mut self) -> (r: Result<(), ModuleError>) {
        self.active = true;
        Ok(())
    }

    /// Stops the module without a request, as platforms other than Windows do.
    fn stop(&mut self) -> (r: Result<(), ModuleError>) {
        self.active = false;
        Ok(())
    }
}

/// A start leaves the module running and a stop leaves it stopped; neither fails.
pub proof fn law_start_runs_and_stop_ends(
    before: KeepAwakeModule,
    after: KeepAwakeModule,
    r: Result<(), ModuleError>,
)
    ensures
        KeepAwakeModule::can_start(before, after, r) ==> r is Ok && after.running(),
        KeepAwakeModule::can_stop(before, after, r) ==> r is Ok && !after.running(),
{
}

/// A state is requested only where something changes. To be kept awake the system and the
/// display are both required, until further notice; afterwards neither is.
pub proof fn law_system_and_display_are_required(active: bool, enable: bool)
    ensures
        state_for(active, enable) is None <==> active == enable,
        enable && !active ==> state_for(active, enable) == Some(
            (0x8000_0000u32 + 0x1u32 + 0x2u32) as u32,
        ),
        !enable && active ==> state_for(active, enable) == Some(0x8000_0000u32),
{
}

/// The module says that the system is kept awake if and only if the last request that the
/// system granted was one for it: a refused request changes nothing, a granted one does
/// what it asks for.
pub proof fn law_refused_request_changes_nothing(active: bool, previous: u32)
    ensures
        awake_after_start(active, 0) == active,
        awake_after_stop(active, 0) == active,
        previous != 0 ==> awake_after_start(active, previous),
        previous != 0 ==> !awake_after_stop(active, previous),
{
}

} // verus!
