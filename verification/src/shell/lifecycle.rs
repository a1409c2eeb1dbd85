//! Starting, running and leaving the application: who may start, what events lead to,
//! and requests that must not overlap.

use crate::bus::{AppEvent, TrayAction};
use crate::text::{bool_text, same_text, text_of_bool};
use vstd::prelude::*;

verus! {

// ---------------------------------------------------------------------------
// Start
// ---------------------------------------------------------------------------

/// Whether an argument was given.
pub open spec fn among(args: Seq<String>, wanted: Seq<char>) -> bool {
    exists|i: int| 0 <= i < args.len() && (#[trigger] args[i])@ == wanted
}

/// Whether the program was given this argument.
pub fn has_argument(args: &[String], wanted: &str) -> (r: bool)
    ensures
        r == among(args@, wanted@),
{
    let mut i: usize = 0;
    while i < args.len()
        invariant
            i <= args@.len(),
            forall|k: int| 0 <= k < i ==> (#[trigger] args@[k])@ != wanted@,
        decreases args@.len() - i,
    {
        if same_text(args[i].as_str(), wanted) {
            return true;
        }
        i = i + 1;
    }
    false
}

/// What came of asking whether another instance runs.
#[derive(Debug, PartialEq, Eq)]
pub enum InstanceCheck {
    /// This is the only one.
    Primary,
    /// Another one runs, and was asked to show itself or could not be.
    Secondary { wakeup_delivered: bool },
    /// It is not known, for this reason.
    Unknown(String),
}

/// Whether to go on.
#[derive(Debug, PartialEq, Eq)]
pub enum StartDecision {
    /// Go on, and log this.
    Continue { log: String },
    /// Leave at once, with this message.
    Leave { message: String },
}

/// The text of a start that goes on.
pub open spec fn start_log(check: InstanceCheck) -> Seq<char> {
    match check {
        InstanceCheck::Primary => "单实例守护已就绪：本进程为唯一实例，互斥句柄持有至退出"@,
        InstanceCheck::Secondary { wakeup_delivered } =>
            "提权重启握手期：既有实例即将退出并释放互斥，本实例跳过「第二实例退出」路径继续装配"@,
        InstanceCheck::Unknown(reason) => "单实例互斥创建失败，本次降级为允许并行运行: "@
            + reason@,
    }
}

/// Whether a second instance leaves: always, unless it takes over from the first with
/// higher rights.
pub open spec fn must_leave(check: InstanceCheck, taking_over: bool) -> bool {
    check is Secondary && !taking_over
}

/// Decides whether an instance goes on.
pub fn decide_start(check: &InstanceCheck, taking_over: bool) -> (r: StartDecision)
    ensures
        match r {
            StartDecision::Continue { log } => !must_leave(*check, taking_over) && log@ == start_log(
                *check,
            ),
            StartDecision::Leave { message } => must_leave(*check, taking_over) && message@
                == "[tltoolbox] 检测到 TLToolBox 已在运行（唤醒广播投递: "@ + bool_text(
                check->wakeup_delivered,
            ) + "），本进程立即退出"@,
        },
{
    match check {
        InstanceCheck::Primary => StartDecision::Continue {
            log: "单实例守护已就绪：本进程为唯一实例，互斥句柄持有至退出".to_owned(),
        },
        InstanceCheck::Secondary { wakeup_delivered } => {
            if taking_over {
                StartDecision::Continue {
                    log:
                        "提权重启握手期：既有实例即将退出并释放互斥，本实例跳过「第二实例退出」路径继续装配".to_owned(),
                }
            } else {
                let mut message = "[tltoolbox] 检测到 TLToolBox 已在运行（唤醒广播投递: ".to_owned();
                message.append(text_of_bool(*wakeup_delivered));
                message.append("），本进程立即退出");
                StartDecision::Leave { message }
            }
        },
        InstanceCheck::Unknown(reason) => {
            let mut log = "单实例互斥创建失败，本次降级为允许并行运行: ".to_owned();
            log.append(reason.as_str());
            StartDecision::Continue { log }
        },
    }
}

/// Whether closing the window leaves the application in the tray.
pub fn stays_in_tray(minimize_to_tray: bool, tray_ready: bool) -> (r: bool)
    ensures
        r == (minimize_to_tray && tray_ready),
{
    minimize_to_tray && tray_ready
}

/// Whether the window stays hidden at the start: the system started the application,
/// and the tray is there to show it.
pub fn starts_hidden(silent: bool, tray_ready: bool) -> (r: bool)
    ensures
        r == (silent && tray_ready),
{
    silent && tray_ready
}

// ---------------------------------------------------------------------------
// Events
// ---------------------------------------------------------------------------

/// What a subscription brings.
#[derive(Debug, PartialEq, Eq)]
pub enum BusSignal {
    Event(AppEvent),
    /// So many events were lost.
    Lagged(u64),
    /// There will be no more.
    Closed,
}

/// What the controller does about a signal.
#[derive(Debug, Clone, Copy, PartialEq, Eq, Structural)]
pub enum ControlAction {
    /// Tell the tray whether all modules are on.
    SyncTray,
    ShowWindow,
    /// Switch all modules.
    SwitchAll(bool),
    RestartAsAdmin,
    /// Leave the application, and stop.
    Quit,
    /// Warn of lost events.
    WarnLagged(u64),
    Ignore,
    /// Stop.
    Stop,
}

/// What the controller does about a signal.
pub open spec fn control(signal: BusSignal) -> ControlAction {
    match signal {
        BusSignal::Closed => ControlAction::Stop,
        BusSignal::Lagged(skipped) => ControlAction::WarnLagged(skipped),
        BusSignal::Event(event) => match event {
            AppEvent::ModuleStatusChanged { .. } => ControlAction::SyncTray,
            AppEvent::TrayAction(action) => match action {
                TrayAction::ShowWindow => ControlAction::ShowWindow,
                TrayAction::ToggleAllModules(enable) => ControlAction::SwitchAll(enable),
                TrayAction::RestartAsAdmin => ControlAction::RestartAsAdmin,
                TrayAction::ExitApp => ControlAction::Quit,
            },
            AppEvent::AppLogAppended { .. } => ControlAction::Ignore,
            AppEvent::ToastRequested(_) => ControlAction::Ignore,
        },
    }
}

/// What the controller does about a signal.
pub fn control_action(signal: &BusSignal) -> (r: ControlAction)
    ensures
        r == control(*signal),
{
    match signal {
        BusSignal::Closed => ControlAction::Stop,
        BusSignal::Lagged(skipped) => ControlAction::WarnLagged(*skipped),
        BusSignal::Event(event) => match event {
            AppEvent::ModuleStatusChanged { .. } => ControlAction::SyncTray,
            AppEvent::TrayAction(action) => match action {
                TrayAction::ShowWindow => ControlAction::ShowWindow,
                TrayAction::ToggleAllModules(enable) => ControlAction::SwitchAll(*enable),
                TrayAction::RestartAsAdmin => ControlAction::RestartAsAdmin,
                TrayAction::ExitApp => ControlAction::Quit,
            },
            AppEvent::AppLogAppended { .. } => ControlAction::Ignore,
            AppEvent::ToastRequested(_) => ControlAction::Ignore,
        },
    }
}

/// Whether the controller stops after an action.
pub fn ends_control(action: ControlAction) -> (r: bool)
    ensures
        r == (action is Quit || action is Stop),
{
    match action {
        ControlAction::Quit => true,
        ControlAction::Stop => true,
        _ => false,
    }
}

/// What the window is told about a signal.
#[derive(Debug, PartialEq, Eq)]
pub enum ForwardAction {
    /// Show the modules as they are now.
    RefreshModules,
    /// Show this toast.
    ShowToast(String),
    /// Warn of lost events.
    WarnLagged(u64),
    Ignore,
    /// Stop.
    Stop,
}

/// What the window is told about a signal.
pub open spec fn forwarded(signal: BusSignal) -> ForwardAction {
    match signal {
        BusSignal::Closed => ForwardAction::Stop,
        BusSignal::Lagged(skipped) => ForwardAction::WarnLagged(skipped),
        BusSignal::Event(event) => match event {
            AppEvent::ModuleStatusChanged { .. } => ForwardAction::RefreshModules,
            AppEvent::ToastRequested(text) => ForwardAction::ShowToast(text),
            AppEvent::TrayAction(_) => ForwardAction::Ignore,
            AppEvent::AppLogAppended { .. } => ForwardAction::Ignore,
        },
    }
}

/// What the window is told about a signal.
pub fn forward_action(signal: BusSignal) -> (r: ForwardAction)
    ensures
        r == forwarded(signal),
{
    match signal {
        BusSignal::Closed => ForwardAction::Stop,
        BusSignal::Lagged(skipped) => ForwardAction::WarnLagged(skipped),
        BusSignal::Event(event) => match event {
            AppEvent::ModuleStatusChanged { .. } => ForwardAction::RefreshModules,
            AppEvent::ToastRequested(text) => ForwardAction::ShowToast(text),
            AppEvent::TrayAction(_) => ForwardAction::Ignore,
            AppEvent::AppLogAppended { .. } => ForwardAction::Ignore,
        },
    }
}

/// A toast is shown by the window and is nothing to the controller. A command of the tray
/// is carried out by the controller and is nothing to the window. Of all events only the
/// command to leave ends the program.
pub proof fn law_events_reach_one_side(event: AppEvent)
    ensures
        forwarded(BusSignal::Event(event)) is ShowToast <==> event is ToastRequested,
        event is ToastRequested ==> control(BusSignal::Event(event)) is Ignore,
        event is TrayAction ==> forwarded(BusSignal::Event(event)) is Ignore && !(control(
            BusSignal::Event(event),
        ) is Ignore),
        control(BusSignal::Event(event)) is Quit <==> event == AppEvent::TrayAction(
            TrayAction::ExitApp,
        ),
        !(control(BusSignal::Event(event)) is Stop),
        !(forwarded(BusSignal::Event(event)) is Stop),
{
}

// ---------------------------------------------------------------------------
// Toasts and requests
// ---------------------------------------------------------------------------

/// How long a toast is shown, in milliseconds.
pub const TOAST_DISPLAY_MS: u64 = 2500;

/// The number of the toast that is shown after `count` more than the one with number
/// `number`. Numbers start again after the largest.
pub open spec fn number_after(number: int, count: int) -> int {
    (number + count) % 0x1_0000_0000_0000_0000
}

/// The timer of a toast leaves every later one alone, as long as numbers have not come
/// round again.
pub proof fn law_timer_leaves_later_toasts(number: u64, count: int)
    requires
        0 < count < 0x1_0000_0000_0000_0000,
    ensures
        number_after(number as int, count) != number,
{
}

/// Numbers the toasts, so that a timer of an earlier one leaves a later one alone.
#[derive(Debug, Clone, Copy, PartialEq, Eq, Structural)]
pub struct ToastClock {
    epoch: u64,
}

impl ToastClock {
    /// The number of the toast that is shown.
    pub closed spec fn current(&self) -> u64 {
        self.epoch
    }

    /// No toast yet.
    pub fn new() -> (r: Self)
        ensures
            r.current() == 0,
    {
        ToastClock { epoch: 0 }
    }

    /// The number of a new toast.
    pub fn show(&mut self) -> (r: u64)
        ensures
            r == final(self).current(),
            r == number_after(old(self).current() as int, 1),
    {
        self.epoch = self.epoch.wrapping_add(1);
        self.epoch
    }

    /// Whether the timer of a toast hides it: no other has been shown since.
    pub fn may_hide(&self, number: u64) -> (r: bool)
        ensures
            r == (number == self.current()),
    {
        self.epoch == number
    }
}

/// Lets one request at a time through.
#[derive(Debug, Clone, Copy, PartialEq, Eq, Structural)]
pub struct SingleFlight {
    busy: bool,
}

impl SingleFlight {
    /// Whether a request is under way.
    pub closed spec fn in_flight(&self) -> bool {
        self.busy
    }

    /// No request.
    pub fn new() -> (r: Self)
        ensures
            !r.in_flight(),
    {
        SingleFlight { busy: false }
    }

    /// Takes a request, unless one is under way, and returns whether it was taken.
    pub fn begin(&mut self) -> (r: bool)
        ensures
            r == !old(self).in_flight(),
            final(self).in_flight(),
    {
        let free = !self.busy;
        self.busy = true;
        free
    }

    /// Ends a request.
    pub fn finish(&mut self)
        ensures
            !final(self).in_flight(),
    {
        self.busy = false;
    }
}

/// Every event leads where it belongs: what a module is doing now to the list and to the
/// tray, a command of the tray to the controller, just as it was given, a toast to the
/// window with its own text, and lost events to a warning with their number. Both sides
/// end with the bus.
pub proof fn law_where_events_lead(
    id: String,
    is_running: bool,
    text: String,
    enable: bool,
    lost: u64,
)
    ensures
        ({
            let status = BusSignal::Event(AppEvent::ModuleStatusChanged { id, is_running });
            control(status) is SyncTray && forwarded(status) is RefreshModules
        }),
        forwarded(BusSignal::Event(AppEvent::ToastRequested(text))) == ForwardAction::ShowToast(
            text,
        ),
        control(BusSignal::Event(AppEvent::TrayAction(TrayAction::ShowWindow))) is ShowWindow,
        control(BusSignal::Event(AppEvent::TrayAction(TrayAction::ToggleAllModules(enable))))
            == ControlAction::SwitchAll(enable),
        control(BusSignal::Event(AppEvent::TrayAction(TrayAction::RestartAsAdmin)))
            is RestartAsAdmin,
        control(BusSignal::Event(AppEvent::TrayAction(TrayAction::ExitApp))) is Quit,
        control(BusSignal::Lagged(lost)) == ControlAction::WarnLagged(lost),
        forwarded(BusSignal::Lagged(lost)) == ForwardAction::WarnLagged(lost),
        control(BusSignal::Closed) is Stop,
        forwarded(BusSignal::Closed) is Stop,
{
}

/// Only a second instance leaves, and not even that one where it takes over from the first.
pub proof fn law_only_a_second_instance_leaves(
    delivered: bool,
    reason: String,
    taking_over: bool,
)
    ensures
        !must_leave(InstanceCheck::Primary, taking_over),
        !must_leave(InstanceCheck::Unknown(reason), taking_over),
        must_leave(InstanceCheck::Secondary { wakeup_delivered: delivered }, false),
        !must_leave(InstanceCheck::Secondary { wakeup_delivered: delivered }, true),
{
}

/// An argument counts wherever it stands among the others, and only as a whole.
pub proof fn law_argument_counts_anywhere(
    before: Seq<String>,
    arg: String,
    after: Seq<String>,
    wanted: Seq<char>,
)
    ensures
        !among(Seq::empty(), wanted),
        among(before + seq![arg] + after, arg@),
        arg@ != wanted && !among(before, wanted) ==> !among(before.push(arg), wanted),
{
    let args = before + seq![arg] + after;
    assert(args[before.len() as int] == arg);
    if arg@ != wanted && !among(before, wanted) {
        assert forall|i: int| 0 <= i < before.push(arg).len() implies (#[trigger] before.push(
            arg,
        )[i])@ != wanted by {
            if i < before.len() {
                assert(before[i]@ != wanted);
            }
        }
    }
}

} // verus!
