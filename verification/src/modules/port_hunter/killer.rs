//! Releasing a port: the checks that stand before a process is ended, the errors
//! that the attempt can bring and what the user is told of it.

use crate::bus::{is_toast, published, toasted, AppEvent, EventBus};
use crate::modules::port_hunter::scanner;
use crate::modules::port_hunter::scanner::{kernel_owner, reserved_port, system_service};
use crate::text::{
    decimal, decimal_of, eq_ignore_ascii_case, has_substring, law_ascii_case_is_ignored,
    law_part_is_found, lowercase,
    same_ignoring_ascii_case, same_letters, same_text,
};
use vstd::prelude::*;

verus! {

/// The Win32 code of a refused access.
pub const ERROR_ACCESS_DENIED: u32 = 5;

/// Why a target that was listed can no longer be ended.
#[derive(Debug, Clone, Copy, PartialEq, Eq, Structural)]
pub enum StaleCheck {
    /// The process cannot be opened any more.
    ProcessGone,
    /// The process has another image than the one that was listed.
    ImageChanged,
    /// The port is not held by the process any more.
    PortReleased,
}

impl StaleCheck {
    /// What the user is told.
    pub open spec fn text(self) -> Seq<char> {
        match self {
            StaleCheck::ProcessGone => "目标进程已退出"@,
            StaleCheck::ImageChanged => "目标进程身份已变化（PID 可能被复用）"@,
            StaleCheck::PortReleased => "该端口此刻已不由目标进程持有"@,
        }
    }

    /// What the user is told.
    pub fn describe(self) -> (r: &'static str)
        ensures
            r@ == self.text(),
    {
        match self {
            StaleCheck::ProcessGone => "目标进程已退出",
            StaleCheck::ImageChanged => "目标进程身份已变化（PID 可能被复用）",
            StaleCheck::PortReleased => "该端口此刻已不由目标进程持有",
        }
    }

    /// What the user is told.
    pub fn to_string(&self) -> (r: String)
        ensures
            r@ == self.text(),
    {
        self.describe().to_owned()
    }
}

/// Why a port could not be released, or the ports not be listed.
#[derive(Debug, Clone, Copy, PartialEq, Eq)]
pub enum PortError {
    /// An owner table could not be read.
    ScanFailed { context: &'static str, code: u32 },
    /// The process could not be opened.
    OpenProcessFailed { pid: u32, code: u32 },
    /// The process could not be ended.
    TerminateFailed { pid: u32, code: u32 },
    /// The target belongs to the system; nothing was attempted.
    ProtectedProcess { pid: u32, reason: &'static str },
    /// The target is not what was listed any more; nothing was attempted.
    StaleTarget { pid: u32, check: StaleCheck },
    /// Ports can be listed and released on Windows only.
    UnsupportedPlatform,
}

/// The Win32 error code of an error, where it has one.
pub open spec fn error_code(e: PortError) -> Option<u32> {
    match e {
        PortError::ScanFailed { context, code } => Some(code),
        PortError::OpenProcessFailed { pid, code } => Some(code),
        PortError::TerminateFailed { pid, code } => Some(code),
        PortError::ProtectedProcess { .. } => None,
        PortError::StaleTarget { .. } => None,
        PortError::UnsupportedPlatform => None,
    }
}

/// Whether the system refused access to the process.
pub open spec fn access_denied(e: PortError) -> bool {
    match e {
        PortError::OpenProcessFailed { pid, code } => code == ERROR_ACCESS_DENIED,
        PortError::TerminateFailed { pid, code } => code == ERROR_ACCESS_DENIED,
        _ => false,
    }
}

/// The summary of an error code: the number, and the name of the three codes that
/// have one.
pub open spec fn code_summary(code: Option<u32>) -> Seq<char> {
    match code {
        None => "不支持的平台"@,
        Some(c) => {
            let number = "Win32 错误码 "@ + decimal(c as nat);
            if c == 5 {
                number + " (ERROR_ACCESS_DENIED)"@
            } else if c == 87 {
                number + " (ERROR_INVALID_PARAMETER)"@
            } else if c == 6 {
                number + " (ERROR_INVALID_HANDLE)"@
            } else {
                number
            }
        },
    }
}

impl PortError {
    /// What the user is told.
    pub open spec fn text(self) -> Seq<char> {
        let summary = code_summary(error_code(self));
        match self {
            PortError::ScanFailed { context, code } => context@ + "失败: "@ + summary,
            PortError::OpenProcessFailed { pid, code } => "打开进程 (PID: "@ + decimal(pid as nat)
                + ") 失败: "@ + summary,
            PortError::TerminateFailed { pid, code } => "终止进程 (PID: "@ + decimal(pid as nat)
                + ") 失败: "@ + summary,
            PortError::ProtectedProcess { pid, reason } => "已拒绝终止系统关键进程 (PID: "@
                + decimal(pid as nat) + ")："@ + reason@
                + "（系统进程受保护，本工具不对其执行终止）"@,
            PortError::StaleTarget { pid, check } => "已中止终止 (PID: "@ + decimal(pid as nat)
                + ")："@ + check.text() + "，请刷新列表后重试"@,
            PortError::UnsupportedPlatform => "端口猎手仅支持 Windows 平台"@,
        }
    }

    /// Whether the system refused access to the process.
    pub fn is_access_denied(&self) -> (r: bool)
        ensures
            r == access_denied(*self),
    {
        match self {
            PortError::OpenProcessFailed { pid: _, code } => *code == ERROR_ACCESS_DENIED,
            PortError::TerminateFailed { pid: _, code } => *code == ERROR_ACCESS_DENIED,
            _ => false,
        }
    }

    /// Whether the target belongs to the system.
    pub fn is_protected(&self) -> (r: bool)
        ensures
            r == (*self is ProtectedProcess),
    {
        match self {
            PortError::ProtectedProcess { .. } => true,
            _ => false,
        }
    }

    /// Whether the target is not what was listed any more.
    pub fn is_stale(&self) -> (r: bool)
        ensures
            r == (*self is StaleTarget),
    {
        match self {
            PortError::StaleTarget { .. } => true,
            _ => false,
        }
    }

    /// The Win32 error code, where there is one.
    pub fn code(&self) -> (r: Option<u32>)
        ensures
            r == error_code(*self),
    {
        match self {
            PortError::ScanFailed { context: _, code } => Some(*code),
            PortError::OpenProcessFailed { pid: _, code } => Some(*code),
            PortError::TerminateFailed { pid: _, code } => Some(*code),
            PortError::ProtectedProcess { .. } => None,
            PortError::StaleTarget { .. } => None,
            PortError::UnsupportedPlatform => None,
        }
    }

    /// The summary of the error code.
    pub fn win32_summary(&self) -> (r: String)
        ensures
            r@ == code_summary(error_code(*self)),
    {
        match self.code() {
            None => "不支持的平台".to_owned(),
            Some(code) => {
                let mut r = "Win32 错误码 ".to_owned();
                r.append(decimal_of(code as u128).as_str());
                if code == 5 {
                    r.append(" (ERROR_ACCESS_DENIED)");
                } else if code == 87 {
                    r.append(" (ERROR_INVALID_PARAMETER)");
                } else if code == 6 {
                    r.append(" (ERROR_INVALID_HANDLE)");
                }
                r
            },
        }
    }

    /// What the user is told.
    pub fn to_string(&self) -> (r: String)
        ensures
            r@ == self.text(),
    {
        let summary = self.win32_summary();
        match self {
            PortError::ScanFailed { context, code: _ } => {
                let mut r = (*context).to_owned();
                r.append("失败: ");
                r.append(summary.as_str());
                r
            },
            PortError::OpenProcessFailed { pid, code: _ } => {
                let mut r = "打开进程 (PID: ".to_owned();
                r.append(decimal_of(*pid as u128).as_str());
                r.append(") 失败: ");
                r.append(summary.as_str());
                r
            },
            PortError::TerminateFailed { pid, code: _ } => {
                let mut r = "终止进程 (PID: ".to_owned();
                r.append(decimal_of(*pid as u128).as_str());
                r.append(") 失败: ");
                r.append(summary.as_str());
                r
            },
            PortError::ProtectedProcess { pid, reason } => {
                let mut r = "已拒绝终止系统关键进程 (PID: ".to_owned();
                r.append(decimal_of(*pid as u128).as_str());
                r.append(")：");
                r.append(reason);
                r.append("（系统进程受保护，本工具不对其执行终止）");
                r
            },
            PortError::StaleTarget { pid, check } => {
                let mut r = "已中止终止 (PID: ".to_owned();
                r.append(decimal_of(*pid as u128).as_str());
                r.append(")：");
                r.append(check.describe());
                r.append("，请刷新列表后重试");
                r
            },
            PortError::UnsupportedPlatform => "端口猎手仅支持 Windows 平台".to_owned(),
        }
    }
}

// ---------------------------------------------------------------------------
// The checks before a process is ended
// ---------------------------------------------------------------------------

/// Which stale target the identity check finds, comparing the image that the process
/// has now with the one that was listed. Without a listed name there is nothing to
/// compare.
pub open spec fn identity_failure(identity_name: Seq<char>, expected_name: Seq<char>) -> Option<
    StaleCheck,
> {
    if identity_name == scanner::UNKNOWN_PROCESS@ {
        Some(StaleCheck::ProcessGone)
    } else if expected_name.len() > 0 && expected_name != scanner::UNKNOWN_PROCESS@
        && !same_ignoring_ascii_case(identity_name, expected_name) {
        Some(StaleCheck::ImageChanged)
    } else {
        None
    }
}

/// The result of a check that found `failure`.
pub open spec fn stale_result(pid: u32, failure: Option<StaleCheck>) -> Result<(), PortError> {
    match failure {
        Some(check) => Err(PortError::StaleTarget { pid, check }),
        None => Ok(()),
    }
}

/// Checks that the process is still the one that was listed.
pub fn check_identity(pid: u32, identity_name: &str, expected_name: &str) -> (r: Result<
    (),
    PortError,
>)
    ensures
        r == stale_result(pid, identity_failure(identity_name@, expected_name@)),
{
    if same_text(identity_name, scanner::UNKNOWN_PROCESS) {
        return Err(PortError::StaleTarget { pid, check: StaleCheck::ProcessGone });
    }
    if !expected_name.is_empty() && !same_text(expected_name, scanner::UNKNOWN_PROCESS)
        && !eq_ignore_ascii_case(identity_name, expected_name) {
        return Err(PortError::StaleTarget { pid, check: StaleCheck::ImageChanged });
    }
    Ok(())
}

/// Which stale target the freshness check finds: the port must be held by the
/// process itself.
pub open spec fn freshness_failure(pid: u32, owner: Option<u32>) -> Option<StaleCheck> {
    if owner == Some(pid) {
        None
    } else {
        Some(StaleCheck::PortReleased)
    }
}

/// Checks that the process still holds the port.
pub fn check_port_freshness(pid: u32, owner: Option<u32>) -> (r: Result<(), PortError>)
    ensures
        r == stale_result(pid, freshness_failure(pid, owner)),
{
    match owner {
        Some(owner_pid) if owner_pid == pid => Ok(()),
        _ => Err(PortError::StaleTarget { pid, check: StaleCheck::PortReleased }),
    }
}

/// Whether a target may never be ended. What is shown in the list has no part in it.
pub open spec fn protected_target(pid: u32, process_name: Seq<char>, port: u16) -> bool {
    system_service(pid, process_name, port)
}

/// Whether a target may never be ended.
pub fn is_protected_target(pid: u32, process_name: &str, port: u16) -> (r: bool)
    ensures
        r == protected_target(pid, process_name@, port),
{
    scanner::is_kernel_owner(pid) || scanner::is_system_service_entry(pid, process_name, port)
}

/// Why a target is protected.
pub open spec fn protection_reason(pid: u32, process_name: Seq<char>, port: u16) -> &'static str {
    if kernel_owner(pid) {
        "目标为内核态系统进程（PID ≤ 4）"
    } else if reserved_port(port) {
        "目标占用系统保留端口"
    } else if system_service(pid, process_name, port) {
        "目标为 Windows 系统服务镜像"
    } else {
        "目标命中系统关键进程保护清单"
    }
}

/// Why a target is protected.
pub fn protected_reason(pid: u32, process_name: &str, port: u16) -> (r: &'static str)
    ensures
        r == protection_reason(pid, process_name@, port),
{
    if scanner::is_kernel_owner(pid) {
        return "目标为内核态系统进程（PID ≤ 4）";
    }
    if scanner::is_system_service_entry(pid, process_name, port) {
        if scanner::is_reserved_port(port) {
            return "目标占用系统保留端口";
        }
        return "目标为 Windows 系统服务镜像";
    }
    "目标命中系统关键进程保护清单"
}

// ---------------------------------------------------------------------------
// One attempt, step by step
// ---------------------------------------------------------------------------

/// What an attempt to release a port has to do next.
#[derive(Debug, Clone, Copy, PartialEq, Eq)]
pub enum KillStep {
    /// Query the image name of the process.
    Identify,
    /// Look up who holds the port.
    ProbeOwner,
    /// Open the process for termination.
    Open,
    /// End the process.
    Terminate,
    /// Nothing any more; this is the result.
    Done(Result<(), PortError>),
}

/// What came of a step. A failure of the system is given as its result code.
#[derive(Debug, PartialEq, Eq)]
pub enum KillEvent {
    /// The image name, or [`scanner::UNKNOWN_PROCESS`].
    Identity(String),
    /// The holder of the port, if there is one, or why the tables could not be read.
    Owner(Result<Option<u32>, PortError>),
    Opened(Result<(), u32>),
    Terminated(Result<(), u32>),
}

/// A request to release a port.
#[derive(Debug, PartialEq, Eq)]
pub struct KillRequest {
    pub pid: u32,
    pub port: u16,
    /// The image name that was listed; empty or [`scanner::UNKNOWN_PROCESS`] where
    /// there was none.
    pub expected_name: String,
}

/// The Win32 code inside a result code: its low 16 bits.
pub fn win32_code(result_code: u32) -> (r: u32)
    ensures
        r == result_code % 0x1_0000,
{
    result_code % 0x1_0000
}

/// The step that follows the first one for a process with this image name.
pub open spec fn after_identity(req: KillRequest, name: Seq<char>) -> KillStep {
    if protected_target(req.pid, name, req.port) {
        KillStep::Done(
            Err(
                PortError::ProtectedProcess {
                    pid: req.pid,
                    reason: protection_reason(req.pid, name, req.port),
                },
            ),
        )
    } else {
        match identity_failure(name, req.expected_name@) {
            Some(check) => KillStep::Done(Err(PortError::StaleTarget { pid: req.pid, check })),
            None => KillStep::ProbeOwner,
        }
    }
}

/// The step that follows the lookup of the port's holder. Where the lookup itself
/// failed the attempt goes on.
pub open spec fn after_owner(req: KillRequest, owner: Result<Option<u32>, PortError>) -> KillStep {
    match owner {
        Ok(holder) => match freshness_failure(req.pid, holder) {
            Some(check) => KillStep::Done(Err(PortError::StaleTarget { pid: req.pid, check })),
            None => KillStep::Open,
        },
        Err(_) => KillStep::Open,
    }
}

/// The step that follows `step` when `event` came of it. An event of another step
/// changes nothing.
pub open spec fn next_step(req: KillRequest, step: KillStep, event: KillEvent) -> KillStep {
    match (step, event) {
        (KillStep::Identify, KillEvent::Identity(name)) => after_identity(req, name@),
        (KillStep::ProbeOwner, KillEvent::Owner(owner)) => after_owner(req, owner),
        (KillStep::Open, KillEvent::Opened(Ok(_))) => KillStep::Terminate,
        (KillStep::Open, KillEvent::Opened(Err(c))) => KillStep::Done(
            Err(PortError::OpenProcessFailed { pid: req.pid, code: (c % 0x1_0000) as u32 }),
        ),
        (KillStep::Terminate, KillEvent::Terminated(Ok(_))) => KillStep::Done(Ok(())),
        (KillStep::Terminate, KillEvent::Terminated(Err(c))) => KillStep::Done(
            Err(PortError::TerminateFailed { pid: req.pid, code: (c % 0x1_0000) as u32 }),
        ),
        _ => step,
    }
}

impl KillRequest {
    /// The step that follows `step` when `event` came of it.
    pub fn advance(&self, step: KillStep, event: &KillEvent) -> (r: KillStep)
        ensures
            r == next_step(*self, step, *event),
    {
        match (step, event) {
            (KillStep::Identify, KillEvent::Identity(name)) => {
                if is_protected_target(self.pid, name.as_str(), self.port) {
                    let reason = protected_reason(self.pid, name.as_str(), self.port);
                    return KillStep::Done(Err(PortError::ProtectedProcess { pid: self.pid, reason }));
                }
                match check_identity(self.pid, name.as_str(), self.expected_name.as_str()) {
                    Err(error) => KillStep::Done(Err(error)),
                    Ok(()) => KillStep::ProbeOwner,
                }
            },
            (KillStep::ProbeOwner, KillEvent::Owner(Ok(owner))) => {
                match check_port_freshness(self.pid, *owner) {
                    Err(error) => KillStep::Done(Err(error)),
                    Ok(()) => KillStep::Open,
                }
            },
            (KillStep::ProbeOwner, KillEvent::Owner(Err(_))) => KillStep::Open,
            (KillStep::Open, KillEvent::Opened(Ok(_))) => KillStep::Terminate,
            (KillStep::Open, KillEvent::Opened(Err(code))) => KillStep::Done(
                Err(PortError::OpenProcessFailed { pid: self.pid, code: win32_code(*code) }),
            ),
            (KillStep::Terminate, KillEvent::Terminated(Ok(_))) => KillStep::Done(Ok(())),
            (KillStep::Terminate, KillEvent::Terminated(Err(code))) => KillStep::Done(
                Err(PortError::TerminateFailed { pid: self.pid, code: win32_code(*code) }),
            ),
            _ => step,
        }
    }
}

/// The step that an attempt has reached after `events`.
pub open spec fn step_after(req: KillRequest, events: Seq<KillEvent>) -> KillStep
    decreases events.len(),
{
    if events.len() == 0 {
        KillStep::Identify
    } else {
        next_step(req, step_after(req, events.drop_last()), events.last())
    }
}

/// Whether the process was found to be the listed one and none of the system's.
pub open spec fn identity_passed(req: KillRequest, events: Seq<KillEvent>) -> bool {
    exists|i: int|
        0 <= i < events.len() && ((#[trigger] events[i]) matches KillEvent::Identity(name)
            && !protected_target(req.pid, name@, req.port) && identity_failure(
            name@,
            req.expected_name@,
        ) is None)
}

/// Whether the port was found to be held by the process, or its holder could not be
/// looked up.
pub open spec fn ownership_passed(req: KillRequest, events: Seq<KillEvent>) -> bool {
    exists|i: int|
        0 <= i < events.len() && ((#[trigger] events[i]) matches KillEvent::Owner(owner) && (
        owner is Err || owner == Ok::<Option<u32>, PortError>(Some(req.pid))))
}

/// Whether the process was opened.
pub open spec fn opened(events: Seq<KillEvent>) -> bool {
    exists|i: int|
        0 <= i < events.len() && ((#[trigger] events[i]) matches KillEvent::Opened(r) && r is Ok)
}

/// Whether the process was ended.
pub open spec fn terminated(events: Seq<KillEvent>) -> bool {
    exists|i: int|
        0 <= i < events.len() && ((#[trigger] events[i]) matches KillEvent::Terminated(r) && r
            is Ok)
}

/// No process is opened, let alone ended, unless it passed the protection, identity
/// and ownership checks before; and success is reported only of a process that
/// was ended.
pub proof fn law_checks_come_first(req: KillRequest, events: Seq<KillEvent>)
    ensures
        step_after(req, events) is Open ==> identity_passed(req, events) && ownership_passed(
            req,
            events,
        ),
        step_after(req, events) is Terminate ==> identity_passed(req, events)
            && ownership_passed(req, events) && opened(events),
        step_after(req, events) == KillStep::Done(Ok(())) ==> identity_passed(req, events)
            && ownership_passed(req, events) && opened(events) && terminated(events),
{
    lemma_checks_passed(req, events);
}

proof fn lemma_checks_passed(req: KillRequest, events: Seq<KillEvent>)
    ensures
        ({
            let step = step_after(req, events);
            let ended = step == KillStep::Done(Ok(()));
            &&& (step is ProbeOwner || step is Open || step is Terminate || ended)
                ==> identity_passed(req, events)
            &&& (step is Open || step is Terminate || ended) ==> ownership_passed(req, events)
            &&& (step is Terminate || ended) ==> opened(events)
            &&& ended ==> terminated(events)
        }),
    decreases events.len(),
{
    if events.len() > 0 {
        let before = events.drop_last();
        lemma_checks_passed(req, before);
        assert forall|i: int| 0 <= i < before.len() implies #[trigger] before[i] == events[i] by {}
        assert(events[events.len() - 1] == events.last());
        if identity_passed(req, before) {
            let i = choose|i: int|
                0 <= i < before.len() && ((#[trigger] before[i]) matches KillEvent::Identity(name)
                    && !protected_target(req.pid, name@, req.port) && identity_failure(
                    name@,
                    req.expected_name@,
                ) is None);
            assert(events[i] == before[i]);
        }
        if ownership_passed(req, before) {
            let i = choose|i: int|
                0 <= i < before.len() && ((#[trigger] before[i]) matches KillEvent::Owner(owner)
                    && (owner is Err || owner == Ok::<Option<u32>, PortError>(Some(req.pid))));
            assert(events[i] == before[i]);
        }
        if opened(before) {
            let i = choose|i: int|
                0 <= i < before.len() && ((#[trigger] before[i]) matches KillEvent::Opened(r)
                    && r is Ok);
            assert(events[i] == before[i]);
        }
        if terminated(before) {
            let i = choose|i: int|
                0 <= i < before.len() && ((#[trigger] before[i]) matches KillEvent::Terminated(r)
                    && r is Ok);
            assert(events[i] == before[i]);
        }
    }
}

/// A target of the system is refused at once, whatever image name was listed for it,
/// and the attempt ends there whatever else is reported.
pub proof fn law_protected_target_is_refused(
    req: KillRequest,
    name: String,
    later: Seq<KillEvent>,
)
    requires
        protected_target(req.pid, name@, req.port),
    ensures
        step_after(req, seq![KillEvent::Identity(name)] + later) == KillStep::Done(
            Err(
                PortError::ProtectedProcess {
                    pid: req.pid,
                    reason: protection_reason(req.pid, name@, req.port),
                },
            ),
        ),
    decreases later.len(),
{
    let first = seq![KillEvent::Identity(name)];
    if later.len() == 0 {
        assert(first + later =~= first);
        assert(first.drop_last() =~= Seq::<KillEvent>::empty());
        assert(step_after(req, first.drop_last()) is Identify);
    } else {
        law_protected_target_is_refused(req, name, later.drop_last());
        assert((first + later).drop_last() =~= first + later.drop_last());
        assert((first + later).last() == later.last());
    }
}

// ---------------------------------------------------------------------------
// Results and feedback
// ---------------------------------------------------------------------------

/// Releases a port by ending the process that holds it. Only Windows can do it; this
/// is the answer of every other platform. On Windows an attempt goes through
/// [`KillRequest::advance`].
pub fn kill_process_and_release_port(
    pid: u32,
    port: u16,
    protocol: &str,
    expected_name: &str,
) -> (r: Result<(), PortError>)
    ensures
        r == Err::<(), PortError>(PortError::UnsupportedPlatform),
{
    let _ = (pid, port, protocol, expected_name);
    Err(PortError::UnsupportedPlatform)
}

/// The toast that announces a released port.
pub open spec fn released_text(port: u16, process_name: Seq<char>, pid: u32) -> Seq<char> {
    "已成功释放端口 "@ + decimal(port as nat) + "，结束进程 "@ + process_name + " (PID: "@
        + decimal(pid as nat) + ")"@
}

/// The toast that an outcome calls for: one on success, one where access was
/// refused, none for any other failure.
pub open spec fn feedback_text(
    outcome: Result<(), PortError>,
    pid: u32,
    port: u16,
    process_name: Seq<char>,
) -> Option<Seq<char>> {
    match outcome {
        Ok(_) => Some(released_text(port, process_name, pid)),
        Err(error) => if access_denied(error) {
            Some("需要管理员权限，请通过顶部盾牌提权运行"@)
        } else {
            None
        },
    }
}

/// The event that an outcome calls for.
pub fn kill_feedback(
    outcome: &Result<(), PortError>,
    pid: u32,
    port: u16,
    process_name: &str,
) -> (r: Option<AppEvent>)
    ensures
        match feedback_text(*outcome, pid, port, process_name@) {
            Some(text) => r is Some && is_toast(r->0, text),
            None => r is None,
        },
{
    match outcome {
        Ok(_) => {
            let mut text = "已成功释放端口 ".to_owned();
            text.append(decimal_of(port as u128).as_str());
            text.append("，结束进程 ");
            text.append(process_name);
            text.append(" (PID: ");
            text.append(decimal_of(pid as u128).as_str());
            text.append(")");
            Some(AppEvent::ToastRequested(text))
        },
        Err(error) => {
            if error.is_access_denied() {
                Some(AppEvent::ToastRequested("需要管理员权限，请通过顶部盾牌提权运行".to_owned()))
            } else {
                None
            }
        },
    }
}

/// Publishes the toast that `outcome` calls for, where there is a bus, and hands the
/// outcome on unchanged.
pub fn announce_kill(
    bus: Option<&EventBus>,
    outcome: Result<(), PortError>,
    pid: u32,
    port: u16,
    process_name: &str,
) -> (r: Result<(), PortError>)
    ensures
        r == outcome,
        feedback_text(outcome, pid, port, process_name@) matches Some(text) ==> toasted(
            match bus {
                Some(b) => Some(*b),
                None => None,
            },
            text,
        ),
{
    if let Some(bus) = bus {
        if let Some(event) = kill_feedback(&outcome, pid, port, process_name) {
            let ghost sent = event;
            bus.publish(event);
            proof {
                let outlet = Some(*bus);
                assert(published(outlet->0, sent));
            }
        }
    }
    outcome
}

/// Releases a port and publishes the toast that the outcome calls for. The listed
/// name serves the identity check too.
pub fn kill_process_with_events(
    bus: Option<&EventBus>,
    pid: u32,
    port: u16,
    protocol: &str,
    process_name: &str,
) -> (r: Result<(), PortError>)
    ensures
        r == Err::<(), PortError>(PortError::UnsupportedPlatform),
{
    let outcome = kill_process_and_release_port(pid, port, protocol, process_name);
    announce_kill(bus, outcome, pid, port, process_name)
}

/// An attempt is refused as one on the system if and only if the owner is the kernel, its
/// image is one of the system's in any case, or the port is one of the built-in services.
/// No other target is protected, whatever its port or its name.
pub proof fn law_only_the_system_is_protected(req: KillRequest, name: String)
    ensures
        (next_step(req, KillStep::Identify, KillEvent::Identity(name)) matches KillStep::Done(
            Err(PortError::ProtectedProcess { .. }),
        )) <==> req.pid <= 4 || seq![
            "svchost.exe"@,
            "lsass.exe"@,
            "services.exe"@,
            "spoolsv.exe"@,
            "dwm.exe"@,
            "csrss.exe"@,
            "wininit.exe"@,
            "smss.exe"@,
        ].contains(lowercase(name@)) || seq![
            135u16,
            137,
            138,
            139,
            445,
            1900,
            5353,
            5355,
            5357,
        ].contains(req.port),
{
    scanner::law_reserved_ports(req.port);
    scanner::law_system_images(lowercase(name@));
}

/// Whether the image that a process has now is the one that was listed, as far as one was:
/// the same letters, whatever their case.
pub open spec fn still_the_same(req: KillRequest, name: Seq<char>) -> bool {
    ||| req.expected_name@.len() == 0
    ||| req.expected_name@ == "<unknown>"@
    ||| same_letters(name, req.expected_name@)
}

/// A port is released wherever nothing speaks against it: the owner is none of the
/// system's, it still has the image that was listed and still holds the port, or nobody
/// can tell who holds it, and it lets itself be opened and ended.
pub proof fn law_ordinary_target_is_released(req: KillRequest, name: String, unknown: PortError)
    requires
        req.pid > 4,
        !seq![
            "svchost.exe"@,
            "lsass.exe"@,
            "services.exe"@,
            "spoolsv.exe"@,
            "dwm.exe"@,
            "csrss.exe"@,
            "wininit.exe"@,
            "smss.exe"@,
        ].contains(lowercase(name@)),
        !seq![135u16, 137, 138, 139, 445, 1900, 5353, 5355, 5357].contains(req.port),
        name@ != "<unknown>"@,
        still_the_same(req, name@),
    ensures
        next_step(req, KillStep::Identify, KillEvent::Identity(name)) is ProbeOwner,
        step_after(
            req,
            seq![
                KillEvent::Identity(name),
                KillEvent::Owner(Ok(Some(req.pid))),
                KillEvent::Opened(Ok(())),
                KillEvent::Terminated(Ok(())),
            ],
        ) == KillStep::Done(Ok(())),
        step_after(
            req,
            seq![
                KillEvent::Identity(name),
                KillEvent::Owner(Err(unknown)),
                KillEvent::Opened(Ok(())),
                KillEvent::Terminated(Ok(())),
            ],
        ) == KillStep::Done(Ok(())),
{
    scanner::law_reserved_ports(req.port);
    scanner::law_system_images(lowercase(name@));
    law_ascii_case_is_ignored(name@, req.expected_name@);
    lemma_four_events(
        req,
        KillEvent::Identity(name),
        KillEvent::Owner(Ok(Some(req.pid))),
        KillEvent::Opened(Ok(())),
        KillEvent::Terminated(Ok(())),
    );
    lemma_four_events(
        req,
        KillEvent::Identity(name),
        KillEvent::Owner(Err(unknown)),
        KillEvent::Opened(Ok(())),
        KillEvent::Terminated(Ok(())),
    );
}

proof fn lemma_four_events(
    req: KillRequest,
    a: KillEvent,
    b: KillEvent,
    c: KillEvent,
    d: KillEvent,
)
    ensures
        step_after(req, seq![a, b, c, d]) == next_step(
            req,
            next_step(req, next_step(req, next_step(req, KillStep::Identify, a), b), c),
            d,
        ),
{
    reveal_with_fuel(step_after, 5);
    assert(seq![a, b, c, d].drop_last() =~= seq![a, b, c]);
    assert(seq![a, b, c].drop_last() =~= seq![a, b]);
    assert(seq![a, b].drop_last() =~= seq![a]);
    assert(seq![a].drop_last() =~= Seq::<KillEvent>::empty());
}

/// A process that is gone, or that has another image than the one that was listed, is left
/// alone, and the user is told which of the two it is.
pub proof fn law_changed_process_is_left_alone(req: KillRequest, name: String)
    requires
        req.pid > 4,
        !seq![
            "svchost.exe"@,
            "lsass.exe"@,
            "services.exe"@,
            "spoolsv.exe"@,
            "dwm.exe"@,
            "csrss.exe"@,
            "wininit.exe"@,
            "smss.exe"@,
        ].contains(lowercase(name@)),
        !seq![135u16, 137, 138, 139, 445, 1900, 5353, 5355, 5357].contains(req.port),
    ensures
        name@ == "<unknown>"@ ==> next_step(req, KillStep::Identify, KillEvent::Identity(name))
            == KillStep::Done(
            Err(PortError::StaleTarget { pid: req.pid, check: StaleCheck::ProcessGone }),
        ),
        name@ != "<unknown>"@ && !still_the_same(req, name@) ==> next_step(
            req,
            KillStep::Identify,
            KillEvent::Identity(name),
        ) == KillStep::Done(
            Err(PortError::StaleTarget { pid: req.pid, check: StaleCheck::ImageChanged }),
        ),
{
    scanner::law_reserved_ports(req.port);
    scanner::law_system_images(lowercase(name@));
    law_ascii_case_is_ignored(name@, req.expected_name@);
}

/// A process that does not hold the port any more is left alone, be the port free or held
/// by another one; and what is through stays so.
pub proof fn law_port_must_still_be_held(
    req: KillRequest,
    holder: Option<u32>,
    outcome: Result<(), PortError>,
    event: KillEvent,
)
    ensures
        holder == Some(req.pid) ==> next_step(
            req,
            KillStep::ProbeOwner,
            KillEvent::Owner(Ok(holder)),
        ) is Open,
        holder != Some(req.pid) ==> next_step(
            req,
            KillStep::ProbeOwner,
            KillEvent::Owner(Ok(holder)),
        ) == KillStep::Done(
            Err(PortError::StaleTarget { pid: req.pid, check: StaleCheck::PortReleased }),
        ),
        next_step(req, KillStep::Done(outcome), event) == KillStep::Done(outcome),
{
}

/// A refusal of the system is reported with the Win32 code at the low end of its result
/// code, whatever stands before it, and counts as one for want of rights where that code
/// is five.
pub proof fn law_refusal_is_reported_with_its_code(req: KillRequest, high: u16, low: u16)
    ensures
        ({
            let code = (high * 0x1_0000 + low) as u32;
            let unopened = PortError::OpenProcessFailed { pid: req.pid, code: low as u32 };
            let unended = PortError::TerminateFailed { pid: req.pid, code: low as u32 };
            &&& next_step(req, KillStep::Open, KillEvent::Opened(Err(code))) == KillStep::Done(
                Err(unopened),
            )
            &&& next_step(req, KillStep::Terminate, KillEvent::Terminated(Err(code)))
                == KillStep::Done(Err(unended))
            &&& access_denied(unopened) <==> low == 5
            &&& access_denied(unended) <==> low == 5
            &&& error_code(unopened) == Some(low as u32)
            &&& error_code(unended) == Some(low as u32)
        }),
{
}

/// The user is told of a release and of a want of rights, and of nothing else: other
/// failures are shown where the release was asked for.
pub proof fn law_toast_only_on_success_or_refusal(
    outcome: Result<(), PortError>,
    pid: u32,
    port: u16,
    process_name: Seq<char>,
)
    ensures
        feedback_text(outcome, pid, port, process_name) is Some <==> outcome is Ok || (outcome
            matches Err(PortError::OpenProcessFailed { code, .. }) && code == 5) || (outcome
            matches Err(PortError::TerminateFailed { code, .. }) && code == 5),
        outcome is Ok ==> feedback_text(outcome, pid, port, process_name) == Some(
            "已成功释放端口 "@ + decimal(port as nat) + "，结束进程 "@ + process_name + " (PID: "@
                + decimal(pid as nat) + ")"@,
        ),
        outcome is Err && feedback_text(outcome, pid, port, process_name) is Some
            ==> feedback_text(outcome, pid, port, process_name) == Some(
            "需要管理员权限，请通过顶部盾牌提权运行"@,
        ),
{
}

/// Each of the checks by itself: who is protected and why, which image counts as changed,
/// and who has to hold the port.
pub proof fn law_checks_by_themselves(
    pid: u32,
    name: Seq<char>,
    expected: Seq<char>,
    port: u16,
    owner: Option<u32>,
)
    ensures
        protected_target(pid, name, port) <==> pid <= 4 || seq![
            "svchost.exe"@,
            "lsass.exe"@,
            "services.exe"@,
            "spoolsv.exe"@,
            "dwm.exe"@,
            "csrss.exe"@,
            "wininit.exe"@,
            "smss.exe"@,
        ].contains(lowercase(name)) || seq![
            135u16,
            137,
            138,
            139,
            445,
            1900,
            5353,
            5355,
            5357,
        ].contains(port),
        pid <= 4 ==> protection_reason(pid, name, port)@ == "目标为内核态系统进程（PID ≤ 4）"@,
        pid > 4 && reserved_port(port) ==> protection_reason(pid, name, port)@
            == "目标占用系统保留端口"@,
        pid > 4 && !reserved_port(port) && protected_target(pid, name, port)
            ==> protection_reason(pid, name, port)@ == "目标为 Windows 系统服务镜像"@,
        identity_failure(name, expected) == Some(StaleCheck::ProcessGone) <==> name
            == "<unknown>"@,
        identity_failure(name, expected) == Some(StaleCheck::ImageChanged) <==> name
            != "<unknown>"@ && expected.len() > 0 && expected != "<unknown>"@ && !same_letters(
            name,
            expected,
        ),
        identity_failure(name, expected) != Some(StaleCheck::PortReleased),
        owner == Some(pid) ==> freshness_failure(pid, owner) is None,
        owner != Some(pid) ==> freshness_failure(pid, owner) == Some(StaleCheck::PortReleased),
{
    scanner::law_reserved_ports(port);
    scanner::law_system_images(lowercase(name));
    law_ascii_case_is_ignored(name, expected);
}

/// A check that finds nothing passes, and one that finds something fails with just that,
/// for the process that was asked about.
pub proof fn law_check_reports_what_it_found(pid: u32, check: StaleCheck)
    ensures
        stale_result(pid, None) is Ok,
        stale_result(pid, Some(check)) == Err::<(), PortError>(
            PortError::StaleTarget { pid, check },
        ),
{
}

/// What the user is told of a failure names the process and the code.
pub proof fn law_failure_names_process_and_code(pid: u32, code: u32)
    ensures
        has_substring((PortError::OpenProcessFailed { pid, code }).text(), decimal(pid as nat)),
        has_substring((PortError::TerminateFailed { pid, code }).text(), decimal(pid as nat)),
        has_substring(code_summary(Some(code)), decimal(code as nat)),
{
    let p = decimal(pid as nat);
    let summary = code_summary(Some(code));
    let end = ") 失败: "@;
    let opening = "打开进程 (PID: "@;
    let ending = "终止进程 (PID: "@;
    law_part_is_found(opening, p, end + summary);
    assert(opening + p + (end + summary) =~= (PortError::OpenProcessFailed { pid, code }).text());
    law_part_is_found(ending, p, end + summary);
    assert(ending + p + (end + summary) =~= (PortError::TerminateFailed { pid, code }).text());
    let c = decimal(code as nat);
    let front = "Win32 错误码 "@;
    law_part_is_found(front, c, Seq::empty());
    assert(front + c + Seq::<char>::empty() =~= front + c);
    law_part_is_found(front, c, " (ERROR_ACCESS_DENIED)"@);
    law_part_is_found(front, c, " (ERROR_INVALID_PARAMETER)"@);
    law_part_is_found(front, c, " (ERROR_INVALID_HANDLE)"@);
}

} // verus!
