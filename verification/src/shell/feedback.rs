//! What is noted of an action in the audit log and what the user is told of it.

use crate::modules::port_hunter::killer::{access_denied, PortError};
use crate::modules::port_hunter::KillReport;
use crate::shell::settings::{key_of, parse_dir_key, DirKey};
use crate::shell::topmost::{find_pinned, pinned_entry, PinnedWindow};
use crate::text::{
    decimal, decimal_of, decimal_of_signed, decimal_signed, hex, hex_of, same_text,
};
use vstd::prelude::*;

verus! {

/// An entry of the audit log, and a toast where there is one.
#[derive(Debug, PartialEq, Eq)]
pub struct Feedback {
    pub category: &'static str,
    pub detail: String,
    pub result: String,
    pub toast: Option<String>,
}

/// Whether `f` consists of these texts.
pub open spec fn says(
    f: Feedback,
    category: Seq<char>,
    detail: Seq<char>,
    result: Seq<char>,
    toast: Option<Seq<char>>,
) -> bool {
    &&& f.category@ == category
    &&& f.detail@ == detail
    &&& f.result@ == result
    &&& match toast {
        Some(text) => f.toast is Some && f.toast->0@ == text,
        None => f.toast is None,
    }
}

/// Two texts in a row.
fn join2(a: &str, b: &str) -> (r: String)
    ensures
        r@ == a@ + b@,
{
    let mut r = a.to_owned();
    r.append(b);
    r
}

/// `开启` or `关闭`.
pub open spec fn switch_text(on: bool) -> Seq<char> {
    if on {
        "开启"@
    } else {
        "关闭"@
    }
}

/// `开启` or `关闭`.
pub fn switch_word(on: bool) -> (r: &'static str)
    ensures
        r@ == switch_text(on),
{
    if on {
        "开启"
    } else {
        "关闭"
    }
}

// ---------------------------------------------------------------------------
// Ports
// ---------------------------------------------------------------------------

/// The line above the list of ports.
pub fn port_status(total: usize, shown: usize, show_system_ports: bool) -> (r: String)
    ensures
        r@ == "共 "@ + decimal(total as nat) + " 个监听端口 · 当前展示 "@ + decimal(
            shown as nat,
        ) + " 个"@ + (if show_system_ports {
            "（显示系统服务与高位端口）"@
        } else {
            ""@
        }),
{
    let mut r = "共 ".to_owned();
    r.append(decimal_of(total as u128).as_str());
    r.append(" 个监听端口 · 当前展示 ");
    r.append(decimal_of(shown as u128).as_str());
    r.append(" 个");
    r.append(
        if show_system_ports {
            "（显示系统服务与高位端口）"
        } else {
            ""
        },
    );
    r
}

/// A scan that failed.
pub fn scan_failed(error: &PortError) -> (r: Feedback)
    ensures
        says(
            r,
            "PORT_HUNTER"@,
            "扫描监听端口"@,
            "失败: "@ + error.text(),
            Some("端口扫描失败："@ + error.text()),
        ),
{
    let text = error.to_string();
    Feedback {
        category: "PORT_HUNTER",
        detail: "扫描监听端口".to_owned(),
        result: join2("失败: ", text.as_str()),
        toast: Some(join2("端口扫描失败：", text.as_str())),
    }
}

/// A scan whose task failed.
pub fn scan_task_failed(reason: &str) -> (r: Feedback)
    ensures
        says(
            r,
            "PORT_HUNTER"@,
            "扫描监听端口"@,
            "任务异常: "@ + reason@,
            Some("端口扫描任务异常，请重试"@),
        ),
{
    Feedback {
        category: "PORT_HUNTER",
        detail: "扫描监听端口".to_owned(),
        result: join2("任务异常: ", reason),
        toast: Some("端口扫描任务异常，请重试".to_owned()),
    }
}

/// The name of an option of the port hunter.
pub open spec fn option_label(field: Seq<char>) -> Seq<char> {
    if field == "confirm"@ {
        "二次确认"@
    } else {
        "显示系统服务与高位端口"@
    }
}

/// An option of the port hunter that was set, and saved or not.
pub fn option_set(field: &str, value: bool, saved: &Result<(), String>) -> (r: Feedback)
    ensures
        ({
            let label = option_label(field@);
            says(
                r,
                "PORT_HUNTER"@,
                "配置选项: "@ + label + " -> "@ + switch_text(value),
                match *saved {
                    Ok(_) => "成功"@,
                    Err(reason) => "保存失败: "@ + reason@,
                },
                Some(
                    match *saved {
                        Ok(_) => label + "已"@ + switch_text(value),
                        Err(_) => "配置保存失败，请重试"@,
                    },
                ),
            )
        }),
{
    let label = if same_text(field, "confirm") {
        "二次确认"
    } else {
        "显示系统服务与高位端口"
    };
    let mut detail = join2("配置选项: ", label);
    detail.append(" -> ");
    detail.append(switch_word(value));
    match saved {
        Ok(_) => {
            let mut toast = join2(label, "已");
            toast.append(switch_word(value));
            Feedback {
                category: "PORT_HUNTER",
                detail,
                result: "成功".to_owned(),
                toast: Some(toast),
            }
        },
        Err(reason) => Feedback {
            category: "PORT_HUNTER",
            detail,
            result: join2("保存失败: ", reason.as_str()),
            toast: Some("配置保存失败，请重试".to_owned()),
        },
    }
}

/// What is noted of an attempt to release a port.
pub open spec fn kill_note(
    port: u16,
    protocol: Seq<char>,
    process_name: Seq<char>,
    pid: u32,
) -> Seq<char> {
    "释放端口: "@ + decimal(port as nat) + " ("@ + protocol + "), 终止进程: "@ + process_name
        + " (PID: "@ + decimal(pid as nat) + ")"@
}

/// An attempt to release a port. Success and refused access have been announced
/// already, so they bring no toast here.
pub fn port_released(pid: u32, port: u16, protocol: &str, report: &KillReport) -> (r: Feedback)
    ensures
        says(
            r,
            "PORT_HUNTER"@,
            kill_note(port, protocol@, report.process_name@, pid),
            match report.outcome {
                Ok(_) => "成功"@,
                Err(error) => if access_denied(error) {
                    "失败: 需要管理员权限（UIPI 拦截）"@
                } else {
                    "失败: "@ + error.text()
                },
            },
            match report.outcome {
                Ok(_) => None,
                Err(error) => if access_denied(error) {
                    None
                } else {
                    Some("释放端口 "@ + decimal(port as nat) + " 失败："@ + error.text())
                },
            },
        ),
{
    let mut detail = join2("释放端口: ", decimal_of(port as u128).as_str());
    detail.append(" (");
    detail.append(protocol);
    detail.append("), 终止进程: ");
    detail.append(report.process_name.as_str());
    detail.append(" (PID: ");
    detail.append(decimal_of(pid as u128).as_str());
    detail.append(")");
    match &report.outcome {
        Ok(_) => Feedback {
            category: "PORT_HUNTER",
            detail,
            result: "成功".to_owned(),
            toast: None,
        },
        Err(error) => {
            if error.is_access_denied() {
                Feedback {
                    category: "PORT_HUNTER",
                    detail,
                    result: "失败: 需要管理员权限（UIPI 拦截）".to_owned(),
                    toast: None,
                }
            } else {
                let text = error.to_string();
                let mut toast = join2("释放端口 ", decimal_of(port as u128).as_str());
                toast.append(" 失败：");
                toast.append(text.as_str());
                Feedback {
                    category: "PORT_HUNTER",
                    detail,
                    result: join2("失败: ", text.as_str()),
                    toast: Some(toast),
                }
            }
        },
    }
}

/// An attempt to release a port whose task failed.
pub fn release_task_failed(port: u16, protocol: &str, reason: &str) -> (r: Feedback)
    ensures
        says(
            r,
            "PORT_HUNTER"@,
            "释放端口: "@ + decimal(port as nat) + " ("@ + protocol@ + ")"@,
            "任务异常: "@ + reason@,
            Some("释放端口任务异常，请重试"@),
        ),
{
    let mut detail = join2("释放端口: ", decimal_of(port as u128).as_str());
    detail.append(" (");
    detail.append(protocol);
    detail.append(")");
    Feedback {
        category: "PORT_HUNTER",
        detail,
        result: join2("任务异常: ", reason),
        toast: Some("释放端口任务异常，请重试".to_owned()),
    }
}

// ---------------------------------------------------------------------------
// Directories
// ---------------------------------------------------------------------------

/// A directory that was set, or set back, and saved or not.
pub fn dir_changed(key: &str, value: Option<&str>, saved: &Result<(), String>) -> (r: Feedback)
    ensures
        match *saved {
            Ok(_) => says(
                r,
                "路径更改"@,
                match value {
                    Some(dir) => key@ + " -> "@ + dir@,
                    None => key@ + " -> 恢复默认（exe 同级默认布局）"@,
                },
                "成功"@,
                Some(
                    match value {
                        Some(dir) => if key_of(key@) == Some(DirKey::PopupScreenshot) {
                            "截图目录已更新（弹窗拦截下次启动时生效）："@ + dir@
                        } else {
                            "目录已更新："@ + dir@
                        },
                        None => "已恢复默认目录"@,
                    },
                ),
            ),
            Err(reason) => says(
                r,
                "路径更改"@,
                key@,
                "保存失败: "@ + reason@,
                Some("目录配置保存失败，请重试"@),
            ),
        },
{
    match saved {
        Err(reason) => Feedback {
            category: "路径更改",
            detail: key.to_owned(),
            result: join2("保存失败: ", reason.as_str()),
            toast: Some("目录配置保存失败，请重试".to_owned()),
        },
        Ok(_) => match value {
            Some(dir) => {
                let mut detail = join2(key, " -> ");
                detail.append(dir);
                let toast = match parse_dir_key(key) {
                    Some(DirKey::PopupScreenshot) => join2(
                        "截图目录已更新（弹窗拦截下次启动时生效）：",
                        dir,
                    ),
                    _ => join2("目录已更新：", dir),
                };
                Feedback {
                    category: "路径更改",
                    detail,
                    result: "成功".to_owned(),
                    toast: Some(toast),
                }
            },
            None => Feedback {
                category: "路径更改",
                detail: join2(key, " -> 恢复默认（exe 同级默认布局）"),
                result: "成功".to_owned(),
                toast: Some("已恢复默认目录".to_owned()),
            },
        },
    }
}

/// What came of letting the user choose a directory.
#[derive(Debug, PartialEq, Eq)]
pub enum DirChoice {
    Chosen(String),
    Cancelled,
    Failed(String),
    TaskFailed,
}

/// A choice of a directory that failed; nothing for one that did not.
pub fn dir_choice_failed(key: &str, choice: &DirChoice) -> (r: Option<Feedback>)
    ensures
        match *choice {
            DirChoice::Chosen(_) => r is None,
            DirChoice::Cancelled => r is None,
            DirChoice::Failed(reason) => r is Some && says(
                r->0,
                "路径更改"@,
                key@,
                "选择目录失败: "@ + reason@,
                Some("选择目录失败："@ + reason@),
            ),
            DirChoice::TaskFailed => r is Some && says(
                r->0,
                "路径更改"@,
                key@,
                "选择目录任务异常"@,
                Some("选择目录任务异常，请重试"@),
            ),
        },
{
    match choice {
        DirChoice::Chosen(_) => None,
        DirChoice::Cancelled => None,
        DirChoice::Failed(reason) => Some(
            Feedback {
                category: "路径更改",
                detail: key.to_owned(),
                result: join2("选择目录失败: ", reason.as_str()),
                toast: Some(join2("选择目录失败：", reason.as_str())),
            },
        ),
        DirChoice::TaskFailed => Some(
            Feedback {
                category: "路径更改",
                detail: key.to_owned(),
                result: "选择目录任务异常".to_owned(),
                toast: Some("选择目录任务异常，请重试".to_owned()),
            },
        ),
    }
}

// ---------------------------------------------------------------------------
// Windows on top
// ---------------------------------------------------------------------------

/// Why a window could not be kept on top.
#[derive(Debug, PartialEq, Eq)]
pub enum PinFailure {
    /// The window has higher rights.
    AccessDenied,
    /// The window is gone.
    InvalidWindow,
    /// Something else, described by this text.
    Other(String),
}

/// What is noted of a failure.
pub open spec fn pin_failure_note(failure: PinFailure) -> Seq<char> {
    match failure {
        PinFailure::AccessDenied => "失败: UIPI 拦截（目标窗口特权更高）"@,
        PinFailure::InvalidWindow => "失败: 窗口已关闭"@,
        PinFailure::Other(reason) => "失败: "@ + reason@,
    }
}

/// What the user is told of a failure.
pub open spec fn pin_failure_toast(failure: PinFailure, action: Seq<char>) -> Seq<char> {
    match failure {
        PinFailure::AccessDenied => "目标窗口具备高特权，请提权运行 TLToolBox"@,
        PinFailure::InvalidWindow => "窗口已关闭或句柄失效"@,
        PinFailure::Other(reason) => action + reason@,
    }
}

fn note_of(failure: &PinFailure) -> (r: String)
    ensures
        r@ == pin_failure_note(*failure),
{
    match failure {
        PinFailure::AccessDenied => "失败: UIPI 拦截（目标窗口特权更高）".to_owned(),
        PinFailure::InvalidWindow => "失败: 窗口已关闭".to_owned(),
        PinFailure::Other(reason) => join2("失败: ", reason.as_str()),
    }
}

fn toast_of(failure: &PinFailure, action: &str) -> (r: String)
    ensures
        r@ == pin_failure_toast(*failure, action@),
{
    match failure {
        PinFailure::AccessDenied => "目标窗口具备高特权，请提权运行 TLToolBox".to_owned(),
        PinFailure::InvalidWindow => "窗口已关闭或句柄失效".to_owned(),
        PinFailure::Other(reason) => join2(action, reason.as_str()),
    }
}

/// Whether `f` tells of a window that was pinned with this priority, or unpinned.
pub open spec fn pin_says(
    f: Feedback,
    hwnd: u64,
    process: Seq<char>,
    priority: u8,
    pinned: bool,
) -> bool {
    if pinned {
        says(
            f,
            "TOPMOST"@,
            "开启窗口置顶 HWND: 0x"@ + hex(hwnd as nat) + " 进程: "@ + process + " 优先级: "@
                + decimal(priority as nat),
            "成功"@,
            Some("已置顶："@ + process + "（优先级 "@ + decimal(priority as nat) + "）"@),
        )
    } else {
        says(
            f,
            "TOPMOST"@,
            "解除窗口置顶 HWND: 0x"@ + hex(hwnd as nat) + " 进程: "@ + process,
            "成功"@,
            Some("已解除置顶："@ + process),
        )
    }
}

/// A window that was pinned with this priority, or unpinned.
pub fn window_pinned(hwnd: u64, process: &str, priority: u8, pinned: bool) -> (r: Feedback)
    ensures
        pin_says(r, hwnd, process@, priority, pinned),
{
    if pinned {
        let mut detail = join2("开启窗口置顶 HWND: 0x", hex_of(hwnd).as_str());
        detail.append(" 进程: ");
        detail.append(process);
        detail.append(" 优先级: ");
        detail.append(decimal_of(priority as u128).as_str());
        let mut toast = join2("已置顶：", process);
        toast.append("（优先级 ");
        toast.append(decimal_of(priority as u128).as_str());
        toast.append("）");
        Feedback { category: "TOPMOST", detail, result: "成功".to_owned(), toast: Some(toast) }
    } else {
        let mut detail = join2("解除窗口置顶 HWND: 0x", hex_of(hwnd).as_str());
        detail.append(" 进程: ");
        detail.append(process);
        Feedback {
            category: "TOPMOST",
            detail,
            result: "成功".to_owned(),
            toast: Some(join2("已解除置顶：", process)),
        }
    }
}

/// A window that could not be pinned or unpinned.
pub fn window_pin_failed(hwnd: u64, pinned: bool, failure: &PinFailure) -> (r: Feedback)
    ensures
        says(
            r,
            "TOPMOST"@,
            (if pinned {
                "开启窗口置顶"@
            } else {
                "解除窗口置顶"@
            }) + " HWND: 0x"@ + hex(hwnd as nat),
            pin_failure_note(*failure),
            Some(pin_failure_toast(*failure, "置顶操作失败："@)),
        ),
{
    let mut detail = (if pinned {
        "开启窗口置顶"
    } else {
        "解除窗口置顶"
    }).to_owned();
    detail.append(" HWND: 0x");
    detail.append(hex_of(hwnd).as_str());
    Feedback {
        category: "TOPMOST",
        detail,
        result: note_of(failure),
        toast: Some(toast_of(failure, "置顶操作失败：")),
    }
}

/// A window whose priority was set.
pub fn priority_set(hwnd: u64, process: &str, priority: i32) -> (r: Feedback)
    ensures
        says(
            r,
            "TOPMOST"@,
            "调整窗口置顶优先级 HWND: 0x"@ + hex(hwnd as nat) + " 进程: "@ + process@
                + " 优先级: "@ + decimal_signed(priority as int),
            "成功"@,
            Some("已调整 "@ + process@ + " 置顶优先级为 "@ + decimal_signed(priority as int)),
        ),
{
    let number = decimal_of_signed(priority as i64);
    let mut detail = join2("调整窗口置顶优先级 HWND: 0x", hex_of(hwnd).as_str());
    detail.append(" 进程: ");
    detail.append(process);
    detail.append(" 优先级: ");
    detail.append(number.as_str());
    let mut toast = join2("已调整 ", process);
    toast.append(" 置顶优先级为 ");
    toast.append(number.as_str());
    Feedback { category: "TOPMOST", detail, result: "成功".to_owned(), toast: Some(toast) }
}

/// A window whose priority could not be set.
pub fn priority_failed(hwnd: u64, priority: i32, failure: &PinFailure) -> (r: Feedback)
    ensures
        says(
            r,
            "TOPMOST"@,
            "调整窗口置顶优先级 HWND: 0x"@ + hex(hwnd as nat) + " -> "@ + decimal_signed(
                priority as int,
            ),
            pin_failure_note(*failure),
            Some(pin_failure_toast(*failure, "调整优先级失败："@)),
        ),
{
    let mut detail = join2("调整窗口置顶优先级 HWND: 0x", hex_of(hwnd).as_str());
    detail.append(" -> ");
    detail.append(decimal_of_signed(priority as i64).as_str());
    Feedback {
        category: "TOPMOST",
        detail,
        result: note_of(failure),
        toast: Some(toast_of(failure, "调整优先级失败：")),
    }
}

/// The process of the window with this handle, as the pinned windows know it.
pub open spec fn process_of(pinned: Seq<PinnedWindow>, hwnd: u64) -> Seq<char> {
    match pinned_entry(pinned, hwnd) {
        Some(entry) => entry.process_name@,
        None => "<unknown.exe>"@,
    }
}

/// The priority that a window was pinned with: that of its entry, else the low byte of
/// the one that was asked for.
pub open spec fn priority_of(pinned: Seq<PinnedWindow>, hwnd: u64, asked: i32) -> u8 {
    match pinned_entry(pinned, hwnd) {
        Some(entry) => entry.priority,
        None => asked as u8,
    }
}

/// Settles a request to pin or unpin a window. `pinned` are the windows that are
/// pinned after it.
pub fn pin_settled(
    hwnd: u64,
    asked: i32,
    pin: bool,
    outcome: &Result<(), PinFailure>,
    pinned: &[PinnedWindow],
) -> (r: Feedback)
    ensures
        match *outcome {
            Ok(_) => pin_says(
                r,
                hwnd,
                process_of(pinned@, hwnd),
                priority_of(pinned@, hwnd, asked),
                pin,
            ),
            Err(failure) => says(
                r,
                "TOPMOST"@,
                (if pin {
                    "开启窗口置顶"@
                } else {
                    "解除窗口置顶"@
                }) + " HWND: 0x"@ + hex(hwnd as nat),
                pin_failure_note(failure),
                Some(pin_failure_toast(failure, "置顶操作失败："@)),
            ),
        },
{
    match outcome {
        Ok(_) => match find_pinned(pinned, hwnd) {
            Some(entry) => window_pinned(hwnd, entry.process_name.as_str(), entry.priority, pin),
            None => window_pinned(hwnd, "<unknown.exe>", asked as u8, pin),
        },
        Err(failure) => window_pin_failed(hwnd, pin, failure),
    }
}

/// Settles a request to change the priority of a window. `pinned` are the windows that
/// are pinned after it.
pub fn priority_settled(
    hwnd: u64,
    asked: i32,
    outcome: &Result<(), PinFailure>,
    pinned: &[PinnedWindow],
) -> (r: Feedback)
    ensures
        match *outcome {
            Ok(_) => says(
                r,
                "TOPMOST"@,
                "调整窗口置顶优先级 HWND: 0x"@ + hex(hwnd as nat) + " 进程: "@ + process_of(
                    pinned@,
                    hwnd,
                ) + " 优先级: "@ + decimal_signed(asked as int),
                "成功"@,
                Some(
                    "已调整 "@ + process_of(pinned@, hwnd) + " 置顶优先级为 "@ + decimal_signed(
                        asked as int,
                    ),
                ),
            ),
            Err(failure) => says(
                r,
                "TOPMOST"@,
                "调整窗口置顶优先级 HWND: 0x"@ + hex(hwnd as nat) + " -> "@ + decimal_signed(
                    asked as int,
                ),
                pin_failure_note(failure),
                Some(pin_failure_toast(failure, "调整优先级失败："@)),
            ),
        },
{
    match outcome {
        Ok(_) => match find_pinned(pinned, hwnd) {
            Some(entry) => priority_set(hwnd, entry.process_name.as_str(), asked),
            None => priority_set(hwnd, "<unknown.exe>", asked),
        },
        Err(failure) => priority_failed(hwnd, asked, failure),
    }
}

// ---------------------------------------------------------------------------
// Modules and the start with the system
// ---------------------------------------------------------------------------

/// A module that was switched, or could not be. It brings no toast.
pub fn module_switched(id: &str, enable: bool, result: &Result<bool, String>) -> (r: Feedback)
    ensures
        says(
            r,
            "模块开关"@,
            id@ + " -> "@ + switch_text(enable),
            match *result {
                Ok(_) => "成功"@,
                Err(reason) => "失败: "@ + reason@,
            },
            None,
        ),
{
    let mut detail = join2(id, " -> ");
    detail.append(switch_word(enable));
    let result = match result {
        Ok(_) => "成功".to_owned(),
        Err(reason) => join2("失败: ", reason.as_str()),
    };
    Feedback { category: "模块开关", detail, result, toast: None }
}

/// All modules being switched, from the tray or from the window. When it is through,
/// the window shows a toast.
pub fn all_switched(enable: bool, from_tray: bool, finished: bool) -> (r: Feedback)
    ensures
        says(
            r,
            "全部模块"@,
            if from_tray {
                if enable {
                    "托盘：全部启用"@
                } else {
                    "托盘：全部停用"@
                }
            } else {
                if enable {
                    "全部模块 -> 启用"@
                } else {
                    "全部模块 -> 停用"@
                }
            },
            if finished {
                "完成"@
            } else {
                "进行中"@
            },
            if finished && !from_tray {
                Some(
                    if enable {
                        "已全部启动"@
                    } else {
                        "已全部停止"@
                    },
                )
            } else {
                None
            },
        ),
{
    let detail = if from_tray {
        if enable {
            "托盘：全部启用"
        } else {
            "托盘：全部停用"
        }
    } else {
        if enable {
            "全部模块 -> 启用"
        } else {
            "全部模块 -> 停用"
        }
    };
    let result = if finished {
        "完成"
    } else {
        "进行中"
    };
    let toast = if finished && !from_tray {
        if enable {
            Some("已全部启动".to_owned())
        } else {
            Some("已全部停止".to_owned())
        }
    } else {
        None
    };
    Feedback { category: "全部模块", detail: detail.to_owned(), result: result.to_owned(), toast }
}

/// What is left on or off in the configuration when a module is switched.
#[derive(Debug, Clone, Copy, PartialEq, Eq, Structural)]
pub enum MirroredModule {
    TopmostManager,
    IconLocker,
}

/// Whether a module that was switched is left so in the configuration, and which it
/// is.
pub fn mirrored_module(id: &str) -> (r: Option<MirroredModule>)
    ensures
        r == (if id@ == "topmost_manager"@ {
            Some(MirroredModule::TopmostManager)
        } else if id@ == "icon_locker"@ {
            Some(MirroredModule::IconLocker)
        } else {
            None
        }),
{
    if same_text(id, "topmost_manager") {
        Some(MirroredModule::TopmostManager)
    } else if same_text(id, "icon_locker") {
        Some(MirroredModule::IconLocker)
    } else {
        None
    }
}

/// What came of changing whether the application starts with the system.
#[derive(Debug, PartialEq, Eq)]
pub enum AutostartChange {
    /// It was changed, and saved or not.
    Applied { saved: Result<(), String> },
    Refused(String),
    TaskFailed,
}

/// A change of whether the application starts with the system. The toast follows the
/// change, whether it was saved or not.
pub fn autostart_changed(enable: bool, change: &AutostartChange) -> (r: Feedback)
    ensures
        says(
            r,
            "开机自启"@,
            "开机自启 -> "@ + switch_text(enable),
            match *change {
                AutostartChange::Applied { saved } => match saved {
                    Ok(_) => "成功"@,
                    Err(reason) => "配置持久化失败: "@ + reason@,
                },
                AutostartChange::Refused(reason) => "失败: "@ + reason@,
                AutostartChange::TaskFailed => "任务异常"@,
            },
            match *change {
                AutostartChange::Applied { saved } => Some(
                    "已"@ + switch_text(enable) + "开机自启"@,
                ),
                _ => None,
            },
        ),
{
    let detail = join2("开机自启 -> ", switch_word(enable));
    let result = match change {
        AutostartChange::Applied { saved } => match saved {
            Ok(_) => "成功".to_owned(),
            Err(reason) => join2("配置持久化失败: ", reason.as_str()),
        },
        AutostartChange::Refused(reason) => join2("失败: ", reason.as_str()),
        AutostartChange::TaskFailed => "任务异常".to_owned(),
    };
    let toast = match change {
        AutostartChange::Applied { saved: _ } => {
            let mut text = join2("已", switch_word(enable));
            text.append("开机自启");
            Some(text)
        },
        _ => None,
    };
    Feedback { category: "开机自启", detail, result, toast }
}

// ---------------------------------------------------------------------------
// Rules, captures and links
// ---------------------------------------------------------------------------

/// A keyword that was added to the blacklist.
pub fn rule_added(keyword: &str) -> (r: Feedback)
    ensures
        says(
            r,
            "黑名单"@,
            "添加关键词 \""@ + keyword@ + "\""@,
            "成功"@,
            Some("拦截规则已添加并生效"@),
        ),
{
    let mut detail = join2("添加关键词 \"", keyword);
    detail.append("\"");
    Feedback {
        category: "黑名单",
        detail,
        result: "成功".to_owned(),
        toast: Some("拦截规则已添加并生效".to_owned()),
    }
}

/// A keyword that was removed from the blacklist.
pub fn rule_removed(keyword: &str) -> (r: Feedback)
    ensures
        says(
            r,
            "黑名单"@,
            "删除关键词 \""@ + keyword@ + "\""@,
            "成功"@,
            Some("拦截规则已删除"@),
        ),
{
    let mut detail = join2("删除关键词 \"", keyword);
    detail.append("\"");
    Feedback {
        category: "黑名单",
        detail,
        result: "成功".to_owned(),
        toast: Some("拦截规则已删除".to_owned()),
    }
}

/// The line below the picture of a capture.
pub fn capture_caption(file_name: &str, title: &str) -> (r: String)
    ensures
        r@ == file_name@ + " · "@ + title@,
{
    let mut r = join2(file_name, " · ");
    r.append(title);
    r
}

/// What the user is told when a directory was opened, or could not be.
pub fn dir_opened(opened: bool) -> (r: &'static str)
    ensures
        r@ == (if opened {
            "已在资源管理器中打开目录"@
        } else {
            "打开目录失败，请稍后重试"@
        }),
{
    if opened {
        "已在资源管理器中打开目录"
    } else {
        "打开目录失败，请稍后重试"
    }
}

/// A page of the project.
#[derive(Debug, Clone, Copy, PartialEq, Eq, Structural)]
pub enum ProjectPage {
    Repository,
    Download,
}

/// What came of opening a page.
#[derive(Debug, PartialEq, Eq)]
pub enum PageOutcome {
    Opened,
    Failed(String),
    TaskFailed,
}

/// What opening a page is called.
pub open spec fn page_action(page: ProjectPage) -> Seq<char> {
    match page {
        ProjectPage::Repository => "打开开源地址"@,
        ProjectPage::Download => "打开下载页"@,
    }
}

/// A page that was opened in the browser, or could not be.
pub fn page_opened(page: ProjectPage, url: &str, outcome: &PageOutcome) -> (r: Feedback)
    ensures
        says(
            r,
            page_action(page),
            url@,
            match *outcome {
                PageOutcome::Opened => "成功"@,
                PageOutcome::Failed(reason) => "失败: "@ + reason@,
                PageOutcome::TaskFailed => "任务异常"@,
            },
            match *outcome {
                PageOutcome::Opened => None,
                PageOutcome::Failed(reason) => Some(page_action(page) + "失败："@ + reason@),
                PageOutcome::TaskFailed => Some(page_action(page) + "任务异常，请重试"@),
            },
        ),
{
    let action = match page {
        ProjectPage::Repository => "打开开源地址",
        ProjectPage::Download => "打开下载页",
    };
    let (result, toast) = match outcome {
        PageOutcome::Opened => ("成功".to_owned(), None),
        PageOutcome::Failed(reason) => {
            let mut toast = join2(action, "失败：");
            toast.append(reason.as_str());
            (join2("失败: ", reason.as_str()), Some(toast))
        },
        PageOutcome::TaskFailed => (
            "任务异常".to_owned(),
            Some(join2(action, "任务异常，请重试")),
        ),
    };
    Feedback { category: action, detail: url.to_owned(), result, toast }
}

// ---------------------------------------------------------------------------
// Icon layouts
// ---------------------------------------------------------------------------

/// The line below the list of layouts.
pub fn layouts_status(count: usize) -> (r: String)
    ensures
        r@ == "共 "@ + decimal(count as nat) + " 个布局方案"@,
{
    let mut r = join2("共 ", decimal_of(count as u128).as_str());
    r.append(" 个布局方案");
    r
}

/// Whether layouts are restored by themselves, as it was set.
pub fn auto_restore_changed(on: bool) -> (r: Feedback)
    ensures
        says(
            r,
            "图标布局"@,
            "自动还原 -> "@ + switch_text(on),
            "成功"@,
            Some(
                if on {
                    "已开启显示器拓扑变化自动还原"@
                } else {
                    "已关闭自动还原"@
                },
            ),
        ),
{
    Feedback {
        category: "图标布局",
        detail: join2("自动还原 -> ", switch_word(on)),
        result: "成功".to_owned(),
        toast: Some(
            if on {
                "已开启显示器拓扑变化自动还原".to_owned()
            } else {
                "已关闭自动还原".to_owned()
            },
        ),
    }
}

/// What came of an operation on the icons that ran on a thread of its own.
#[derive(Debug, PartialEq, Eq)]
pub enum IconOutcome {
    Done,
    Failed(String),
    /// The thread could not be started.
    NoThread(String),
    /// The thread ended without a result.
    Interrupted,
}

/// A layout that was saved under a name with a number of icons, or could not be.
pub fn layout_saved(name: &str, icons: usize, outcome: &IconOutcome) -> (r: Feedback)
    ensures
        match *outcome {
            IconOutcome::Done => says(
                r,
                "图标布局"@,
                "保存方案 \""@ + name@ + "\"（"@ + decimal(icons as nat) + " 个图标）"@,
                "成功"@,
                Some("已保存桌面图标布局"@),
            ),
            IconOutcome::Failed(reason) => says(
                r,
                "图标布局"@,
                "保存方案"@,
                "失败: "@ + reason@,
                Some("保存布局失败："@ + reason@),
            ),
            IconOutcome::NoThread(reason) => says(
                r,
                "图标布局"@,
                "保存方案"@,
                "独立线程启动失败: "@ + reason@,
                Some("保存布局失败：无法启动 COM 线程（"@ + reason@ + "）"@),
            ),
            IconOutcome::Interrupted => says(
                r,
                "图标布局"@,
                "保存方案"@,
                "任务异常（COM 结果通道中断）"@,
                Some("保存布局任务异常，请重试"@),
            ),
        },
{
    match outcome {
        IconOutcome::Done => {
            let mut detail = join2("保存方案 \"", name);
            detail.append("\"（");
            detail.append(decimal_of(icons as u128).as_str());
            detail.append(" 个图标）");
            Feedback {
                category: "图标布局",
                detail,
                result: "成功".to_owned(),
                toast: Some("已保存桌面图标布局".to_owned()),
            }
        },
        IconOutcome::Failed(reason) => Feedback {
            category: "图标布局",
            detail: "保存方案".to_owned(),
            result: join2("失败: ", reason.as_str()),
            toast: Some(join2("保存布局失败：", reason.as_str())),
        },
        IconOutcome::NoThread(reason) => {
            let mut toast = join2("保存布局失败：无法启动 COM 线程（", reason.as_str());
            toast.append("）");
            Feedback {
                category: "图标布局",
                detail: "保存方案".to_owned(),
                result: join2("独立线程启动失败: ", reason.as_str()),
                toast: Some(toast),
            }
        },
        IconOutcome::Interrupted => Feedback {
            category: "图标布局",
            detail: "保存方案".to_owned(),
            result: "任务异常（COM 结果通道中断）".to_owned(),
            toast: Some("保存布局任务异常，请重试".to_owned()),
        },
    }
}

/// A layout that was restored, or could not be.
pub fn layout_restored(id: &str, outcome: &IconOutcome) -> (r: Feedback)
    ensures
        says(
            r,
            "图标布局"@,
            "还原方案 "@ + id@,
            match *outcome {
                IconOutcome::Done => "成功"@,
                IconOutcome::Failed(reason) => "失败: "@ + reason@,
                IconOutcome::NoThread(reason) => "独立线程启动失败: "@ + reason@,
                IconOutcome::Interrupted => "任务异常（COM 结果通道中断）"@,
            },
            Some(
                match *outcome {
                    IconOutcome::Done =>
                        "已还原桌面图标布局（若图标被系统弹回，请排查桌面右键「自动排列图标」）"@,
                    IconOutcome::Failed(reason) => "还原布局失败："@ + reason@
                        + "（若图标被系统弹回，请排查桌面右键「自动排列图标」）"@,
                    IconOutcome::NoThread(reason) => "还原布局失败：无法启动 COM 线程（"@
                        + reason@ + "）"@,
                    IconOutcome::Interrupted => "还原布局任务异常，请重试"@,
                },
            ),
        ),
{
    let detail = join2("还原方案 ", id);
    let (result, toast) = match outcome {
        IconOutcome::Done => (
            "成功".to_owned(),
            "已还原桌面图标布局（若图标被系统弹回，请排查桌面右键「自动排列图标」）".to_owned(),
        ),
        IconOutcome::Failed(reason) => {
            let mut toast = join2("还原布局失败：", reason.as_str());
            toast.append("（若图标被系统弹回，请排查桌面右键「自动排列图标」）");
            (join2("失败: ", reason.as_str()), toast)
        },
        IconOutcome::NoThread(reason) => {
            let mut toast = join2("还原布局失败：无法启动 COM 线程（", reason.as_str());
            toast.append("）");
            (join2("独立线程启动失败: ", reason.as_str()), toast)
        },
        IconOutcome::Interrupted => (
            "任务异常（COM 结果通道中断）".to_owned(),
            "还原布局任务异常，请重试".to_owned(),
        ),
    };
    Feedback { category: "图标布局", detail, result, toast: Some(toast) }
}

/// A layout that was deleted, or was not there.
pub fn layout_deleted(id: &str, removed: bool) -> (r: Feedback)
    ensures
        says(
            r,
            "图标布局"@,
            "删除方案 "@ + id@,
            if removed {
                "成功"@
            } else {
                "未找到"@
            },
            Some(
                if removed {
                    "已删除布局方案"@
                } else {
                    "未找到该布局方案"@
                },
            ),
        ),
{
    let detail = join2("删除方案 ", id);
    if removed {
        Feedback {
            category: "图标布局",
            detail,
            result: "成功".to_owned(),
            toast: Some("已删除布局方案".to_owned()),
        }
    } else {
        Feedback {
            category: "图标布局",
            detail,
            result: "未找到".to_owned(),
            toast: Some("未找到该布局方案".to_owned()),
        }
    }
}

// ---------------------------------------------------------------------------
// Restart with administrator rights
// ---------------------------------------------------------------------------

/// What came of a restart with administrator rights.
#[derive(Debug, PartialEq, Eq)]
pub enum AdminRestart {
    /// The new instance runs.
    Started,
    Refused(String),
    TaskFailed,
}

/// A restart with administrator rights.
pub fn admin_restarted(restart: &AdminRestart) -> (r: Feedback)
    ensures
        says(
            r,
            "UAC 提权"@,
            "以管理员身份重启"@,
            match *restart {
                AdminRestart::Started => "成功（新实例已拉起）"@,
                AdminRestart::Refused(reason) => "失败: "@ + reason@,
                AdminRestart::TaskFailed => "任务异常"@,
            },
            match *restart {
                AdminRestart::Started => None,
                AdminRestart::Refused(reason) => Some("以管理员身份重启失败："@ + reason@),
                AdminRestart::TaskFailed => Some("以管理员身份重启任务异常，请重试"@),
            },
        ),
{
    let detail = "以管理员身份重启".to_owned();
    match restart {
        AdminRestart::Started => Feedback {
            category: "UAC 提权",
            detail,
            result: "成功（新实例已拉起）".to_owned(),
            toast: None,
        },
        AdminRestart::Refused(reason) => Feedback {
            category: "UAC 提权",
            detail,
            result: join2("失败: ", reason.as_str()),
            toast: Some(join2("以管理员身份重启失败：", reason.as_str())),
        },
        AdminRestart::TaskFailed => Feedback {
            category: "UAC 提权",
            detail,
            result: "任务异常".to_owned(),
            toast: Some("以管理员身份重启任务异常，请重试".to_owned()),
        },
    }
}

} // verus!
