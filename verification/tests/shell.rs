use tltoolbox::bus::{AppEvent, TrayAction};
use tltoolbox::manager::ModuleMeta;
use tltoolbox::modules::port_hunter::killer::PortError;
use tltoolbox::modules::port_hunter::KillReport;
use tltoolbox::shell::feedback::{
    admin_restarted, all_switched, auto_restore_changed, autostart_changed, capture_caption,
    dir_changed, dir_choice_failed, dir_opened, layout_deleted, layout_restored, layout_saved,
    layouts_status, mirrored_module, module_switched, option_set, page_opened, pin_settled,
    port_released, port_status, priority_settled, release_task_failed, rule_added, rule_removed,
    scan_failed, scan_task_failed, switch_word, AdminRestart, AutostartChange, DirChoice,
    Feedback, IconOutcome, MirroredModule, PageOutcome, PinFailure, ProjectPage,
};
use tltoolbox::shell::lifecycle::{
    control_action, decide_start, ends_control, forward_action, has_argument, starts_hidden,
    stays_in_tray, BusSignal, ControlAction, ForwardAction, InstanceCheck, SingleFlight,
    StartDecision, ToastClock, TOAST_DISPLAY_MS,
};
use tltoolbox::shell::listing::{
    all_modules_enabled, auto_start_ids, module_has_settings, module_is_toggleable, module_items,
    modules_to_stop, modules_to_switch, settings_panel, ModuleItem, SettingsPanel,
};
use tltoolbox::shell::settings::{
    dir_setting_title, parse_dir_key, profile_name, rescans_after, with_rule, without_rule, DirKey, DirSettings,
    PortHunterOptions,
};
use tltoolbox::shell::topmost::{
    filter_topmost_rows, find_pinned, handle_from_value, handle_value, priority_for, row_holds,
    topmost_row_from, PinnedWindow, TopmostWindowItem, WindowInfo,
};
use tltoolbox::shell::update::{update_status, version_of_tag, ReleaseCheck};

fn texts(list: &[&str]) -> Vec<String> {
    list.iter().map(|s| s.to_string()).collect()
}

fn meta(id: &'static str, running: bool) -> ModuleMeta {
    ModuleMeta {
        id,
        display_name: "name",
        description: "desc",
        running,
    }
}

fn says(f: &Feedback, category: &str, detail: &str, result: &str, toast: Option<&str>) -> bool {
    f.category == category
        && f.detail == detail
        && f.result == result
        && f.toast.as_deref() == toast
}

#[test]
fn rows_follow_the_modules() {
    assert_eq!(
        module_items(&[meta("keep_awake", true), meta("port_hunter", false)]),
        vec![
            ModuleItem {
                id: "keep_awake",
                name: "name",
                desc: "desc",
                enabled: true,
                has_settings: false,
                toggleable: true,
            },
            ModuleItem {
                id: "port_hunter",
                name: "name",
                desc: "desc",
                enabled: false,
                has_settings: true,
                toggleable: false,
            },
        ]
    );
    assert!(all_modules_enabled(&[meta("a", true), meta("b", true)]));
    assert!(!all_modules_enabled(&[meta("a", true), meta("b", false)]));
    assert!(!all_modules_enabled(&[]));
}

#[test]
fn modules_with_settings_have_a_panel() {
    for (id, panel) in [
        ("popup_blocker", Some(SettingsPanel::PopupRules)),
        ("terminal_logger", Some(SettingsPanel::TerminalLog)),
        ("topmost_manager", Some(SettingsPanel::TopmostWindows)),
        ("icon_locker", Some(SettingsPanel::IconLayouts)),
        ("port_hunter", Some(SettingsPanel::Ports)),
        ("keep_awake", None),
        ("", None),
    ] {
        assert_eq!(settings_panel(id), panel);
        assert_eq!(module_has_settings(id), panel.is_some());
    }
    assert!(!module_is_toggleable("port_hunter"));
    assert!(module_is_toggleable("keep_awake"));
}

#[test]
fn switching_all_leaves_settled_and_on_demand_modules_alone() {
    let metas = [meta("a", true), meta("port_hunter", false), meta("z", false)];
    let ids = |list: Vec<ModuleMeta>| list.iter().map(|m| m.id).collect::<Vec<_>>();
    assert_eq!(ids(modules_to_switch(&metas, true)), vec!["z"]);
    assert_eq!(ids(modules_to_switch(&metas, false)), vec!["a"]);
    assert!(modules_to_switch(&[meta("a", true)], true).is_empty());
}

#[test]
fn running_modules_are_stopped_last_first() {
    let metas = [meta("a", true), meta("b", false), meta("c", true)];
    let ids: Vec<_> = modules_to_stop(&metas).iter().map(|m| m.id).collect();
    assert_eq!(ids, vec!["c", "a"]);
}

#[test]
fn modules_left_on_are_started_again() {
    let list = texts(&["popup_blocker"]);
    assert_eq!(auto_start_ids(&list, false, false), list);
    assert_eq!(
        auto_start_ids(&list, true, true),
        texts(&["popup_blocker", "topmost_manager", "icon_locker"])
    );
    assert_eq!(
        auto_start_ids(&texts(&["icon_locker"]), true, true),
        texts(&["icon_locker", "topmost_manager"])
    );
}

#[test]
fn second_instance_leaves_unless_it_takes_over() {
    let second = InstanceCheck::Secondary {
        wakeup_delivered: true,
    };
    assert_eq!(
        decide_start(&second, false),
        StartDecision::Leave {
            message: "[tltoolbox] 检测到 TLToolBox 已在运行（唤醒广播投递: true），本进程立即退出"
                .to_string()
        }
    );
    assert!(matches!(
        decide_start(&second, true),
        StartDecision::Continue { .. }
    ));
    assert_eq!(
        decide_start(&InstanceCheck::Unknown("x".to_string()), false),
        StartDecision::Continue {
            log: "单实例互斥创建失败，本次降级为允许并行运行: x".to_string()
        }
    );
    assert_eq!(
        decide_start(&InstanceCheck::Primary, false),
        StartDecision::Continue {
            log: "单实例守护已就绪：本进程为唯一实例，互斥句柄持有至退出".to_string()
        }
    );
    assert!(has_argument(&texts(&["exe", "--silent"]), "--silent"));
    assert!(!has_argument(&texts(&["--silently"]), "--silent"));
}

#[test]
fn window_hides_only_where_the_tray_can_show_it() {
    for (wanted, tray) in [(false, false), (false, true), (true, false), (true, true)] {
        assert_eq!(stays_in_tray(wanted, tray), wanted && tray);
        assert_eq!(starts_hidden(wanted, tray), wanted && tray);
    }
}

#[test]
fn every_signal_has_its_action() {
    let status = || {
        BusSignal::Event(AppEvent::ModuleStatusChanged {
            id: "x".to_string(),
            is_running: true,
        })
    };
    let tray = |action| BusSignal::Event(AppEvent::TrayAction(action));
    let log = || {
        BusSignal::Event(AppEvent::AppLogAppended {
            level: "INFO".to_string(),
            message: "m".to_string(),
        })
    };
    let toast = || BusSignal::Event(AppEvent::ToastRequested("t".to_string()));
    assert_eq!(control_action(&status()), ControlAction::SyncTray);
    assert_eq!(control_action(&tray(TrayAction::ShowWindow)), ControlAction::ShowWindow);
    assert_eq!(
        control_action(&tray(TrayAction::ToggleAllModules(true))),
        ControlAction::SwitchAll(true)
    );
    assert_eq!(
        control_action(&tray(TrayAction::RestartAsAdmin)),
        ControlAction::RestartAsAdmin
    );
    assert_eq!(control_action(&tray(TrayAction::ExitApp)), ControlAction::Quit);
    assert_eq!(control_action(&log()), ControlAction::Ignore);
    assert_eq!(control_action(&toast()), ControlAction::Ignore);
    assert_eq!(control_action(&BusSignal::Lagged(3)), ControlAction::WarnLagged(3));
    assert_eq!(control_action(&BusSignal::Closed), ControlAction::Stop);
    assert!(ends_control(ControlAction::Quit));
    assert!(ends_control(ControlAction::Stop));
    assert!(!ends_control(ControlAction::SwitchAll(false)));

    assert_eq!(forward_action(status()), ForwardAction::RefreshModules);
    assert_eq!(forward_action(toast()), ForwardAction::ShowToast("t".to_string()));
    assert_eq!(forward_action(tray(TrayAction::ExitApp)), ForwardAction::Ignore);
    assert_eq!(forward_action(log()), ForwardAction::Ignore);
    assert_eq!(forward_action(BusSignal::Lagged(9)), ForwardAction::WarnLagged(9));
    assert_eq!(forward_action(BusSignal::Closed), ForwardAction::Stop);
}

#[test]
fn earlier_timers_leave_later_toasts() {
    let mut clock = ToastClock::new();
    let first = clock.show();
    assert!(clock.may_hide(first));
    let second = clock.show();
    assert!(!clock.may_hide(first));
    assert!(clock.may_hide(second));
    assert_eq!(TOAST_DISPLAY_MS, 2500);
}

#[test]
fn one_request_at_a_time() {
    let mut flight = SingleFlight::new();
    assert!(flight.begin());
    assert!(!flight.begin());
    flight.finish();
    assert!(flight.begin());
}

#[test]
fn directories_are_set_by_key() {
    let mut dirs = DirSettings {
        app_log_dir: None,
        terminal_log_dir: None,
        popup_screenshot_dir: None,
    };
    assert_eq!(dirs.sub_path(DirKey::AppLog), "logs");
    assert_eq!(dirs.sub_path(DirKey::TerminalLog), "logs/terminals");
    assert_eq!(dirs.effective_dir_for_key("app_log", Some("/opt/x")), "/opt/x/logs");
    assert_eq!(
        dirs.effective_dir_for_key("unknown", Some("/opt/x")),
        "/opt/x/logs/popup_screenshots"
    );
    assert!(dirs.set_dir_field("terminal_log", Some("/t".to_string())));
    assert_eq!(dirs.effective_dir_for_key("terminal_log", Some("/opt/x")), "/t");
    assert_eq!(dirs.app_log_dir, None);
    assert!(!dirs.set_dir_field("other", Some("/y".to_string())));
    assert!(dirs.set_dir_field("terminal_log", None));
    assert_eq!(dirs.terminal_log_dir, None);
    assert_eq!(parse_dir_key("popup_screenshot"), Some(DirKey::PopupScreenshot));
    assert_eq!(parse_dir_key("x"), None);
    assert_eq!(
        dir_setting_title("app_log"),
        "选择应用日志目录（程序运行日志 + 用户操作审计）"
    );
    assert_eq!(dir_setting_title("x"), "选择弹窗截图目录（拦截留痕 PNG）");
}

#[test]
fn options_are_set_by_field() {
    let mut options = PortHunterOptions {
        confirm_before_kill: false,
        show_system_ports: false,
    };
    assert!(options.set_option("confirm", true));
    assert!(options.confirm_before_kill && !options.show_system_ports);
    assert!(options.set_option("system", true));
    assert!(options.show_system_ports);
    assert!(!options.set_option("x", false));
    assert!(options.confirm_before_kill && options.show_system_ports);
}

#[test]
fn rules_are_added_and_removed_by_what_is_seen() {
    let rules = texts(&["a", "b", "a"]);
    assert_eq!(with_rule(&rules, "  c "), Some(texts(&["a", "b", "a", "c"])));
    assert_eq!(with_rule(&rules, " \t"), None);
    assert_eq!(
        without_rule(&rules, Some("b"), 0),
        Some((texts(&["a", "a"]), "b".to_string()))
    );
    assert_eq!(
        without_rule(&rules, Some("a"), 2),
        Some((texts(&["b", "a"]), "a".to_string()))
    );
    assert_eq!(
        without_rule(&rules, Some("gone"), 1),
        Some((texts(&["a", "a"]), "b".to_string()))
    );
    assert_eq!(without_rule(&rules, None, 3), None);
    assert_eq!(profile_name("  家里 ", 5), "家里");
    assert_eq!(profile_name(" ", 5), "布局-5");
}

fn window(hwnd: u64) -> WindowInfo {
    WindowInfo {
        hwnd,
        process_name: "Code.exe".to_string(),
        title: "Main".to_string(),
        topmost: true,
    }
}

fn pinned(hwnd: u64, priority: u8) -> PinnedWindow {
    PinnedWindow {
        hwnd,
        process_name: "p.exe".to_string(),
        priority,
    }
}

#[test]
fn window_rows_show_the_priority_in_force() {
    let list = [pinned(0x10, 3), pinned(0xABCD, 9)];
    let row = topmost_row_from(&window(0xABCD), &list, Some(5), 1);
    assert_eq!(
        row,
        TopmostWindowItem {
            hwnd: "0xABCD".to_string(),
            hwnd_value: 0xABCD,
            process_name: "Code.exe".to_string(),
            title: "Main".to_string(),
            topmost: true,
            priority: 9,
            pinned: true,
        }
    );
    assert_eq!(topmost_row_from(&window(7), &list, Some(5), 1).priority, 5);
    let plain = topmost_row_from(&window(7), &list, None, 1);
    assert_eq!((plain.priority, plain.pinned), (1, false));
    assert_eq!(find_pinned(&list, 0x10), Some(&list[0]));
    assert_eq!(find_pinned(&list, 0x11), None);
    assert_eq!(priority_for(&[row.clone()], 0xABCD, 1), 9);
    assert_eq!(priority_for(&[row], 1, 4), 4);
}

#[test]
fn handles_are_found_again_by_their_low_half() {
    for hwnd in [0u64, 0x1234, 0x7FFF_FFFF, 0xFFFF_FFFF_8000_0000, u64::MAX] {
        assert_eq!(handle_from_value(handle_value(hwnd)), hwnd);
        assert_eq!(handle_value(hwnd), hwnd as i32);
    }
    for value in [0i32, 5, -1, i32::MIN, i32::MAX] {
        assert_eq!(handle_value(handle_from_value(value)), value);
        assert_eq!(handle_from_value(value), value as isize as u64);
    }
}

#[test]
fn window_search_ignores_case() {
    let rows = vec![
        topmost_row_from(&window(0xABCD), &[], None, 1),
        TopmostWindowItem {
            process_name: "other.exe".to_string(),
            ..topmost_row_from(&window(0x77), &[], None, 1)
        },
    ];
    assert_eq!(filter_topmost_rows(&rows, "  "), rows);
    assert_eq!(filter_topmost_rows(&rows, "CODE"), rows[..1].to_vec());
    assert_eq!(filter_topmost_rows(&rows, "0xab"), rows[..1].to_vec());
    assert_eq!(filter_topmost_rows(&rows, "main"), rows);
    assert!(filter_topmost_rows(&rows, "zzz").is_empty());
    assert!(row_holds("a", "b", "c", "b"));
    assert!(!row_holds("a", "b", "c", "d"));
}

#[test]
fn newer_release_is_announced() {
    let (status, note) = update_status(
        ReleaseCheck::Tag {
            tag: "v1.2.0".to_string(),
            newer: true,
        },
        "0.6.1",
    );
    assert_eq!(status.text, "发现新版本 v1.2.0");
    assert!(status.available);
    assert_eq!(status.latest, "v1.2.0");
    assert_eq!(note, "发现新版本");
    let (status, note) = update_status(
        ReleaseCheck::Tag {
            tag: "v0.6.1".to_string(),
            newer: false,
        },
        "0.6.1",
    );
    assert_eq!(status.text, "已是最新版本（v0.6.1）");
    assert!(!status.available && status.latest.is_empty());
    assert_eq!(note, "完成");
    assert_eq!(
        update_status(ReleaseCheck::NoInfo, "x").0.text,
        "无法获取版本信息（可能无网络或接口限流）"
    );
    assert_eq!(
        update_status(ReleaseCheck::Failed("e".to_string()), "x").0.text,
        "检查更新失败：e"
    );
    assert_eq!(
        update_status(ReleaseCheck::TaskFailed("e".to_string()), "x").0.text,
        "检查更新任务异常：e"
    );
    assert_eq!(version_of_tag("vv1.0v"), "1.0v");
    assert_eq!(version_of_tag("1.0"), "1.0");
}

#[test]
fn port_feedback() {
    assert_eq!(
        port_status(12, 10, false),
        "共 12 个监听端口 · 当前展示 10 个"
    );
    assert_eq!(
        port_status(106, 106, true),
        "共 106 个监听端口 · 当前展示 106 个（显示系统服务与高位端口）"
    );
    assert!(says(
        &scan_failed(&PortError::UnsupportedPlatform),
        "PORT_HUNTER",
        "扫描监听端口",
        "失败: 端口猎手仅支持 Windows 平台",
        Some("端口扫描失败：端口猎手仅支持 Windows 平台")
    ));
    assert!(says(
        &scan_task_failed("r"),
        "PORT_HUNTER",
        "扫描监听端口",
        "任务异常: r",
        Some("端口扫描任务异常，请重试")
    ));
    assert!(says(
        &option_set("confirm", true, &Ok(())),
        "PORT_HUNTER",
        "配置选项: 二次确认 -> 开启",
        "成功",
        Some("二次确认已开启")
    ));
    assert!(says(
        &option_set("system", false, &Err("e".to_string())),
        "PORT_HUNTER",
        "配置选项: 显示系统服务与高位端口 -> 关闭",
        "保存失败: e",
        Some("配置保存失败，请重试")
    ));
    let report = |outcome| KillReport {
        process_name: "n.exe".to_string(),
        elapsed_ms: 1,
        outcome,
    };
    let detail = "释放端口: 80 (TCP), 终止进程: n.exe (PID: 7)";
    assert!(says(
        &port_released(7, 80, "TCP", &report(Ok(()))),
        "PORT_HUNTER",
        detail,
        "成功",
        None
    ));
    let denied = PortError::TerminateFailed { pid: 7, code: 5 };
    assert!(says(
        &port_released(7, 80, "TCP", &report(Err(denied))),
        "PORT_HUNTER",
        detail,
        "失败: 需要管理员权限（UIPI 拦截）",
        None
    ));
    assert!(says(
        &port_released(7, 80, "TCP", &report(Err(PortError::UnsupportedPlatform))),
        "PORT_HUNTER",
        detail,
        "失败: 端口猎手仅支持 Windows 平台",
        Some("释放端口 80 失败：端口猎手仅支持 Windows 平台")
    ));
    assert!(says(
        &release_task_failed(80, "UDP", "x"),
        "PORT_HUNTER",
        "释放端口: 80 (UDP)",
        "任务异常: x",
        Some("释放端口任务异常，请重试")
    ));
}

#[test]
fn directory_feedback() {
    assert!(says(
        &dir_changed("app_log", Some("/x"), &Ok(())),
        "路径更改",
        "app_log -> /x",
        "成功",
        Some("目录已更新：/x")
    ));
    assert!(says(
        &dir_changed("popup_screenshot", Some("/x"), &Ok(())),
        "路径更改",
        "popup_screenshot -> /x",
        "成功",
        Some("截图目录已更新（弹窗拦截下次启动时生效）：/x")
    ));
    assert!(says(
        &dir_changed("app_log", None, &Ok(())),
        "路径更改",
        "app_log -> 恢复默认（exe 同级默认布局）",
        "成功",
        Some("已恢复默认目录")
    ));
    assert!(says(
        &dir_changed("app_log", None, &Err("e".to_string())),
        "路径更改",
        "app_log",
        "保存失败: e",
        Some("目录配置保存失败，请重试")
    ));
    assert_eq!(dir_choice_failed("k", &DirChoice::Cancelled), None);
    assert_eq!(dir_choice_failed("k", &DirChoice::Chosen("/x".to_string())), None);
    assert!(says(
        &dir_choice_failed("k", &DirChoice::Failed("e".to_string())).unwrap(),
        "路径更改",
        "k",
        "选择目录失败: e",
        Some("选择目录失败：e")
    ));
    assert!(says(
        &dir_choice_failed("k", &DirChoice::TaskFailed).unwrap(),
        "路径更改",
        "k",
        "选择目录任务异常",
        Some("选择目录任务异常，请重试")
    ));
    assert_eq!(dir_opened(true), "已在资源管理器中打开目录");
    assert_eq!(dir_opened(false), "打开目录失败，请稍后重试");
}

#[test]
fn window_feedback_follows_what_is_pinned() {
    let list = [pinned(0x1F, 8)];
    assert!(says(
        &pin_settled(0x1F, 3, true, &Ok(()), &list),
        "TOPMOST",
        "开启窗口置顶 HWND: 0x1F 进程: p.exe 优先级: 8",
        "成功",
        Some("已置顶：p.exe（优先级 8）")
    ));
    assert!(says(
        &pin_settled(0x2F, 259, true, &Ok(()), &list),
        "TOPMOST",
        "开启窗口置顶 HWND: 0x2F 进程: <unknown.exe> 优先级: 3",
        "成功",
        Some("已置顶：<unknown.exe>（优先级 3）")
    ));
    assert!(says(
        &pin_settled(0x2F, 3, false, &Ok(()), &[]),
        "TOPMOST",
        "解除窗口置顶 HWND: 0x2F 进程: <unknown.exe>",
        "成功",
        Some("已解除置顶：<unknown.exe>")
    ));
    assert!(says(
        &pin_settled(0x2F, 3, false, &Err(PinFailure::AccessDenied), &[]),
        "TOPMOST",
        "解除窗口置顶 HWND: 0x2F",
        "失败: UIPI 拦截（目标窗口特权更高）",
        Some("目标窗口具备高特权，请提权运行 TLToolBox")
    ));
    assert!(says(
        &pin_settled(0x2F, 3, true, &Err(PinFailure::Other("x".to_string())), &[]),
        "TOPMOST",
        "开启窗口置顶 HWND: 0x2F",
        "失败: x",
        Some("置顶操作失败：x")
    ));
    assert!(says(
        &priority_settled(0x1F, -2, &Ok(()), &list),
        "TOPMOST",
        "调整窗口置顶优先级 HWND: 0x1F 进程: p.exe 优先级: -2",
        "成功",
        Some("已调整 p.exe 置顶优先级为 -2")
    ));
    assert!(says(
        &priority_settled(0x1F, 4, &Err(PinFailure::InvalidWindow), &list),
        "TOPMOST",
        "调整窗口置顶优先级 HWND: 0x1F -> 4",
        "失败: 窗口已关闭",
        Some("窗口已关闭或句柄失效")
    ));
}

#[test]
fn module_feedback() {
    assert!(says(
        &module_switched("keep_awake", true, &Ok(true)),
        "模块开关",
        "keep_awake -> 开启",
        "成功",
        None
    ));
    assert!(says(
        &module_switched("keep_awake", false, &Err("e".to_string())),
        "模块开关",
        "keep_awake -> 关闭",
        "失败: e",
        None
    ));
    assert!(says(
        &all_switched(true, false, true),
        "全部模块",
        "全部模块 -> 启用",
        "完成",
        Some("已全部启动")
    ));
    assert!(says(
        &all_switched(false, false, false),
        "全部模块",
        "全部模块 -> 停用",
        "进行中",
        None
    ));
    assert!(says(
        &all_switched(false, true, true),
        "全部模块",
        "托盘：全部停用",
        "完成",
        None
    ));
    assert_eq!(mirrored_module("icon_locker"), Some(MirroredModule::IconLocker));
    assert_eq!(
        mirrored_module("topmost_manager"),
        Some(MirroredModule::TopmostManager)
    );
    assert_eq!(mirrored_module("keep_awake"), None);
    assert_eq!(switch_word(true), "开启");
    assert!(says(
        &autostart_changed(true, &AutostartChange::Applied { saved: Ok(()) }),
        "开机自启",
        "开机自启 -> 开启",
        "成功",
        Some("已开启开机自启")
    ));
    assert!(says(
        &autostart_changed(
            false,
            &AutostartChange::Applied {
                saved: Err("e".to_string())
            }
        ),
        "开机自启",
        "开机自启 -> 关闭",
        "配置持久化失败: e",
        Some("已关闭开机自启")
    ));
    assert!(says(
        &autostart_changed(true, &AutostartChange::Refused("r".to_string())),
        "开机自启",
        "开机自启 -> 开启",
        "失败: r",
        None
    ));
    assert!(says(
        &autostart_changed(true, &AutostartChange::TaskFailed),
        "开机自启",
        "开机自启 -> 开启",
        "任务异常",
        None
    ));
}

#[test]
fn rule_and_page_feedback() {
    assert!(says(
        &rule_added("广告"),
        "黑名单",
        "添加关键词 \"广告\"",
        "成功",
        Some("拦截规则已添加并生效")
    ));
    assert!(says(
        &rule_removed("广告"),
        "黑名单",
        "删除关键词 \"广告\"",
        "成功",
        Some("拦截规则已删除")
    ));
    assert_eq!(capture_caption("a.png", "t"), "a.png · t");
    assert!(says(
        &page_opened(ProjectPage::Repository, "u", &PageOutcome::Opened),
        "打开开源地址",
        "u",
        "成功",
        None
    ));
    assert!(says(
        &page_opened(ProjectPage::Download, "u", &PageOutcome::Failed("e".to_string())),
        "打开下载页",
        "u",
        "失败: e",
        Some("打开下载页失败：e")
    ));
    assert!(says(
        &page_opened(ProjectPage::Download, "u", &PageOutcome::TaskFailed),
        "打开下载页",
        "u",
        "任务异常",
        Some("打开下载页任务异常，请重试")
    ));
}

#[test]
fn layout_feedback() {
    assert!(says(
        &layout_saved("甲", 3, &IconOutcome::Done),
        "图标布局",
        "保存方案 \"甲\"（3 个图标）",
        "成功",
        Some("已保存桌面图标布局")
    ));
    assert!(says(
        &layout_saved("甲", 3, &IconOutcome::NoThread("e".to_string())),
        "图标布局",
        "保存方案",
        "独立线程启动失败: e",
        Some("保存布局失败：无法启动 COM 线程（e）")
    ));
    assert!(says(
        &layout_saved("甲", 3, &IconOutcome::Failed("e".to_string())),
        "图标布局",
        "保存方案",
        "失败: e",
        Some("保存布局失败：e")
    ));
    assert!(says(
        &layout_saved("甲", 3, &IconOutcome::Interrupted),
        "图标布局",
        "保存方案",
        "任务异常（COM 结果通道中断）",
        Some("保存布局任务异常，请重试")
    ));
    assert!(says(
        &layout_restored("p", &IconOutcome::Done),
        "图标布局",
        "还原方案 p",
        "成功",
        Some("已还原桌面图标布局（若图标被系统弹回，请排查桌面右键「自动排列图标」）")
    ));
    assert!(says(
        &layout_restored("p", &IconOutcome::Failed("e".to_string())),
        "图标布局",
        "还原方案 p",
        "失败: e",
        Some("还原布局失败：e（若图标被系统弹回，请排查桌面右键「自动排列图标」）")
    ));
    assert!(says(
        &layout_restored("p", &IconOutcome::NoThread("e".to_string())),
        "图标布局",
        "还原方案 p",
        "独立线程启动失败: e",
        Some("还原布局失败：无法启动 COM 线程（e）")
    ));
    assert!(says(
        &layout_restored("p", &IconOutcome::Interrupted),
        "图标布局",
        "还原方案 p",
        "任务异常（COM 结果通道中断）",
        Some("还原布局任务异常，请重试")
    ));
    assert!(says(
        &layout_deleted("p", true),
        "图标布局",
        "删除方案 p",
        "成功",
        Some("已删除布局方案")
    ));
    assert!(says(
        &layout_deleted("p", false),
        "图标布局",
        "删除方案 p",
        "未找到",
        Some("未找到该布局方案")
    ));
    assert_eq!(layouts_status(2), "共 2 个布局方案");
    assert!(says(
        &auto_restore_changed(true),
        "图标布局",
        "自动还原 -> 开启",
        "成功",
        Some("已开启显示器拓扑变化自动还原")
    ));
    assert!(says(
        &auto_restore_changed(false),
        "图标布局",
        "自动还原 -> 关闭",
        "成功",
        Some("已关闭自动还原")
    ));
}

#[test]
fn restart_feedback() {
    assert!(says(
        &admin_restarted(&AdminRestart::Started),
        "UAC 提权",
        "以管理员身份重启",
        "成功（新实例已拉起）",
        None
    ));
    assert!(says(
        &admin_restarted(&AdminRestart::Refused("e".to_string())),
        "UAC 提权",
        "以管理员身份重启",
        "失败: e",
        Some("以管理员身份重启失败：e")
    ));
    assert!(says(
        &admin_restarted(&AdminRestart::TaskFailed),
        "UAC 提权",
        "以管理员身份重启",
        "任务异常",
        Some("以管理员身份重启任务异常，请重试")
    ));
}

#[test]
fn ports_are_listed_anew_only_after_a_save() {
    assert!(rescans_after(true, &Ok(())));
    assert!(!rescans_after(false, &Ok(())));
    assert!(!rescans_after(true, &Err("full".to_string())));
}
