use tltoolbox::bus::{AppEvent, EventBus};
use tltoolbox::modules::port_hunter::killer::{
    announce_kill, check_identity, check_port_freshness, is_protected_target, kill_feedback,
    kill_process_and_release_port, kill_process_with_events, protected_reason, win32_code,
    KillEvent, KillRequest, KillStep, PortError, StaleCheck,
};
use tltoolbox::modules::port_hunter::scanner;

#[test]
fn error_enum_reports_access_denied_and_codes() {
    let denied_open = PortError::OpenProcessFailed { pid: 42, code: 5 };
    assert!(
        denied_open.is_access_denied(),
        "错误码 5 应判定为 UIPI 拦截"
    );
    assert_eq!(denied_open.code(), Some(5));
    assert_eq!(
        denied_open.win32_summary(),
        "Win32 错误码 5 (ERROR_ACCESS_DENIED)"
    );
    assert!(
        denied_open.to_string().contains("PID: 42"),
        "错误文本应回显 PID"
    );

    let denied_term = PortError::TerminateFailed { pid: 7, code: 5 };
    assert!(denied_term.is_access_denied());

    let other = PortError::OpenProcessFailed { pid: 1, code: 87 };
    assert!(!other.is_access_denied(), "87 不是 access denied");
    assert_eq!(
        other.win32_summary(),
        "Win32 错误码 87 (ERROR_INVALID_PARAMETER)"
    );

    let scan = PortError::ScanFailed {
        context: "GetExtendedTcpTable 枚举",
        code: 122,
    };
    assert!(!scan.is_access_denied());
    assert!(scan.to_string().contains("GetExtendedTcpTable"));
}

#[test]
fn kill_without_bus_still_reports_low_level_result() {
    // u32::MAX 恒为不存在的 PID：低层必然失败；总线为
    // None 时结果不被总线逻辑改写（契约验证点）。
    let err = kill_process_with_events(None, u32::MAX, 8080, "TCP", "ghost.exe").unwrap_err();
    assert_eq!(err, PortError::UnsupportedPlatform);
}

#[test]
fn stale_check_descriptions_are_self_explanatory() {
    for (check, needle) in [
        (StaleCheck::ProcessGone, "已退出"),
        (StaleCheck::ImageChanged, "复用"),
        (StaleCheck::PortReleased, "持有"),
    ] {
        let text = check.to_string();
        assert!(
            text.contains(needle),
            "{check:?} 文案应含「{needle}」: {text}"
        );
    }
}

#[test]
fn stale_target_error_model_is_actionable() {
    let err = PortError::StaleTarget {
        pid: 4242,
        check: StaleCheck::ImageChanged,
    };
    assert!(err.is_stale());
    assert!(!err.is_protected(), "失效与闸门拒绝是两类语义");
    assert!(!err.is_access_denied(), "失效不是 UIPI 问题");
    assert_eq!(err.code(), None);
    let text = err.to_string();
    assert!(text.contains("4242"), "应回显 PID: {text}");
    assert!(text.contains("刷新"), "应给出可执行动作: {text}");
}

#[test]
fn identity_recheck_decision_table() {
    let pid = 4242;
    // 实时身份查询失败 → 视为进程已退出。
    match check_identity(pid, scanner::UNKNOWN_PROCESS, "node.exe") {
        Err(PortError::StaleTarget { check, .. }) => assert_eq!(check, StaleCheck::ProcessGone),
        other => panic!("实时身份缺失应判 ProcessGone，实际: {other:?}"),
    }
    // 名称不一致 → PID 复用。
    match check_identity(pid, "node.exe", "java.exe") {
        Err(PortError::StaleTarget { check, .. }) => {
            assert_eq!(check, StaleCheck::ImageChanged)
        }
        other => panic!("名称不一致应判 ImageChanged，实际: {other:?}"),
    }
    // 名称一致（含大小写差异）→ 放行。
    assert!(check_identity(pid, "Node.EXE", "node.exe").is_ok());
    assert!(check_identity(pid, "node.exe", "node.exe").is_ok());
    // 缓存无名（`<unknown>` / 空串）→ 跳过该道，交给端口新鲜度兜底。
    assert!(check_identity(pid, "node.exe", "").is_ok());
    assert!(check_identity(pid, "node.exe", scanner::UNKNOWN_PROCESS).is_ok());
}

#[test]
fn port_freshness_decision_table() {
    let pid = 4242u32;
    assert!(
        check_port_freshness(pid, Some(pid)).is_ok(),
        "持有者即目标应放行"
    );
    for owner in [None, Some(999u32), Some(0u32)] {
        match check_port_freshness(pid, owner) {
            Err(PortError::StaleTarget { check, .. }) => {
                assert_eq!(
                    check,
                    StaleCheck::PortReleased,
                    "持有者 {owner:?} 应判端口已释放"
                )
            }
            other => panic!("持有者 {owner:?} 应被拦下，实际: {other:?}"),
        }
    }
}

#[test]
fn protected_target_covers_kernel_images_and_reserved_ports() {
    // 内核态（PID ≤ 4）：与镜像名 / 端口无关。
    for pid in [0u32, 4] {
        assert!(
            is_protected_target(pid, "anything.exe", 8080),
            "PID {pid} 内核态目标必须被闸门拒绝"
        );
    }
    // 系统服务镜像（大小写不敏感）。
    for name in [
        "svchost.exe",
        "LSASS.EXE",
        "services.exe",
        "spoolsv.exe",
        "dwm.exe",
        "csrss.exe",
        "wininit.exe",
        "smss.exe",
    ] {
        assert!(
            is_protected_target(888, name, 49153),
            "系统镜像 {name} 必须被闸门拒绝"
        );
    }
    // 系统保留端口（占用者即使是未知镜像也必须拒绝）。
    for port in [135u16, 137, 138, 139, 445, 1900, 5353, 5355, 5357] {
        assert!(
            is_protected_target(1234, scanner::UNKNOWN_PROCESS, port),
            "保留端口 {port} 的目标必须被闸门拒绝"
        );
    }
    // 普通开发进程 + 开发端口：放行（不得把闸门做成"谁都杀不了"）。
    assert!(!is_protected_target(1234, "node.exe", 5173));
    assert!(!is_protected_target(1234, "java.exe", 8080));
    assert!(!is_protected_target(1234, "vite.exe", 3000));
}

#[test]
fn protected_process_error_model_is_self_describing() {
    let err = PortError::ProtectedProcess {
        pid: 888,
        reason: "目标为 Windows 系统服务镜像",
    };
    assert!(err.is_protected());
    assert!(!err.is_access_denied(), "闸门拒绝与 UIPI 是两类语义");
    assert_eq!(err.code(), None, "闸门拒绝没有 Win32 错误码");
    let text = err.to_string();
    assert!(text.contains("888"), "文案应回显 PID: {text}");
    assert!(text.contains("系统服务镜像"), "文案应回显原因: {text}");
}

#[test]
fn gate_rejection_publishes_no_toast() {
    let bus = EventBus::new(8);
    let mut rx = bus.subscribe();
    let outcome = kill_process_with_events(Some(&bus), 888, 445, "TCP", "svchost.exe");
    assert!(outcome.is_err(), "闸门命中必然失败");
    assert!(
        rx.try_recv().is_err(),
        "闸门拒绝不得经总线发布 Toast（反馈由装配层统一负责）"
    );
}

fn request(expected: &str) -> KillRequest {
    KillRequest {
        pid: 4242,
        port: 5150,
        expected_name: expected.to_string(),
    }
}

fn identity(name: &str) -> KillEvent {
    KillEvent::Identity(name.to_string())
}

fn run(req: &KillRequest, events: &[KillEvent]) -> KillStep {
    let mut step = KillStep::Identify;
    for event in events {
        step = req.advance(step, event);
    }
    step
}

fn stale(check: StaleCheck) -> KillStep {
    KillStep::Done(Err(PortError::StaleTarget { pid: 4242, check }))
}

#[test]
fn killing_nonexistent_process_fails_gracefully() {
    let req = KillRequest {
        pid: u32::MAX,
        port: 8080,
        expected_name: "ghost.exe".to_string(),
    };
    match req.advance(KillStep::Identify, &identity(scanner::UNKNOWN_PROCESS)) {
        KillStep::Done(Err(err)) => {
            assert!(err.is_stale());
            assert!(!err.to_string().is_empty());
            assert_eq!(err.code(), None);
        }
        other => panic!("unexpected step: {other:?}"),
    }
}

#[test]
fn identity_recheck_blocks_reused_pid_before_terminate() {
    assert_eq!(
        run(&request("not-this.exe"), &[identity("this.exe")]),
        stale(StaleCheck::ImageChanged)
    );
}

#[test]
fn gate_rejects_system_targets_without_touching_terminate() {
    let req = KillRequest {
        pid: 4242,
        port: 445,
        expected_name: "anything.exe".to_string(),
    };
    match req.advance(KillStep::Identify, &identity("this.exe")) {
        KillStep::Done(Err(err)) => {
            assert!(err.is_protected());
            assert!(!err.is_access_denied());
            assert!(err.to_string().contains("系统关键进程"));
        }
        other => panic!("unexpected step: {other:?}"),
    }
}

#[test]
fn attempt_passes_every_check_in_turn() {
    let req = request("Node.exe");
    let events = vec![
        identity("node.EXE"),
        KillEvent::Owner(Ok(Some(4242))),
        KillEvent::Opened(Ok(())),
        KillEvent::Terminated(Ok(())),
    ];
    assert_eq!(run(&req, &events[..1]), KillStep::ProbeOwner);
    assert_eq!(run(&req, &events[..2]), KillStep::Open);
    assert_eq!(run(&req, &events[..3]), KillStep::Terminate);
    assert_eq!(run(&req, &events), KillStep::Done(Ok(())));
}

#[test]
fn attempt_stops_at_the_first_failure() {
    let req = request("node.exe");
    assert_eq!(
        run(&req, &[identity("node.exe"), KillEvent::Owner(Ok(None))]),
        stale(StaleCheck::PortReleased)
    );
    let probe_failed = KillEvent::Owner(Err(PortError::UnsupportedPlatform));
    assert_eq!(run(&req, &[identity("node.exe"), probe_failed]), KillStep::Open);
    assert_eq!(
        req.advance(KillStep::Open, &KillEvent::Opened(Err(0x8007_0005))),
        KillStep::Done(Err(PortError::OpenProcessFailed { pid: 4242, code: 5 }))
    );
    assert_eq!(
        req.advance(KillStep::Terminate, &KillEvent::Terminated(Err(0x8007_0057))),
        KillStep::Done(Err(PortError::TerminateFailed { pid: 4242, code: 87 }))
    );
    assert_eq!(win32_code(0x8007_0005), 5);
}

#[test]
fn events_of_other_steps_change_nothing() {
    let req = request("node.exe");
    assert_eq!(
        req.advance(KillStep::Identify, &KillEvent::Terminated(Ok(()))),
        KillStep::Identify
    );
    assert_eq!(
        req.advance(KillStep::Done(Ok(())), &identity("lsass.exe")),
        KillStep::Done(Ok(()))
    );
}

#[test]
fn protection_reasons_are_told_apart() {
    assert_eq!(
        protected_reason(4, "x", 1),
        "目标为内核态系统进程（PID ≤ 4）"
    );
    assert_eq!(protected_reason(9, "lsass.exe", 445), "目标占用系统保留端口");
    assert_eq!(
        protected_reason(9, "LSASS.exe", 1),
        "目标为 Windows 系统服务镜像"
    );
    assert_eq!(
        protected_reason(9, "node.exe", 1),
        "目标命中系统关键进程保护清单"
    );
}

#[test]
fn error_texts_are_complete() {
    assert_eq!(
        PortError::ScanFailed { context: "GetExtendedTcpTable 枚举", code: 122 }.to_string(),
        "GetExtendedTcpTable 枚举失败: Win32 错误码 122"
    );
    assert_eq!(
        PortError::OpenProcessFailed { pid: 42, code: 5 }.to_string(),
        "打开进程 (PID: 42) 失败: Win32 错误码 5 (ERROR_ACCESS_DENIED)"
    );
    assert_eq!(
        PortError::TerminateFailed { pid: 7, code: 6 }.to_string(),
        "终止进程 (PID: 7) 失败: Win32 错误码 6 (ERROR_INVALID_HANDLE)"
    );
    assert_eq!(
        PortError::ProtectedProcess { pid: 8, reason: "r" }.to_string(),
        "已拒绝终止系统关键进程 (PID: 8)：r（系统进程受保护，本工具不对其执行终止）"
    );
    assert_eq!(
        PortError::StaleTarget { pid: 8, check: StaleCheck::ProcessGone }.to_string(),
        "已中止终止 (PID: 8)：目标进程已退出，请刷新列表后重试"
    );
    assert_eq!(
        PortError::UnsupportedPlatform.to_string(),
        "端口猎手仅支持 Windows 平台"
    );
    assert_eq!(PortError::UnsupportedPlatform.win32_summary(), "不支持的平台");
}

#[test]
fn success_and_refused_access_bring_a_toast() {
    let ok = kill_feedback(&Ok(()), 7, 80, "x.exe");
    assert_eq!(
        ok,
        Some(AppEvent::ToastRequested(
            "已成功释放端口 80，结束进程 x.exe (PID: 7)".to_string()
        ))
    );
    let denied = Err(PortError::TerminateFailed { pid: 7, code: 5 });
    assert_eq!(
        kill_feedback(&denied, 7, 80, "x.exe"),
        Some(AppEvent::ToastRequested(
            "需要管理员权限，请通过顶部盾牌提权运行".to_string()
        ))
    );
    let other = Err(PortError::TerminateFailed { pid: 7, code: 6 });
    assert_eq!(kill_feedback(&other, 7, 80, "x.exe"), None);

    let bus = EventBus::new(8);
    let mut rx = bus.subscribe();
    assert_eq!(announce_kill(Some(&bus), Ok(()), 7, 80, "x.exe"), Ok(()));
    assert_eq!(rx.try_recv().ok(), ok);
    assert_eq!(announce_kill(Some(&bus), other, 7, 80, "x.exe"), other);
    assert!(rx.try_recv().is_err());
    assert_eq!(announce_kill(None, denied, 7, 80, "x.exe"), denied);
    assert_eq!(
        kill_process_and_release_port(7, 80, "TCP", "x.exe"),
        Err(PortError::UnsupportedPlatform)
    );
}
