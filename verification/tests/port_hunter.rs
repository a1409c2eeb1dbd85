use tltoolbox::bus::{AppEvent, EventBus};
use tltoolbox::modules::port_hunter::killer::PortError;
use tltoolbox::modules::port_hunter::logger::{format_line, PortHunterLogger};
use tltoolbox::modules::port_hunter::scanner;
use tltoolbox::modules::port_hunter::{KillReport, PortHunterModule, ScanOutcome};
use tltoolbox::modules::ToolModule;

fn node_row() -> scanner::PortEntry {
    scanner::PortEntry {
        protocol: "TCP".to_string(),
        local_port: 8080,
        local_addr: "127.0.0.1".to_string(),
        pid: 4242,
        process_name: "node.exe".to_string(),
        process_path: "C:\\dev\\node.exe".to_string(),
    }
}

fn report(rows: Vec<scanner::PortEntry>) -> scanner::ScanReport {
    scanner::ScanReport {
        entries: rows,
        tcp_listeners: 8,
        udp_listeners: 3,
    }
}

#[test]
fn mod_metadata_identity_matches_registry_contract() {
    let module = PortHunterModule::default();
    assert_eq!(module.id(), "port_hunter");
    assert_eq!(module.display_name(), "端口占用管理");
    assert_eq!(module.description(), "本地开发端口监听定位与一键释放");
    assert!(!module.is_running(), "即开即用工具不应有运行态");
}

#[test]
fn lifecycle_noop_is_idempotent_and_never_running() {
    let mut module = PortHunterModule::default();
    for _ in 0..3 {
        module.start().expect("start 应幂等成功");
        assert!(!module.is_running(), "即开即用工具不得进入运行态");
        module.start().expect("重复 start 应幂等");
        module.stop().expect("stop 应幂等成功");
        module.stop().expect("重复 stop 应幂等");
    }
}

#[test]
fn cache_starts_empty_and_unknown_pid_falls_back() {
    let module = PortHunterModule::default();
    assert!(module.cached_rows().is_empty(), "新模块缓存应为空");
    assert_eq!(module.process_name_of(999_999), scanner::UNKNOWN_PROCESS);
}

#[test]
fn cached_rows_roundtrip_and_pid_lookup() {
    let mut module = PortHunterModule::default();
    module.record_scan(report(vec![node_row()]));
    assert_eq!(module.process_name_of(4242), "node.exe");
    assert_eq!(module.process_name_of(1), scanner::UNKNOWN_PROCESS);
    assert_eq!(module.cached_rows(), vec![node_row()]);
}

#[test]
fn kill_report_never_panics_and_carries_context() {
    let module = PortHunterModule::default();
    let report = module.kill(u32::MAX, 8080, "TCP");
    assert!(!report.is_success(), "不存在的 PID 必然失败");
    assert_eq!(report.process_name, scanner::UNKNOWN_PROCESS);
    assert_eq!(
        *report.outcome.as_ref().unwrap_err(),
        PortError::UnsupportedPlatform,
        "非 Windows 平台应为 UnsupportedPlatform"
    );
    assert!(report.elapsed_ms < 10_000);
}

#[test]
fn scan_replaces_the_cache() {
    let mut module = PortHunterModule::new("logs");
    let outcome = module.record_scan(report(vec![node_row(), node_row()]));
    assert_eq!(
        outcome,
        ScanOutcome {
            tcp_listeners: 8,
            udp_listeners: 3,
            cached: 2
        }
    );
    assert_eq!(
        module.scan(true),
        Ok(ScanOutcome {
            tcp_listeners: 0,
            udp_listeners: 0,
            cached: 0
        })
    );
    assert!(module.cached_rows().is_empty());
}

#[test]
fn first_row_of_a_process_gives_its_name() {
    let mut module = PortHunterModule::default();
    let mut second = node_row();
    second.process_name = "other.exe".to_string();
    module.record_scan(report(vec![node_row(), second]));
    assert_eq!(module.process_name_of(4242), "node.exe");
}

#[test]
fn concluded_kill_is_announced_on_the_attached_bus() {
    let bus = EventBus::new(8);
    let mut rx = bus.subscribe();
    let mut module = PortHunterModule::default();
    module.record_scan(report(vec![node_row()]));
    module.attach_bus(Some(bus));
    module.attach_bus(None);
    let done = module.conclude_kill(4242, 8080, Ok(()), 12);
    assert!(done.is_success());
    assert_eq!(done.elapsed_ms, 12);
    assert_eq!(done.process_name, "node.exe");
    assert_eq!(
        rx.try_recv(),
        Ok(AppEvent::ToastRequested(
            "已成功释放端口 8080，结束进程 node.exe (PID: 4242)".to_string()
        ))
    );
}

#[test]
fn typed_events_append_lines_with_timestamps_and_details() {
    let logger = PortHunterLogger::new("logs");
    // 2026-01-02 03:04:05.678901 UTC
    let nanos: i64 = 1_767_323_045_678_901_234;
    let lines = vec![
        logger.log_scan(nanos, 8, 3, 9, false),
        logger.log_search(nanos, "5173", Some(5173)),
        logger.log_kill_success(nanos, 5173, "TCP", "node.exe", 12345, 2),
        logger.log_kill_failure(
            nanos,
            8080,
            "TCP",
            "java.exe",
            54321,
            "Win32 错误码 5 (ERROR_ACCESS_DENIED)",
        ),
    ];
    assert!(lines[0].contains("[SCAN]") && lines[0].contains("TCP 8 条, UDP 3 条"));
    assert!(
        lines[1].contains("[SEARCH]") && lines[1].contains("5173") && lines[1].contains("已应用")
    );
    assert!(
        lines[2].contains("[KILL]")
            && lines[2].contains("释放端口 5173 (TCP)")
            && lines[2].contains("node.exe (PID: 12345)")
            && lines[2].contains("成功（耗时 2ms）")
    );
    assert!(
        lines[3].contains("[KILL]")
            && lines[3].contains("失败: Win32 错误码 5 (ERROR_ACCESS_DENIED)")
    );
    for line in &lines {
        assert!(line.ends_with('\n'));
        let timestamp = line
            .split(']')
            .next()
            .expect("行首应为时间戳")
            .trim_start_matches('[');
        let parsed = chrono::DateTime::parse_from_rfc3339(timestamp);
        assert!(parsed.is_ok(), "时间戳应可被 RFC3339 解析，实际: {timestamp:?}");
        assert_eq!(
            parsed.unwrap().timestamp_nanos_opt(),
            Some(1_767_323_045_678_901_000)
        );
    }
    assert_eq!(
        lines[0],
        "[2026-01-02T03:04:05.678901Z] [SCAN] 扫描监听端口: TCP 8 条, UDP 3 条, 会话隔离后缓存 9 条, show_system_ports=false <-> 完成\n"
    );
    let last = logger.log_search(nanos, "node", None);
    assert!(last.contains("[SEARCH]"));
    assert!(!last.contains("5173"), "无显式端口时不应带豁免提示");
}

#[test]
fn logger_targets_the_file_in_its_directory() {
    let logger = PortHunterLogger::new("/var/log/tlt");
    assert_eq!(logger.file_path(), "/var/log/tlt/port_hunter.log");
    assert_eq!(
        format_line("t", "C", "d", "r"),
        "[t] [C] d <-> r\n".to_string()
    );
}

#[test]
fn module_lines_follow_the_search_and_the_report() {
    let module = PortHunterModule::default();
    assert!(module
        .log_search(0, " 60000 ")
        .contains("搜索关键词 \" 60000 \"（解析出显式端口号 60000，动态端口过滤已豁免） <-> 已应用"));
    let report = KillReport {
        process_name: "x.exe".to_string(),
        elapsed_ms: 7,
        outcome: Ok(()),
    };
    assert_eq!(
        module.log_kill(0, 9, 80, "TCP", &report),
        "[1970-01-01T00:00:00.000000Z] [KILL] 释放端口 80 (TCP), 终止进程 x.exe (PID: 9) <-> 成功（耗时 7ms）\n"
    );
    let failed = KillReport {
        process_name: "x.exe".to_string(),
        elapsed_ms: 7,
        outcome: Err(PortError::UnsupportedPlatform),
    };
    let copy = failed.clone();
    assert_eq!((copy.process_name, copy.elapsed_ms), ("x.exe".to_string(), 7));
    assert_eq!(copy.outcome, Err(PortError::UnsupportedPlatform));
    assert!(module
        .log_kill(0, 9, 80, "TCP", &failed)
        .ends_with("-> 失败: 端口猎手仅支持 Windows 平台\n"));
}

#[test]
fn module_line_of_a_scan() {
    let mut module = PortHunterModule::default();
    let outcome = module.record_scan(report(vec![node_row()]));
    assert_eq!(
        module.log_scan(0, &outcome, true),
        "[1970-01-01T00:00:00.000000Z] [SCAN] 扫描监听端口: TCP 8 条, UDP 3 条, 会话隔离后缓存 1 条, show_system_ports=true <-> 完成\n"
    );
    assert_eq!(module.logger().file_path(), "logs/port_hunter/port_hunter.log");
}
