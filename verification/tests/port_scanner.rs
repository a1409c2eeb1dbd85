use std::collections::HashMap;
use tltoolbox::modules::port_hunter::killer::PortError;
use tltoolbox::modules::port_hunter::scanner::{
    assemble_report, current_session_id, decode_tcp_table, decode_udp_table, denoise_all,
    distinct_pids, enrich, enrich_all, filter_dynamic_ports, filter_port_rows, filter_same_session,
    filter_search, filter_system_services, fmt_ipv4, gather_listeners, is_iana_dynamic_port, is_kernel_owner,
    is_listen_state, is_physically_blocked, is_reserved_port, is_system_image,
    is_system_service_entry, matches_needle, needs_fetch, ntohs_port, owner_of_port,
    parse_explicit_port, parse_tcp_table, parse_udp_table, identity_with, process_identity,
    query_process_identity, scan_and_collect, scan_tcp_listeners, scan_udp_listeners,
    session_of_pid, FilterOptions, PortEntry, RawListener, TableRead, TCP_PROTOCOL_CODE,
    UDP_PROTOCOL_CODE, UNKNOWN_PROCESS,
};


fn entry(protocol: &str, port: u16, addr: &str, pid: u32, process_name: &str) -> PortEntry {
    PortEntry {
        protocol: protocol.to_string(),
        local_port: port,
        local_addr: addr.to_string(),
        pid,
        process_name: process_name.to_string(),
        process_path: format!("C:\\Program Files\\{process_name}"),
    }
}

// ---- 阶段 1 · 状态降噪 ----

#[test]
fn listen_state_only_keeps_mib_tcp_state_listen() {
    assert!(is_listen_state(2), "MIB_TCP_STATE_LISTEN(2) 应判定为监听");
    assert!(!is_listen_state(5), "ESTABLISHED(5) 应被剔除");
    assert!(!is_listen_state(11), "TIME_WAIT(11) 应被剔除");
    assert!(!is_listen_state(8), "CLOSE_WAIT(8) 应被剔除");
    assert!(!is_listen_state(3), "SYN_SENT(3) 应被剔除");
    assert!(!is_listen_state(1), "CLOSED(1) 应被剔除");
    assert!(!is_listen_state(0), "未知状态 0 应被剔除");
}

// ---- 阶段 2 · 动态端口降噪 ----

#[test]
fn iana_dynamic_port_interval_boundaries() {
    assert!(!is_iana_dynamic_port(49151), "49151 应在动态区间之外");
    assert!(is_iana_dynamic_port(49152), "49152 是动态区间起点");
    assert!(is_iana_dynamic_port(60000), "60000 落在 IANA 动态区间内");
    assert!(is_iana_dynamic_port(65535), "65535 是动态区间终点");
    assert!(
        !is_iana_dynamic_port(5173),
        "5173 低于 IANA 动态区间下限（注册端口，默认保留）"
    );
    assert!(
        !is_iana_dynamic_port(8080),
        "8080 是常用开发端口，不属于动态区间"
    );
    assert!(
        !is_iana_dynamic_port(3000),
        "3000 是常用开发端口，不属于动态区间"
    );
}

#[test]
fn dynamic_ports_filtered_unless_show_system_or_explicit_search() {
    let rows = vec![
        entry("TCP", 80, "0.0.0.0", 100, "nginx.exe"),
        entry("TCP", 8080, "127.0.0.1", 101, "java.exe"),
        entry("TCP", 5173, "127.0.0.1", 102, "node.exe"),
        entry("UDP", 49152, "0.0.0.0", 103, "game.exe"),
        entry("TCP", 60000, "0.0.0.0", 104, "devtools.exe"),
    ];

    // 默认（show=false，无显式端口）：动态端口（49152..=65535）被剔除；
    // 5173 低于动态区间下限，属于需保留的开发端口。
    let filtered = filter_dynamic_ports(&rows, &FilterOptions::default());
    let ports: Vec<u16> = filtered.iter().map(|e| e.local_port).collect();
    assert_eq!(
        ports,
        vec![80, 8080, 5173],
        "默认应剔除 49152 与 60000，保留 5173（非 IANA 动态端口）"
    );

    // show_system_ports = true：全部保留。
    let filtered = filter_dynamic_ports(
        &rows,
        &FilterOptions {
            show_system_ports: true,
            explicit_port: None,
        },
    );
    assert_eq!(filtered.len(), 5, "显示系统与高位端口时应全部保留");

    // show=false 但搜索框显式输入了端口号：动态端口豁免（用户点名必须可见）。
    let filtered = filter_dynamic_ports(
        &rows,
        &FilterOptions {
            show_system_ports: false,
            explicit_port: Some(60000),
        },
    );
    assert_eq!(filtered.len(), 5, "显式端口输入应豁免动态端口过滤");
}

// ---- 阶段 3 · 会话隔离 ----

#[test]
fn session_isolation_drops_session_zero_but_keeps_unknown() {
    let rows = vec![
        entry("TCP", 8080, "0.0.0.0", 1001, "node.exe"),
        entry("TCP", 80, "0.0.0.0", 4, "System"), // Session 0 服务条目
        entry("UDP", 5353, "0.0.0.0", 1002, "svc.exe"), // 查询失败（未知会话）
    ];
    let sessions = HashMap::from([(1001, Some(1u32)), (4, Some(0u32)), (1002, None)]);

    let kept = filter_same_session(&rows, &sessions, 1);
    let pids: Vec<u32> = kept.iter().map(|e| e.pid).collect();
    assert_eq!(
        pids,
        vec![1001, 1002],
        "Session 1 条目保留；Session 0（System）剔除；查询失败的条目保守保留"
    );
    assert!(
        !kept.iter().any(|e| e.pid == 4),
        "Session 0 的 PID 4 必须被会话隔离剔除"
    );
}

// ---- 阶段 4 · 系统服务黑名单 ----

#[test]
fn system_service_blacklist_covers_pid_images_and_reserved_ports() {
    assert!(is_system_service_entry(0, "Idle", 0), "PID 0（Idle）应命中");
    assert!(
        is_system_service_entry(4, "System", 4),
        "PID 4（System）应命中"
    );
    assert!(
        is_system_service_entry(888, "svchost.exe", 49153),
        "svchost.exe 应命中"
    );
    assert!(
        is_system_service_entry(888, "SVCHOST.EXE", 49153),
        "镜像名应大小写不敏感"
    );
    assert!(
        is_system_service_entry(888, "lsass.exe", 49153),
        "lsass.exe 应命中"
    );
    assert!(
        is_system_service_entry(888, "services.exe", 49153),
        "services.exe 应命中"
    );
    assert!(
        is_system_service_entry(888, "spoolsv.exe", 49153),
        "spoolsv.exe 应命中"
    );
    assert!(
        is_system_service_entry(888, "DWM.EXE", 49153),
        "dwm.exe 应命中"
    );
    assert!(
        is_system_service_entry(1234, "anything.exe", 135),
        "保留端口 135 应命中"
    );
    assert!(
        is_system_service_entry(1234, "anything.exe", 445),
        "保留端口 445 应命中"
    );
    assert!(
        is_system_service_entry(1234, "anything.exe", 5357),
        "保留端口 5357 应命中"
    );
    assert!(
        is_system_service_entry(1234, "anything.exe", 139),
        "SMB 固定监听 139 应命中"
    );
    // 广播 / 系统服务端口全部进入黑名单（show=false 时不再刷屏）。
    for broadcast_port in [137u16, 138, 1900, 5353, 5355] {
        assert!(
            is_system_service_entry(1234, "anything.exe", broadcast_port),
            "广播 / 系统端口 {broadcast_port} 应命中黑名单"
        );
    }
    assert!(
        !is_system_service_entry(1234, "node.exe", 3000),
        "普通开发进程 + 开发端口不应命中"
    );
    assert!(
        !is_system_service_entry(1234, "node.exe", 5173),
        "动态端口本身不触发黑名单（由阶段 2 负责）"
    );
}

#[test]
fn kernel_owner_is_unconditionally_filtered_even_when_showing_system() {
    assert!(is_kernel_owner(0), "Idle(0) 恒为内核态");
    assert!(is_kernel_owner(4), "System(4) 恒为内核态");
    assert!(!is_kernel_owner(5), "PID 5 不是内核态");
    assert!(!is_kernel_owner(888), "普通进程 PID 不是内核态");

    // 「显示系统服务与高位端口」开启时，svchost 等黑名单豁免，但 PID ≤ 4
    // 的内核态条目仍无条件剔除——列表绝不出现「(PID: 4)」。
    let rows = vec![
        entry("TCP", 80, "0.0.0.0", 4, "System"),
        entry("TCP", 135, "0.0.0.0", 888, "svchost.exe"),
        entry("TCP", 8080, "127.0.0.1", 101, "java.exe"),
    ];
    let filtered = filter_system_services(
        &rows,
        &FilterOptions {
            show_system_ports: true,
            explicit_port: None,
        },
    );
    assert_eq!(filtered.len(), 2, "显示系统服务时仍剔除 PID 4 内核态条目");
    assert!(
        filtered.iter().all(|e| e.pid > 4),
        "任何展示形态下都不得包含 PID ≤ 4 的条目"
    );
}

#[test]
fn system_services_filtered_unless_show_system() {
    let rows = vec![
        entry("TCP", 80, "0.0.0.0", 4, "System"),
        entry("TCP", 135, "0.0.0.0", 888, "svchost.exe"),
        entry("TCP", 8080, "127.0.0.1", 101, "java.exe"),
    ];
    let filtered = filter_system_services(&rows, &FilterOptions::default());
    let ports: Vec<u16> = filtered.iter().map(|e| e.local_port).collect();
    assert_eq!(
        ports,
        vec![8080],
        "默认黑名单应剔除 System/svchost/保留端口"
    );

    // show=true：黑名单整体豁免，但 PID 4（System）内核态条目仍无条件剔除
    //（PID ≤ 4 永不展示，见 is_kernel_owner）。
    let filtered = filter_system_services(
        &rows,
        &FilterOptions {
            show_system_ports: true,
            explicit_port: None,
        },
    );
    let ports: Vec<u16> = filtered.iter().map(|e| e.local_port).collect();
    assert_eq!(
        ports,
        vec![135, 8080],
        "显示系统服务时仅剩 PID 4 被无条件剔除"
    );
}

// ---- 显式端口解析 ----

#[test]
fn explicit_port_parses_only_plain_numeric_searches() {
    assert_eq!(parse_explicit_port("5173"), Some(5173));
    assert_eq!(parse_explicit_port(" 8080 "), Some(8080));
    assert_eq!(parse_explicit_port("65535"), Some(65535));
    assert_eq!(parse_explicit_port("1"), Some(1));
    assert_eq!(
        parse_explicit_port("0"),
        None,
        "端口 0 无意义，不视为显式输入"
    );
    assert_eq!(parse_explicit_port("node"), None);
    assert_eq!(parse_explicit_port(""), None);
    assert_eq!(parse_explicit_port("5173x"), None, "混合输入不视为端口号");
    assert_eq!(
        parse_explicit_port("65536"),
        None,
        "超出 u16 上限不视为端口号"
    );
}

// ---- 展示期完整过滤（阶段 2 + 4 + 搜索匹配） ----

#[test]
fn display_filter_hides_system_rows_but_respects_explicit_dynamic_port_search() {
    // 模拟模块缓存（状态 + 会话已降噪，仍含动态端口与系统黑名单条目）。
    let rows = vec![
        entry("TCP", 8080, "127.0.0.1", 1001, "node.exe"),
        entry("TCP", 3000, "127.0.0.1", 1003, "vite.exe"),
        entry("TCP", 60000, "127.0.0.1", 1004, "node.exe"), // IANA 动态端口
        entry("TCP", 80, "0.0.0.0", 4, "System"),
        entry("TCP", 445, "0.0.0.0", 888, "svchost.exe"),
    ];

    // 默认（show=false，空搜索）：动态端口 + 系统黑名单全部隐藏。
    let filtered = filter_port_rows(&rows, "", false);
    let ports: Vec<u16> = filtered.iter().map(|e| e.local_port).collect();
    assert_eq!(ports, vec![8080, 3000], "默认只剩 8080 / 3000 两个开发端口");

    // 显式搜索动态端口 60000：阶段 2 豁免 → 行可见（用户点名必须找得到）。
    let filtered = filter_port_rows(&rows, "60000", false);
    assert_eq!(filtered.len(), 1, "显式端口搜索应命中 60000 一行");
    assert_eq!(filtered[0].local_port, 60000);

    // 搜索进程名：子串匹配；动态端口仍被阶段 2 隐藏（5173 未在缓存中）。
    let filtered = filter_port_rows(&rows, "node", false);
    let ports: Vec<u16> = filtered.iter().map(|e| e.local_port).collect();
    assert_eq!(
        ports,
        vec![8080],
        "进程名搜索命中 node.exe 的 8080；60000 动态端口仍被隐藏"
    );

    // 搜索系统镜像名但不打开「显示系统服务」：阶段 4 仍生效（黑名单优先）。
    let filtered = filter_port_rows(&rows, "svchost", false);
    assert!(
        filtered.is_empty(),
        "未开启显示系统服务时黑色名单进程不可见"
    );

    // show=true：系统 / 动态全部可见；但 PID 4（System）内核态条目仍无条件
    // 剔除（见 is_kernel_owner）——目录中的 System 一行不再出现。
    let filtered = filter_port_rows(&rows, "", true);
    assert_eq!(
        filtered.len(),
        4,
        "显示系统服务时展示除 PID 4 外的全部缓存行"
    );
    assert!(
        filtered.iter().all(|e| e.pid > 4),
        "任何展示形态下都不得包含 PID ≤ 4 的条目"
    );
    let filtered = filter_port_rows(&rows, "node", true);
    let ports: Vec<u16> = filtered.iter().map(|e| e.local_port).collect();
    assert_eq!(
        ports,
        vec![8080, 60000],
        "显示全量后按进程名搜索命中两条 node 行"
    );

    // 协议子串搜索（TCP）。
    let filtered = filter_port_rows(&rows, "udp", false);
    assert!(filtered.is_empty(), "无 UDP 条目时协议搜索应空");
}

/// 四阶段全量管线（denoise_all）组合语义：与逐阶段调用结果一致。
#[test]
fn denoise_all_composes_four_stages_in_order() {
    let rows = vec![
        entry("TCP", 8080, "127.0.0.1", 1001, "node.exe"),
        entry("TCP", 60000, "127.0.0.1", 1002, "node.exe"), // IANA 动态端口
        entry("TCP", 49152, "0.0.0.0", 0, "Idle"),          // Session 0 + 动态
        entry("TCP", 445, "0.0.0.0", 888, "svchost.exe"),   // 黑名单
    ];
    let sessions = HashMap::from([
        (1001, Some(1u32)),
        (1002, Some(1u32)),
        (0, Some(0u32)),
        (888, Some(1u32)),
    ]);
    let opts = FilterOptions {
        show_system_ports: false,
        explicit_port: None,
    };

    let kept = denoise_all(&rows, &opts, &sessions, 1);
    let ports: Vec<u16> = kept.iter().map(|e| e.local_port).collect();
    assert_eq!(
        ports,
        vec![8080],
        "四阶段后仅剩同会话 + 非动态 + 非黑名单的 8080"
    );

    // 显式搜索 60000：动态豁免，但会话 / 黑名单仍生效。
    let opts = FilterOptions {
        show_system_ports: false,
        explicit_port: Some(60000),
    };
    let kept = denoise_all(&rows, &opts, &sessions, 1);
    let ports: Vec<u16> = kept.iter().map(|e| e.local_port).collect();
    assert_eq!(ports, vec![8080, 60000], "显式端口只豁免阶段 2，不放松 3/4");
}

// ---- 物理阻断（循环首行硬编码拦截，PID ≤ 4 绝不允许进入任何 Vec） ----

#[test]
fn physical_block_never_lets_kernel_owner_enter() {
    // PID ≤ 4（含 0）无论端口 / 显示选项如何，一律物理阻断。
    for pid in [0u32, 1, 2, 3, 4] {
        assert!(
            is_physically_blocked(pid, 8080, true),
            "PID {pid} 即使显示系统端口也阻断"
        );
        assert!(
            is_physically_blocked(pid, 8080, false),
            "PID {pid} 默认形态阻断"
        );
        assert!(
            is_physically_blocked(pid, 0, false),
            "PID {pid} 任意端口阻断"
        );
    }
    assert!(
        !is_physically_blocked(5, 8080, true),
        "PID 5 非内核态，显示系统端口时放行"
    );
    assert!(!is_physically_blocked(888, 8080, true), "普通 PID 放行");
}

#[test]
fn physical_block_drops_system_ports_unless_shown() {
    // show=false：9 个系统保留端口全部在循环内跳过。
    for port in [135u16, 137, 138, 139, 445, 1900, 5353, 5355, 5357] {
        assert!(
            is_physically_blocked(888, port, false),
            "默认形态下系统端口 {port} 应被物理阻断"
        );
    }
    // show=true：放行（PID 正常）。
    for port in [135u16, 1900, 5353] {
        assert!(
            !is_physically_blocked(888, port, true),
            "显示系统服务时 {port} 放行"
        );
    }
    // 普通开发端口两种形态均放行。
    assert!(!is_physically_blocked(888, 8080, false));
    assert!(!is_physically_blocked(888, 5173, false));
}

#[test]
fn physical_block_dedup_key_uses_protocol_code_port_pid() {
    // 协议码区分 TCP(6)/UDP(17)：同端口同 PID 不同协议不算重复。
    assert_ne!(TCP_PROTOCOL_CODE, UDP_PROTOCOL_CODE);
    // 复刻 parse 循环内的去重逻辑：以 (协议码, 端口, PID) 为 key，多 IP 只留首行。
    // 使用非系统端口（8080），确保物理阻断不干扰本测试的去重语义。
    let mut seen: std::collections::HashSet<(u8, u16, u32)> = std::collections::HashSet::new();
    let rows = [
        (TCP_PROTOCOL_CODE, 8080u16, 1001u32),
        (TCP_PROTOCOL_CODE, 8080, 1001), // 同进程多 IP：重复
        (TCP_PROTOCOL_CODE, 8080, 1002), // 不同 PID：不重复
        (UDP_PROTOCOL_CODE, 8080, 1001), // 不同协议：不重复
    ];
    let kept: Vec<_> = rows
        .into_iter()
        .filter(|(_, port, pid)| !is_physically_blocked(*pid, *port, false))
        .filter(|key| seen.insert(*key))
        .collect();
    assert_eq!(kept.len(), 3, "同协议同端口同 PID 的重复行被丢弃，其余保留");
    assert_eq!(kept[0], (TCP_PROTOCOL_CODE, 8080, 1001));
    assert_eq!(kept[1], (TCP_PROTOCOL_CODE, 8080, 1002));
    assert_eq!(kept[2], (UDP_PROTOCOL_CODE, 8080, 1001));
}

// ---- 端口 / 地址字节序（Windows 网络字节序 → 主机序） ----

#[test]
fn port_and_address_byte_order_conversions() {
    // dwLocalPort 为网络字节序（低 16 位）：端口 5173 (0x1435) 以 LE u32 读取
    // 得到 0x3514；ntohs_port 经 from_be 还原。
    assert_eq!(ntohs_port(0x3514), 5173);
    // 8080 = 0x1F90 → 内存 LE 读 = 0x901F → from_be = 0x1F90 = 8080。
    assert_eq!(ntohs_port(0x901F), 8080);

    assert_eq!(fmt_ipv4(0), "0.0.0.0");
    assert_eq!(fmt_ipv4(0x7F00_0001), "127.0.0.1");
    assert_eq!(fmt_ipv4(0xC0A8_0001), "192.168.0.1");
    assert_eq!(fmt_ipv4(0xFFFF_FFFF), "255.255.255.255");
}

#[test]
fn port_byte_order_roundtrip() {
    // 网络字节序 → 主机序往返：任意端口的 from_be 幂等性。
    for port in [80u16, 443, 3000, 5173, 65535] {
        let network_ordered = u16::to_be(port); // API 存储形态（u16 取低 16 位）
        assert_eq!(
            ntohs_port(network_ordered as u32),
            port,
            "端口 {port} 往返应一致"
        );
    }
}

/// Windows 集成冒烟：真实枚举本机监听表（无需网络；断言仅限调用成功与
/// 结构合法性，不依赖机器上的具体端口）。
///
/// 物理阻断（PID ≤ 4 与默认形态的系统保留端口）在
/// 原生表项遍历循环内生效——产物中**绝不允许**出现 PID ≤ 4，且默认形态
/// 下 9 个系统保留端口一个都不该在场。
#[test]
fn live_scan_smoke_test_on_windows() {
    // 默认形态（show=false）：物理阻断应剔除全部 PID ≤ 4 与系统保留端口。
    let report = scan_and_collect(false).expect("本机监听表扫描应成功");
    for entry in &report.entries {
        assert!(!entry.protocol.is_empty());
        assert!(entry.local_port > 0, "监听端口不应为 0");
        assert!(entry.pid > 4, "物理阻断失效：扫描产物绝不允许出现 PID ≤ 4");
        assert!(
            !is_reserved_port(entry.local_port),
            "物理阻断失效：默认形态下系统保留端口 {} 不应在场",
            entry.local_port
        );
    }
    assert!(
        report.tcp_listeners + report.udp_listeners >= report.entries.len(),
        "降噪后条目数不应超过原始枚举数"
    );

    // 显示系统服务形态（show=true）：PID ≤ 4 仍被无条件物理阻断（内核态
    // 绝不进入任何 Vec），系统端口放行。
    let report = scan_and_collect(true).expect("本机监听表扫描应成功");
    for entry in &report.entries {
        assert!(
            entry.pid > 4,
            "物理阻断失效：即使显示系统服务，PID ≤ 4 也不得进入"
        );
    }
}

// ---- Owner tables ----

fn tcp_buffer(rows: &[(u32, [u8; 4], u16, u32)]) -> Vec<u8> {
    let mut b = (rows.len() as u32).to_le_bytes().to_vec();
    for (state, addr, port, pid) in rows {
        b.extend_from_slice(&state.to_le_bytes());
        b.extend_from_slice(addr);
        b.extend_from_slice(&port.to_be_bytes());
        b.extend_from_slice(&[0, 0]);
        b.extend_from_slice(&[9; 8]);
        b.extend_from_slice(&pid.to_le_bytes());
    }
    b
}

fn udp_buffer(rows: &[([u8; 4], u16, u32)]) -> Vec<u8> {
    let mut b = (rows.len() as u32).to_le_bytes().to_vec();
    for (addr, port, pid) in rows {
        b.extend_from_slice(addr);
        b.extend_from_slice(&port.to_be_bytes());
        b.extend_from_slice(&[0, 0]);
        b.extend_from_slice(&pid.to_le_bytes());
    }
    b
}

fn keys(listeners: &[RawListener]) -> Vec<(String, u16, u32)> {
    listeners
        .iter()
        .map(|l| (l.protocol.clone(), l.local_port, l.pid))
        .collect()
}

fn key(protocol: &str, port: u16, pid: u32) -> (String, u16, u32) {
    (protocol.to_string(), port, pid)
}

#[test]
fn tcp_table_lists_listeners_once_per_owner() {
    let buffer = tcp_buffer(&[
        (2, [127, 0, 0, 1], 8080, 1001),
        (5, [127, 0, 0, 1], 8081, 1001),
        (2, [0, 0, 0, 0], 8080, 1001),
        (2, [0, 0, 0, 0], 8080, 1002),
        (2, [0, 0, 0, 0], 445, 900),
        (2, [0, 0, 0, 0], 80, 4),
        (2, [0, 0, 0, 0], 60000, 77),
    ]);
    assert_eq!(decode_tcp_table(&buffer).len(), 7);
    let hidden = parse_tcp_table(&buffer, false);
    assert_eq!(
        keys(&hidden),
        vec![
            key("TCP", 8080, 1001),
            key("TCP", 8080, 1002),
            key("TCP", 60000, 77)
        ]
    );
    assert_eq!(hidden[0].local_addr, "127.0.0.1");
    assert_eq!(hidden[1].local_addr, "0.0.0.0");
    let shown = parse_tcp_table(&buffer, true);
    assert_eq!(shown.len(), 4);
    assert_eq!(shown[2].local_port, 445);
}

#[test]
fn udp_table_lists_every_bound_port() {
    let buffer = udp_buffer(&[
        ([0, 0, 0, 0], 5353, 50),
        ([192, 168, 1, 2], 6000, 51),
        ([0, 0, 0, 0], 6000, 51),
        ([0, 0, 0, 0], 53, 0),
    ]);
    assert_eq!(decode_udp_table(&buffer).len(), 4);
    let hidden = parse_udp_table(&buffer, false);
    assert_eq!(keys(&hidden), vec![key("UDP", 6000, 51)]);
    assert_eq!(hidden[0].local_addr, "192.168.1.2");
    assert_eq!(
        keys(&parse_udp_table(&buffer, true)),
        vec![key("UDP", 5353, 50), key("UDP", 6000, 51)]
    );
}

#[test]
fn short_or_truncated_tables_are_read_as_far_as_they_reach() {
    assert!(parse_tcp_table(&[], true).is_empty());
    assert!(parse_tcp_table(&[1, 0, 0], true).is_empty());
    assert!(parse_udp_table(&[9, 0, 0, 0], true).is_empty());
    let mut buffer = tcp_buffer(&[(2, [0, 0, 0, 0], 8080, 1001)]);
    buffer[0] = 200;
    buffer.extend_from_slice(&[1; 23]);
    assert_eq!(parse_tcp_table(&buffer, true).len(), 1);
}

#[test]
fn table_reads_fail_by_step_and_code() {
    let buffer = tcp_buffer(&[(2, [0, 0, 0, 0], 8080, 1001)]);
    let read = |probe_code: u32, fetch_code: u32| TableRead {
        probe_code,
        fetch_code,
        buffer: buffer.clone(),
    };
    assert!(needs_fetch(122));
    assert!(!needs_fetch(0));
    assert!(scan_tcp_listeners(&read(0, 9), true).unwrap().is_empty());
    assert_eq!(
        scan_tcp_listeners(&read(5, 0), true),
        Err(PortError::ScanFailed {
            context: "GetExtendedTcpTable 尺寸探测",
            code: 5
        })
    );
    assert_eq!(
        scan_tcp_listeners(&read(122, 87), true),
        Err(PortError::ScanFailed {
            context: "GetExtendedTcpTable 枚举",
            code: 87
        })
    );
    assert_eq!(scan_tcp_listeners(&read(122, 0), true).unwrap().len(), 1);
    assert_eq!(
        scan_udp_listeners(&read(6, 0), true),
        Err(PortError::ScanFailed {
            context: "GetExtendedUdpTable 尺寸探测",
            code: 6
        })
    );
    assert_eq!(
        scan_udp_listeners(&read(122, 7), true),
        Err(PortError::ScanFailed {
            context: "GetExtendedUdpTable 枚举",
            code: 7
        })
    );
}

#[test]
fn report_is_assembled_from_listeners_identities_and_sessions() {
    let raw = RawListener {
        protocol: "TCP".to_string(),
        local_port: 8080,
        local_addr: "0.0.0.0".to_string(),
        pid: 77,
    };
    let row = enrich(raw, identity_with("C:\\a\\x.exe".to_string(), Some("x.exe".to_string())));
    assert_eq!(row.process_name, "x.exe");
    assert_eq!(row.process_path, "C:\\a\\x.exe");
    assert_eq!(
        identity_with("p".to_string(), Some(String::new())),
        ("p".to_string(), "p".to_string())
    );
    assert_eq!(
        identity_with("p".to_string(), None),
        ("p".to_string(), "p".to_string())
    );
    let rows = vec![row.clone(), entry("UDP", 1, "0.0.0.0", 78, "y.exe"), row.clone()];
    assert_eq!(distinct_pids(&rows), vec![77, 78]);
    let sessions = HashMap::from([(77, Some(1u32)), (78, Some(0u32))]);
    let report = assemble_report(rows.clone(), 2, 1, &sessions, Some(1));
    assert_eq!(report.entries.len(), 2);
    assert_eq!((report.tcp_listeners, report.udp_listeners), (2, 1));
    assert_eq!(assemble_report(rows, 2, 1, &sessions, None).entries.len(), 3);
}

#[test]
fn process_is_named_by_the_end_of_its_path() {
    let name = |path: &str| {
        let (name, kept) = process_identity(path.to_string());
        assert_eq!(kept, path);
        name
    };
    assert_eq!(name("/usr/bin/tool"), "tool");
    assert_eq!(name("C:/Tools/x.exe"), "x.exe");
    assert_eq!(name("x.exe"), "x.exe");
    assert!(name("C:\\Tools\\x.exe").ends_with("x.exe"));
    assert_eq!(name("/"), "/");
    assert_eq!(name("a/.."), "a/..");
    assert_eq!(name(""), "");
}

#[test]
fn scan_report_is_cloned_with_its_rows() {
    let sessions = HashMap::new();
    let rows = vec![entry("TCP", 80, "0.0.0.0", 4, "x"), entry("UDP", 1, "1.2.3.4", 5, "y")];
    let report = assemble_report(rows.clone(), 3, 4, &sessions, None);
    assert_eq!(report.clone(), report);
    assert_eq!(report.clone().entries, rows);
}

#[test]
fn portable_lookups_find_nothing() {
    assert_eq!(current_session_id(), None);
    assert_eq!(session_of_pid(7), None);
    assert_eq!(
        query_process_identity(7),
        (UNKNOWN_PROCESS.to_string(), String::new())
    );
    let report = scan_and_collect(true).unwrap();
    assert!(report.entries.is_empty());
    assert_eq!(report.tcp_listeners + report.udp_listeners, 0);
}

#[test]
fn owner_of_port_needs_port_and_protocol() {
    let buffer = tcp_buffer(&[
        (2, [0, 0, 0, 0], 8080, 1001),
        (2, [0, 0, 0, 0], 9090, 1002),
    ]);
    let listeners = parse_tcp_table(&buffer, true);
    assert_eq!(owner_of_port(&listeners, 9090, "TCP"), Some(1002));
    assert_eq!(owner_of_port(&listeners, 9090, "UDP"), None);
    assert_eq!(owner_of_port(&listeners, 1, "TCP"), None);
}

#[test]
fn plus_sign_is_no_port_number() {
    assert_eq!(parse_explicit_port("+80"), None);
    assert_eq!(parse_explicit_port("-80"), None);
    assert_eq!(parse_explicit_port("00080"), Some(80));
    assert_eq!(parse_explicit_port("\u{3000}80\t"), Some(80));
    assert_eq!(parse_explicit_port("99999999999999999999"), None);
    assert_eq!(parse_explicit_port("８０"), None);
}

#[test]
fn search_matches_in_any_case_and_image_names_too() {
    let rows = vec![entry("TCP", 8080, "127.0.0.1", 1001, "ÄPFEL.exe")];
    assert_eq!(filter_port_rows(&rows, " äpfel ", false).len(), 1);
    assert_eq!(filter_port_rows(&rows, "tcp", false).len(), 1);
    assert_eq!(filter_port_rows(&rows, "127.0", false).len(), 1);
    assert_eq!(filter_port_rows(&rows, "808", false).len(), 0);
    assert_eq!(filter_search(&rows, "").len(), 1);
    assert!(matches_needle(80, "a", "b", "c", "80"));
    assert!(!matches_needle(80, "a", "b", "c", "8"));
    assert!(is_system_image("csrss.exe"));
    assert!(!is_system_image("CSRSS.EXE"));
    assert!(is_system_service_entry(9, "Smss.EXE", 1));
}

#[test]
fn both_tables_are_gathered_tcp_first() {
    let tcp = |probe_code: u32| TableRead {
        probe_code,
        fetch_code: 0,
        buffer: tcp_buffer(&[
            (2, [0, 0, 0, 0], 8080, 1001),
            (2, [0, 0, 0, 0], 8081, 4),
        ]),
    };
    let udp = |fetch_code: u32| TableRead {
        probe_code: 122,
        fetch_code,
        buffer: udp_buffer(&[([0, 0, 0, 0], 6000, 51), ([0, 0, 0, 0], 6001, 52)]),
    };
    let found = gather_listeners(&tcp(122), &udp(0), false).unwrap();
    assert_eq!((found.tcp, found.udp), (2, 2));
    assert_eq!(
        keys(&found.all),
        vec![
            key("TCP", 8080, 1001),
            key("UDP", 6000, 51),
            key("UDP", 6001, 52)
        ]
    );
    assert_eq!(
        gather_listeners(&tcp(7), &udp(9), false),
        Err(PortError::ScanFailed {
            context: "GetExtendedTcpTable 尺寸探测",
            code: 7
        })
    );
    assert_eq!(
        gather_listeners(&tcp(0), &udp(9), false),
        Err(PortError::ScanFailed {
            context: "GetExtendedUdpTable 枚举",
            code: 9
        })
    );
    let identities: Vec<(String, String)> = (0..3)
        .map(|i| (format!("n{i}"), format!("p{i}")))
        .collect();
    let entries = enrich_all(&found.all, &identities);
    assert_eq!(entries.len(), 3);
    assert_eq!(entries[2].process_name, "n2");
    assert_eq!(entries[2].process_path, "p2");
    assert_eq!(entries[2].local_port, 6001);
    assert!(entries.iter().all(|e| e.pid > 4));
    assert_eq!(
        entries[0],
        enrich(found.all[0].clone(), identities[0].clone())
    );
}

#[test]
fn counts_are_of_all_rows_that_listen() {
    let read = |buffer: Vec<u8>| TableRead { probe_code: 122, fetch_code: 0, buffer };
    let tcp = read(tcp_buffer(&[
        (2, [0, 0, 0, 0], 8080, 1001),
        (2, [0, 0, 0, 0], 445, 4),
        (5, [0, 0, 0, 0], 9000, 1002),
        (2, [127, 0, 0, 1], 8080, 1001),
    ]));
    let udp = read(udp_buffer(&[([0, 0, 0, 0], 5353, 50), ([0, 0, 0, 0], 6000, 51)]));
    let found = gather_listeners(&tcp, &udp, false).unwrap();
    assert_eq!((found.tcp, found.udp), (3, 2));
    assert_eq!(
        keys(&found.all),
        vec![key("TCP", 8080, 1001), key("UDP", 6000, 51)]
    );
}
