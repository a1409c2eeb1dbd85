//! The log of the port hunter: one line per scan, search and release.

use crate::paths::{self, adjoined, foreseen};
use crate::text::{
    bool_text, decimal, decimal_of, has_substring, law_part_is_found, text_of_bool,
};
use vstd::prelude::*;

verus! {

/// The name of the log file.
pub const PORT_HUNTER_LOG_FILE: &'static str = "port_hunter.log";

/// The format of a line's time stamp, in UTC to the microsecond.
pub const LINE_TIMESTAMP_FORMAT: &'static str = "%Y-%m-%dT%H:%M:%S%.6fZ";

/// The text that `chrono` makes of a moment in UTC, given in nanoseconds since 1970,
/// and a format.
pub uninterp spec fn utc_text(nanos: i64, format: Seq<char>) -> Seq<char>;

/// `chrono::DateTime::format`, on the moment of `DateTime::from_timestamp_nanos`,
/// which takes every number: a function of the moment and the format. Writing the
/// result out panics on a format that `chrono` does not know, so the precondition
/// names the one that is used.
#[verifier::external_body]
fn format_utc(nanos: i64, format: &str) -> (r: String)
    requires
        format@ == LINE_TIMESTAMP_FORMAT@,
    ensures
        r@ == utc_text(nanos, format@),
{
    chrono::DateTime::from_timestamp_nanos(nanos).format(format).to_string()
}

/// A log line.
pub open spec fn line_text(
    timestamp: Seq<char>,
    category: Seq<char>,
    detail: Seq<char>,
    result: Seq<char>,
) -> Seq<char> {
    "["@ + timestamp + "] ["@ + category + "] "@ + detail + " <-> "@ + result + "\n"@
}

/// Puts a log line together.
pub fn format_line(timestamp: &str, category: &str, detail: &str, result: &str) -> (r: String)
    ensures
        r@ == line_text(timestamp@, category@, detail@, result@),
{
    let mut r = "[".to_owned();
    r.append(timestamp);
    r.append("] [");
    r.append(category);
    r.append("] ");
    r.append(detail);
    r.append(" <-> ");
    r.append(result);
    r.append("\n");
    r
}

/// What is logged of a scan.
pub open spec fn scan_detail(tcp: nat, udp: nat, kept: nat, show_system_ports: bool) -> Seq<char> {
    "扫描监听端口: TCP "@ + decimal(tcp) + " 条, UDP "@ + decimal(udp)
        + " 条, 会话隔离后缓存 "@ + decimal(kept) + " 条, show_system_ports="@ + bool_text(
        show_system_ports,
    )
}

/// What is logged of a search.
pub open spec fn search_detail(keyword: Seq<char>, explicit_port: Option<u16>) -> Seq<char> {
    let text = "搜索关键词 \""@ + keyword + "\""@;
    match explicit_port {
        Some(port) => text + "（解析出显式端口号 "@ + decimal(port as nat)
            + "，动态端口过滤已豁免）"@,
        None => text,
    }
}

/// What is logged of an attempt to release a port.
pub open spec fn kill_detail(
    port: u16,
    protocol: Seq<char>,
    process_name: Seq<char>,
    pid: u32,
) -> Seq<char> {
    "释放端口 "@ + decimal(port as nat) + " ("@ + protocol + "), 终止进程 "@ + process_name
        + " (PID: "@ + decimal(pid as nat) + ")"@
}

fn kill_detail_of(port: u16, protocol: &str, process_name: &str, pid: u32) -> (r: String)
    ensures
        r@ == kill_detail(port, protocol@, process_name@, pid),
{
    let mut r = "释放端口 ".to_owned();
    r.append(decimal_of(port as u128).as_str());
    r.append(" (");
    r.append(protocol);
    r.append("), 终止进程 ");
    r.append(process_name);
    r.append(" (PID: ");
    r.append(decimal_of(pid as u128).as_str());
    r.append(")");
    r
}

/// The log of the port hunter. It composes the lines; they are appended to
/// [`PortHunterLogger::file_path`].
pub struct PortHunterLogger {
    file_path: String,
}

impl PortHunterLogger {
    /// The path of the log file.
    pub closed spec fn path_text(&self) -> Seq<char> {
        self.file_path@
    }

    /// A log in the directory `dir`.
    pub fn new(dir: &str) -> (r: Self)
        ensures
            foreseen(dir@, PORT_HUNTER_LOG_FILE@) ==> adjoined(
                dir@,
                PORT_HUNTER_LOG_FILE@,
                r.path_text(),
            ),
    {
        proof {
            reveal_strlit("port_hunter.log");
        }
        PortHunterLogger { file_path: paths::join(dir, PORT_HUNTER_LOG_FILE) }
    }

    /// The path of the log file.
    pub fn file_path(&self) -> (r: &str)
        ensures
            r@ == self.path_text(),
    {
        self.file_path.as_str()
    }

    /// The line of an event at the moment `nanos`, in nanoseconds since 1970.
    pub fn log_line(&self, nanos: i64, category: &str, detail: &str, result: &str) -> (r: String)
        ensures
            r@ == line_text(
                utc_text(nanos, LINE_TIMESTAMP_FORMAT@),
                category@,
                detail@,
                result@,
            ),
    {
        let timestamp = format_utc(nanos, LINE_TIMESTAMP_FORMAT);
        format_line(timestamp.as_str(), category, detail, result)
    }

    /// The line of a scan.
    pub fn log_scan(
        &self,
        nanos: i64,
        tcp_listeners: usize,
        udp_listeners: usize,
        kept: usize,
        show_system_ports: bool,
    ) -> (r: String)
        ensures
            r@ == line_text(
                utc_text(nanos, LINE_TIMESTAMP_FORMAT@),
                "SCAN"@,
                scan_detail(
                    tcp_listeners as nat,
                    udp_listeners as nat,
                    kept as nat,
                    show_system_ports,
                ),
                "完成"@,
            ),
    {
        let mut detail = "扫描监听端口: TCP ".to_owned();
        detail.append(decimal_of(tcp_listeners as u128).as_str());
        detail.append(" 条, UDP ");
        detail.append(decimal_of(udp_listeners as u128).as_str());
        detail.append(" 条, 会话隔离后缓存 ");
        detail.append(decimal_of(kept as u128).as_str());
        detail.append(" 条, show_system_ports=");
        detail.append(text_of_bool(show_system_ports));
        self.log_line(nanos, "SCAN", detail.as_str(), "完成")
    }

    /// The line of a search.
    pub fn log_search(&self, nanos: i64, keyword: &str, explicit_port: Option<u16>) -> (r: String)
        ensures
            r@ == line_text(
                utc_text(nanos, LINE_TIMESTAMP_FORMAT@),
                "SEARCH"@,
                search_detail(keyword@, explicit_port),
                "已应用"@,
            ),
    {
        let mut detail = "搜索关键词 \"".to_owned();
        detail.append(keyword);
        detail.append("\"");
        if let Some(port) = explicit_port {
            detail.append("（解析出显式端口号 ");
            detail.append(decimal_of(port as u128).as_str());
            detail.append("，动态端口过滤已豁免）");
        }
        self.log_line(nanos, "SEARCH", detail.as_str(), "已应用")
    }

    /// The line of a released port.
    pub fn log_kill_success(
        &self,
        nanos: i64,
        port: u16,
        protocol: &str,
        process_name: &str,
        pid: u32,
        elapsed_ms: u128,
    ) -> (r: String)
        ensures
            r@ == line_text(
                utc_text(nanos, LINE_TIMESTAMP_FORMAT@),
                "KILL"@,
                kill_detail(port, protocol@, process_name@, pid),
                "成功（耗时 "@ + decimal(elapsed_ms as nat) + "ms）"@,
            ),
    {
        let detail = kill_detail_of(port, protocol, process_name, pid);
        let mut result = "成功（耗时 ".to_owned();
        result.append(decimal_of(elapsed_ms).as_str());
        result.append("ms）");
        self.log_line(nanos, "KILL", detail.as_str(), result.as_str())
    }

    /// The line of a port that could not be released.
    pub fn log_kill_failure(
        &self,
        nanos: i64,
        port: u16,
        protocol: &str,
        process_name: &str,
        pid: u32,
        detail: &str,
    ) -> (r: String)
        ensures
            r@ == line_text(
                utc_text(nanos, LINE_TIMESTAMP_FORMAT@),
                "KILL"@,
                kill_detail(port, protocol@, process_name@, pid),
                "失败: "@ + detail@,
            ),
    {
        let event = kill_detail_of(port, protocol, process_name, pid);
        let mut result = "失败: ".to_owned();
        result.append(detail);
        self.log_line(nanos, "KILL", event.as_str(), result.as_str())
    }
}

/// A line of the log holds the moment, the kind, the detail and the result, each of them
/// whole and in this order, and ends in a line break.
pub proof fn law_line_holds_everything(
    timestamp: Seq<char>,
    category: Seq<char>,
    detail: Seq<char>,
    result: Seq<char>,
) -> (gaps: (Seq<char>, Seq<char>, Seq<char>, Seq<char>))
    ensures
        line_text(timestamp, category, detail, result) == gaps.0 + timestamp + gaps.1 + category
            + gaps.2 + detail + gaps.3 + result + seq!['\n'],
        gaps.0.len() + gaps.1.len() + gaps.2.len() + gaps.3.len() == 11,
{
    reveal_strlit("[");
    reveal_strlit("] [");
    reveal_strlit("] ");
    reveal_strlit(" <-> ");
    reveal_strlit("\n");
    assert("\n"@ =~= seq!['\n']);
    ("["@, "] ["@, "] "@, " <-> "@)
}

/// The note of a release names the protocol and the process as they are, and that of a
/// search the keyword.
pub proof fn law_notes_name_their_subject(
    port: u16,
    protocol: Seq<char>,
    process_name: Seq<char>,
    pid: u32,
    keyword: Seq<char>,
    explicit_port: Option<u16>,
)
    ensures
        has_substring(kill_detail(port, protocol, process_name, pid), protocol),
        has_substring(kill_detail(port, protocol, process_name, pid), process_name),
        has_substring(kill_detail(port, protocol, process_name, pid), decimal(port as nat)),
        has_substring(kill_detail(port, protocol, process_name, pid), decimal(pid as nat)),
        has_substring(search_detail(keyword, explicit_port), keyword),
        explicit_port matches Some(p) ==> has_substring(
            search_detail(keyword, explicit_port),
            decimal(p as nat),
        ),
{
    let whole = kill_detail(port, protocol, process_name, pid);
    let a = "释放端口 "@;
    let b = " ("@;
    let c = "), 终止进程 "@;
    let d = " (PID: "@;
    let e = ")"@;
    let n = decimal(port as nat);
    let p = decimal(pid as nat);
    law_part_is_found(a, n, b + protocol + c + process_name + d + p + e);
    assert(a + n + (b + protocol + c + process_name + d + p + e) =~= whole);
    law_part_is_found(a + n + b, protocol, c + process_name + d + p + e);
    assert(a + n + b + protocol + (c + process_name + d + p + e) =~= whole);
    law_part_is_found(a + n + b + protocol + c, process_name, d + p + e);
    assert(a + n + b + protocol + c + process_name + (d + p + e) =~= whole);
    law_part_is_found(a + n + b + protocol + c + process_name + d, p, e);
    let open = "搜索关键词 \""@;
    let close = "\""@;
    law_part_is_found(open, keyword, close);
    if explicit_port is Some {
        let number = decimal(explicit_port->0 as nat);
        let f = "（解析出显式端口号 "@;
        let g = "，动态端口过滤已豁免）"@;
        law_part_is_found(open, keyword, close + f + number + g);
        assert(open + keyword + (close + f + number + g) =~= search_detail(
            keyword,
            explicit_port,
        ));
        law_part_is_found(open + keyword + close + f, number, g);
    }
}

} // verus!
