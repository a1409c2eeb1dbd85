//! The port hunter: lists the listening ports and releases one by ending its owner.
//! It works on demand and never runs in the background.

use crate::bus::{toasted, EventBus};
use crate::modules::port_hunter::killer::PortError;
use crate::modules::port_hunter::logger::{
    kill_detail, line_text, scan_detail, search_detail, utc_text, PortHunterLogger,
    LINE_TIMESTAMP_FORMAT, PORT_HUNTER_LOG_FILE,
};
use crate::modules::port_hunter::scanner::{explicit_port, PortEntry, ScanReport};
use crate::modules::{ModuleError, ToolModule};
use crate::paths::{adjoined, foreseen};
use crate::text::decimal;
use vstd::prelude::*;

pub mod killer;
pub mod logger;
pub mod scanner;

verus! {

/// The numbers of a scan.
#[derive(Debug, Clone, Copy, PartialEq, Eq, Structural)]
pub struct ScanOutcome {
    pub tcp_listeners: usize,
    pub udp_listeners: usize,
    /// How many rows are cached now.
    pub cached: usize,
}

/// What came of an attempt to release a port.
#[derive(Debug)]
pub struct KillReport {
    /// The name that was listed for the process, or [`scanner::UNKNOWN_PROCESS`].
    pub process_name: String,
    pub elapsed_ms: u128,
    pub outcome: Result<(), PortError>,
}

impl Clone for KillReport {
    fn clone(&self) -> (r: Self)
        ensures
            r == *self,
    {
        KillReport {
            process_name: self.process_name.clone(),
            elapsed_ms: self.elapsed_ms,
            outcome: self.outcome,
        }
    }
}

impl KillReport {
    /// Whether the port was released.
    pub fn is_success(&self) -> (r: bool)
        ensures
            r == self.outcome is Ok,
    {
        self.outcome.is_ok()
    }
}

/// `std::time::Instant`, a moment of the monotonic clock.
#[verifier::external_type_specification]
#[verifier::external_body]
pub struct ExInstant(std::time::Instant);

/// `std::time::Instant::now`: the current moment. Nothing is claimed of it.
#[verifier::external_body]
fn now() -> (r: std::time::Instant) {
    std::time::Instant::now()
}

/// `std::time::Instant::elapsed`: the milliseconds since a moment. Nothing is claimed
/// of their number.
#[verifier::external_body]
fn millis_since(moment: &std::time::Instant) -> (r: u128) {
    moment.elapsed().as_millis()
}

/// The name that is listed for a process: that of its first row.
pub open spec fn listed_name(rows: Seq<PortEntry>, pid: u32) -> Seq<char>
    decreases rows.len(),
{
    if rows.len() == 0 {
        scanner::UNKNOWN_PROCESS@
    } else if rows[0].pid == pid {
        rows[0].process_name@
    } else {
        listed_name(rows.drop_first(), pid)
    }
}

/// The rows of the last scan, the log, and the bus on which releases are announced.
pub struct PortHunterModule {
    rows: Vec<PortEntry>,
    logger: PortHunterLogger,
    bus: Option<EventBus>,
}

impl PortHunterModule {
    /// The rows of the last scan.
    pub closed spec fn cache(&self) -> Seq<PortEntry> {
        self.rows@
    }

    /// The bus on which releases are announced, if there is one.
    pub closed spec fn announces_on(&self) -> Option<EventBus> {
        self.bus
    }

    /// The log of the module.
    pub closed spec fn log(&self) -> PortHunterLogger {
        self.logger
    }

    /// Whether everything but the rows is the same in `other`.
    pub open spec fn same_outlets(&self, other: &Self) -> bool {
        self.announces_on() == other.announces_on() && self.log() == other.log()
    }

    /// A module that logs into the directory `log_dir` and has listed nothing yet.
    pub fn new(log_dir: &str) -> (r: Self)
        ensures
            r.cache() == Seq::<PortEntry>::empty(),
            r.announces_on() is None,
            foreseen(log_dir@, PORT_HUNTER_LOG_FILE@) ==> adjoined(
                log_dir@,
                PORT_HUNTER_LOG_FILE@,
                r.log().path_text(),
            ),
    {
        PortHunterModule { rows: Vec::new(), logger: PortHunterLogger::new(log_dir), bus: None }
    }

    /// Announces releases on `bus` from now on; without one everything stays as it is.
    pub fn attach_bus(&mut self, bus: Option<EventBus>)
        ensures
            final(self).cache() == old(self).cache(),
            final(self).log() == old(self).log(),
            final(self).announces_on() == (if bus is Some {
                bus
            } else {
                old(self).announces_on()
            }),
    {
        if bus.is_some() {
            self.bus = bus;
        }
    }

    /// The log of the module.
    pub fn logger(&self) -> (r: &PortHunterLogger)
        ensures
            *r == self.log(),
    {
        &self.logger
    }

    /// Keeps what a scan brought, in place of what was cached before.
    pub fn record_scan(&mut self, report: ScanReport) -> (r: ScanOutcome)
        ensures
            final(self).cache() == report.entries@,
            final(self).same_outlets(old(self)),
            r.tcp_listeners == report.tcp_listeners,
            r.udp_listeners == report.udp_listeners,
            r.cached == report.entries@.len(),
    {
        let cached: usize = report.entries.len();
        let outcome = ScanOutcome {
            tcp_listeners: report.tcp_listeners,
            udp_listeners: report.udp_listeners,
            cached,
        };
        self.rows = report.entries;
        outcome
    }

    /// Scans and keeps the result. Without Windows there is nothing to be found.
    pub fn scan(&mut self, show_system_ports: bool) -> (r: Result<ScanOutcome, PortError>)
        ensures
            r == Ok::<ScanOutcome, PortError>(
                (ScanOutcome { tcp_listeners: 0, udp_listeners: 0, cached: 0 }),
            ),
            final(self).cache() == Seq::<PortEntry>::empty(),
            final(self).same_outlets(old(self)),
    {
        match scanner::scan_and_collect(show_system_ports) {
            Ok(report) => Ok(self.record_scan(report)),
            Err(error) => Err(error),
        }
    }

    /// The rows of the last scan.
    pub fn cached_rows(&self) -> (r: Vec<PortEntry>)
        ensures
            r@ == self.cache(),
    {
        scanner::copy_entries(self.rows.as_slice())
    }

    /// The name that is listed for a process.
    pub fn process_name_of(&self, pid: u32) -> (r: String)
        ensures
            r@ == listed_name(self.cache(), pid),
    {
        let mut i: usize = 0;
        assert(self.rows@.skip(0) =~= self.rows@);
        while i < self.rows.len()
            invariant
                i <= self.rows@.len(),
                listed_name(self.rows@, pid) == listed_name(self.rows@.skip(i as int), pid),
            decreases self.rows@.len() - i,
        {
            assert(self.rows@.skip(i as int)[0] == self.rows@[i as int]);
            if self.rows[i].pid == pid {
                return self.rows[i].process_name.clone();
            }
            assert(self.rows@.skip(i as int).drop_first() =~= self.rows@.skip(i + 1));
            i = i + 1;
        }
        scanner::UNKNOWN_PROCESS.to_owned()
    }

    /// The log line of a scan.
    pub fn log_scan(&self, nanos: i64, outcome: &ScanOutcome, show_system_ports: bool) -> (r:
        String)
        ensures
            r@ == line_text(
                utc_text(nanos, LINE_TIMESTAMP_FORMAT@),
                "SCAN"@,
                scan_detail(
                    outcome.tcp_listeners as nat,
                    outcome.udp_listeners as nat,
                    outcome.cached as nat,
                    show_system_ports,
                ),
                "完成"@,
            ),
    {
        self.logger.log_scan(
            nanos,
            outcome.tcp_listeners,
            outcome.udp_listeners,
            outcome.cached,
            show_system_ports,
        )
    }

    /// The log line of a search.
    pub fn log_search(&self, nanos: i64, keyword: &str) -> (r: String)
        ensures
            r@ == line_text(
                utc_text(nanos, LINE_TIMESTAMP_FORMAT@),
                "SEARCH"@,
                search_detail(keyword@, explicit_port(keyword@)),
                "已应用"@,
            ),
    {
        let explicit = scanner::parse_explicit_port(keyword);
        self.logger.log_search(nanos, keyword, explicit)
    }

    /// Announces what came of an attempt to release a port and reports it under the
    /// name that is listed for the process.
    pub fn conclude_kill(
        &self,
        pid: u32,
        port: u16,
        outcome: Result<(), PortError>,
        elapsed_ms: u128,
    ) -> (r: KillReport)
        ensures
            r.process_name@ == listed_name(self.cache(), pid),
            r.elapsed_ms == elapsed_ms,
            r.outcome == outcome,
            killer::feedback_text(outcome, pid, port, r.process_name@) matches Some(text)
                ==> toasted(self.announces_on(), text),
    {
        let process_name = self.process_name_of(pid);
        let outcome = killer::announce_kill(
            self.bus.as_ref(),
            outcome,
            pid,
            port,
            process_name.as_str(),
        );
        KillReport { process_name, elapsed_ms, outcome }
    }

    /// Releases a port. Without Windows this is refused.
    pub fn kill(&self, pid: u32, port: u16, protocol: &str) -> (r: KillReport)
        ensures
            r.process_name@ == listed_name(self.cache(), pid),
            r.outcome == Err::<(), PortError>(PortError::UnsupportedPlatform),
    {
        let process_name = self.process_name_of(pid);
        let started = now();
        let outcome = killer::kill_process_with_events(
            self.bus.as_ref(),
            pid,
            port,
            protocol,
            process_name.as_str(),
        );
        KillReport { process_name, elapsed_ms: millis_since(&started), outcome }
    }

    /// The log line of an attempt to release a port.
    pub fn log_kill(&self, nanos: i64, pid: u32, port: u16, protocol: &str, report: &KillReport)
        -> (r: String)
        ensures
            r@ == line_text(
                utc_text(nanos, LINE_TIMESTAMP_FORMAT@),
                "KILL"@,
                kill_detail(port, protocol@, report.process_name@, pid),
                match report.outcome {
                    Ok(_) => "成功（耗时 "@ + decimal(report.elapsed_ms as nat) + "ms）"@,
                    Err(error) => "失败: "@ + error.text(),
                },
            ),
    {
        match &report.outcome {
            Ok(_) => self.logger.log_kill_success(
                nanos,
                port,
                protocol,
                report.process_name.as_str(),
                pid,
                report.elapsed_ms,
            ),
            Err(error) => self.logger.log_kill_failure(
                nanos,
                port,
                protocol,
                report.process_name.as_str(),
                pid,
                error.to_string().as_str(),
            ),
        }
    }
}

impl Default for PortHunterModule {
    fn default() -> (r: Self)
        ensures
            r.cache() == Seq::<PortEntry>::empty(),
            r.announces_on() is None,
            adjoined("logs/port_hunter"@, PORT_HUNTER_LOG_FILE@, r.log().path_text()),
    {
        proof {
            reveal_strlit("logs/port_hunter");
        }
        Self::new("logs/port_hunter")
    }
}

impl ToolModule for PortHunterModule {
    open spec fn id_text(&self) -> Seq<char> {
        "port_hunter"@
    }

    open spec fn name_text(&self) -> Seq<char> {
        "端口占用管理"@
    }

    open spec fn description_text(&self) -> Seq<char> {
        "本地开发端口监听定位与一键释放"@
    }

    open spec fn running(&self) -> bool {
        false
    }

    open spec fn can_start(before: Self, after: Self, r: Result<(), ModuleError>) -> bool {
        r is Ok && after == before
    }

    open spec fn can_stop(before: Self, after: Self, r: Result<(), ModuleError>) -> bool {
        r is Ok && after == before
    }

    fn id(&self) -> &'static str {
        "port_hunter"
    }

    fn display_name(&self) -> &'static str {
        "端口占用管理"
    }

    fn description(&self) -> &'static str {
        "本地开发端口监听定位与一键释放"
    }

    fn is_running(&self) -> bool {
        false
    }

    fn start(&mut self) -> (r: Result<(), ModuleError>) {
        Ok(())
    }

    fn stop(&mut self) -> (r: Result<(), ModuleError>) {
        Ok(())
    }
}

/// The name that is listed for a process is that of its first row.
pub proof fn law_first_row_names_the_process(rows: Seq<PortEntry>, i: int)
    requires
        0 <= i < rows.len(),
        forall|k: int| 0 <= k < i ==> (#[trigger] rows[k]).pid != rows[i].pid,
    ensures
        listed_name(rows, rows[i].pid) == rows[i].process_name@,
    decreases i,
{
    if i > 0 {
        let rest = rows.drop_first();
        assert(rest[i - 1] == rows[i]);
        assert forall|k: int| 0 <= k < i - 1 implies (#[trigger] rest[k]).pid != rest[i
            - 1].pid by {
            assert(rest[k] == rows[k + 1]);
        }
        assert(rows[0].pid != rows[i].pid);
        law_first_row_names_the_process(rest, i - 1);
    }
}

/// A process without a row has no name.
pub proof fn law_process_without_a_row_is_unknown(rows: Seq<PortEntry>, pid: u32)
    requires
        forall|k: int| 0 <= k < rows.len() ==> (#[trigger] rows[k]).pid != pid,
    ensures
        listed_name(rows, pid) == "<unknown>"@,
    decreases rows.len(),
{
    if rows.len() > 0 {
        let rest = rows.drop_first();
        assert forall|k: int| 0 <= k < rest.len() implies (#[trigger] rest[k]).pid != pid by {
            assert(rest[k] == rows[k + 1]);
        }
        assert(rows[0].pid != pid);
        law_process_without_a_row_is_unknown(rest, pid);
    }
}

/// The port hunter works on demand: it never runs, and switching it changes nothing.
pub proof fn law_switching_changes_nothing(
    before: PortHunterModule,
    after: PortHunterModule,
    r: Result<(), ModuleError>,
)
    ensures
        !before.running(),
        PortHunterModule::can_start(before, after, r) ==> r is Ok && after == before,
        PortHunterModule::can_stop(before, after, r) ==> r is Ok && after == before,
{
}

} // verus!
