//! Listening ports: decoding the system's owner tables and reducing them to what
//! a developer wants to see.

use crate::modules::port_hunter::killer::PortError;
use crate::paths::{self, ends_in_name, is_final};
use crate::seqs::{lemma_filter_filter, lemma_filter_idempotent, lemma_filter_take};
use crate::text::{
    all_ascii, all_digits, ascii_lower, ascii_lower_char, blank, contains, decimal, decimal_of,
    digits_value, has_substring, is_digit, law_digits_are_a_number, law_found_part_is_there,
    law_part_is_found, law_trimmed_is_the_middle,
    law_trimmed_splits, law_zeros_do_not_count, lemma_decimal_digits, lemma_trimmed_digits,
    lowercase, parse_digits_u16, same_text, to_lowercase, trim, trimmed,
};
use std::collections::{HashMap, HashSet};
use vstd::arithmetic::div_mod::lemma_fundamental_div_mod_converse;
use vstd::prelude::*;

verus! {

/// The first port of IANA's dynamic range, which reaches to the highest port.
pub const IANA_DYNAMIC_PORT_START: u16 = 49152;

/// The name that stands for a process whose image could not be queried.
pub const UNKNOWN_PROCESS: &'static str = "<unknown>";

/// The code by which the system asks for a larger buffer.
pub const ERROR_INSUFFICIENT_BUFFER: u32 = 122;

/// The IPv4 address family.
pub const AF_INET: u32 = 2;

/// The protocol number of TCP.
pub const TCP_PROTOCOL_CODE: u8 = 6;

/// The protocol number of UDP.
pub const UDP_PROTOCOL_CODE: u8 = 17;

/// The state of a listening TCP socket in the owner table.
pub const TCP_STATE_LISTEN: u32 = 2;

// ---------------------------------------------------------------------------
// Data
// ---------------------------------------------------------------------------

/// One listening port as it is shown and cached.
#[derive(Debug, PartialEq, Eq)]
pub struct PortEntry {
    /// `TCP` or `UDP`.
    pub protocol: String,
    pub local_port: u16,
    /// The bound IPv4 address in dotted form.
    pub local_addr: String,
    pub pid: u32,
    /// The file name of the owner's image, or [`UNKNOWN_PROCESS`].
    pub process_name: String,
    /// The full path of the owner's image, empty when it could not be queried.
    pub process_path: String,
}

impl Clone for PortEntry {
    fn clone(&self) -> (r: Self)
        ensures
            r == *self,
    {
        PortEntry {
            protocol: self.protocol.clone(),
            local_port: self.local_port,
            local_addr: self.local_addr.clone(),
            pid: self.pid,
            process_name: self.process_name.clone(),
            process_path: self.process_path.clone(),
        }
    }
}

/// The same rows once more.
pub fn copy_entries(entries: &[PortEntry]) -> (r: Vec<PortEntry>)
    ensures
        r@ == entries@,
{
    let mut r: Vec<PortEntry> = Vec::new();
    let mut i: usize = 0;
    while i < entries.len()
        invariant
            i <= entries@.len(),
            r@ == entries@.take(i as int),
        decreases entries@.len() - i,
    {
        r.push(entries[i].clone());
        i = i + 1;
        assert(r@ =~= entries@.take(i as int));
    }
    assert(r@ =~= entries@);
    r
}

/// What the filters are asked to leave visible.
#[derive(Debug, Clone, Copy, PartialEq, Eq, Structural)]
pub struct FilterOptions {
    /// Show system services and dynamic ports.
    pub show_system_ports: bool,
    /// The port number that the user searched for, if the search is one.
    pub explicit_port: Option<u16>,
}

impl Default for FilterOptions {
    fn default() -> (r: Self)
        ensures
            !r.show_system_ports,
            r.explicit_port is None,
    {
        FilterOptions { show_system_ports: false, explicit_port: None }
    }
}

// ---------------------------------------------------------------------------
// Classification
// ---------------------------------------------------------------------------

/// Whether a TCP row is a listening socket.
pub fn is_listen_state(state: u32) -> (r: bool)
    ensures
        r == (state == TCP_STATE_LISTEN),
{
    state == TCP_STATE_LISTEN
}

/// Whether `port` lies in IANA's dynamic range.
pub open spec fn dynamic_port(port: u16) -> bool {
    port >= IANA_DYNAMIC_PORT_START
}

/// Whether `port` lies in IANA's dynamic range.
pub fn is_iana_dynamic_port(port: u16) -> (r: bool)
    ensures
        r == dynamic_port(port),
{
    port >= IANA_DYNAMIC_PORT_START
}

/// Whether `pid` is the idle process or the kernel.
pub open spec fn kernel_owner(pid: u32) -> bool {
    pid <= 4
}

/// Whether `pid` is the idle process or the kernel.
pub fn is_kernel_owner(pid: u32) -> (r: bool)
    ensures
        r == kernel_owner(pid),
{
    pid <= 4
}

/// Whether `port` is a fixed port of a built-in system service.
pub open spec fn reserved_port(port: u16) -> bool {
    ||| port == 135
    ||| port == 137
    ||| port == 138
    ||| port == 139
    ||| port == 445
    ||| port == 1900
    ||| port == 5353
    ||| port == 5355
    ||| port == 5357
}

/// Whether `port` is a fixed port of a built-in system service.
pub fn is_reserved_port(port: u16) -> (r: bool)
    ensures
        r == reserved_port(port),
{
    match port {
        135 | 137 | 138 | 139 | 445 | 1900 | 5353 | 5355 | 5357 => true,
        _ => false,
    }
}

/// Whether a table row may never be listed: a kernel owner always, a reserved port
/// unless system ports are shown.
pub open spec fn physically_blocked(pid: u32, port: u16, show_system_ports: bool) -> bool {
    kernel_owner(pid) || (!show_system_ports && reserved_port(port))
}

/// Whether a table row may never be listed: a kernel owner always, a reserved port
/// unless system ports are shown.
pub fn is_physically_blocked(pid: u32, port: u16, show_system_ports: bool) -> (r: bool)
    ensures
        r == physically_blocked(pid, port, show_system_ports),
{
    if pid <= 4 {
        return true;
    }
    !show_system_ports && is_reserved_port(port)
}

/// Whether `lower`, an image name in lower case, is that of a system service.
pub open spec fn system_image(lower: Seq<char>) -> bool {
    ||| lower == "svchost.exe"@
    ||| lower == "lsass.exe"@
    ||| lower == "services.exe"@
    ||| lower == "spoolsv.exe"@
    ||| lower == "dwm.exe"@
    ||| lower == "csrss.exe"@
    ||| lower == "wininit.exe"@
    ||| lower == "smss.exe"@
}

/// Whether `lower`, an image name in lower case, is that of a system service.
pub fn is_system_image(lower: &str) -> (r: bool)
    ensures
        r == system_image(lower@),
{
    same_text(lower, "svchost.exe") || same_text(lower, "lsass.exe") || same_text(
        lower,
        "services.exe",
    ) || same_text(lower, "spoolsv.exe") || same_text(lower, "dwm.exe") || same_text(
        lower,
        "csrss.exe",
    ) || same_text(lower, "wininit.exe") || same_text(lower, "smss.exe")
}

/// Whether a row belongs to the system: by its owner, by the owner's image in any
/// case, or by its port.
pub open spec fn system_service(pid: u32, process_name: Seq<char>, port: u16) -> bool {
    kernel_owner(pid) || system_image(lowercase(process_name)) || reserved_port(port)
}

/// Whether a row belongs to the system: by its owner, by the owner's image in any
/// case, or by its port.
pub fn is_system_service_entry(pid: u32, process_name: &str, port: u16) -> (r: bool)
    ensures
        r == system_service(pid, process_name@, port),
        all_ascii(process_name@) ==> r == (kernel_owner(pid) || system_image(
            ascii_lower(process_name@),
        ) || reserved_port(port)),
{
    let lower = to_lowercase(process_name);
    if pid <= 4 {
        return true;
    }
    if is_system_image(lower.as_str()) {
        return true;
    }
    is_reserved_port(port)
}

// ---------------------------------------------------------------------------
// Filters
// ---------------------------------------------------------------------------

/// What the dynamic-port stage keeps.
pub open spec fn keeps_port(opts: FilterOptions) -> spec_fn(PortEntry) -> bool {
    |e: PortEntry|
        opts.show_system_ports || opts.explicit_port is Some || !dynamic_port(e.local_port)
}

/// What the session stage keeps: everything but the rows whose owner is known to
/// belong to another session.
pub open spec fn keeps_session(
    sessions: Map<u32, Option<u32>>,
    current_session: u32,
) -> spec_fn(PortEntry) -> bool {
    |e: PortEntry|
        sessions.contains_key(e.pid) && sessions[e.pid] is Some ==> sessions[e.pid]
            == Some(current_session)
}

/// What the system-service stage keeps: never a kernel owner, and a system service
/// only where those are shown.
pub open spec fn keeps_service(opts: FilterOptions) -> spec_fn(PortEntry) -> bool {
    |e: PortEntry|
        !kernel_owner(e.pid) && (opts.show_system_ports || !system_service(
            e.pid,
            e.process_name@,
            e.local_port,
        ))
}

/// Drops the rows of the dynamic range, unless they are asked for by the option or
/// by a search for a port number.
pub fn filter_dynamic_ports(entries: &[PortEntry], opts: &FilterOptions) -> (out: Vec<PortEntry>)
    ensures
        out@ == entries@.filter(keeps_port(*opts)),
{
    let mut out: Vec<PortEntry> = Vec::new();
    let ghost p = keeps_port(*opts);
    let mut i: usize = 0;
    assert(entries@.take(0).filter(p) =~= Seq::<PortEntry>::empty()) by {
        reveal(Seq::filter);
    }
    while i < entries.len()
        invariant
            i <= entries@.len(),
            p == keeps_port(*opts),
            out@ == entries@.take(i as int).filter(p),
        decreases entries@.len() - i,
    {
        let entry = &entries[i];
        proof {
            lemma_filter_take(entries@, p, i as int);
        }
        if opts.show_system_ports || opts.explicit_port.is_some() || !is_iana_dynamic_port(
            entry.local_port,
        ) {
            out.push(entry.clone());
        }
        i = i + 1;
    }
    assert(entries@.take(i as int) =~= entries@);
    out
}

/// Drops the rows whose owner is known to run in another session. A row whose
/// owner's session is unknown stays.
pub fn filter_same_session(
    entries: &[PortEntry],
    sessions: &HashMap<u32, Option<u32>>,
    current_session: u32,
) -> (out: Vec<PortEntry>)
    ensures
        out@ == entries@.filter(keeps_session(sessions@, current_session)),
{
    broadcast use vstd::std_specs::hash::group_hash_axioms;

    let mut out: Vec<PortEntry> = Vec::new();
    let ghost p = keeps_session(sessions@, current_session);
    let mut i: usize = 0;
    assert(entries@.take(0).filter(p) =~= Seq::<PortEntry>::empty()) by {
        reveal(Seq::filter);
    }
    while i < entries.len()
        invariant
            i <= entries@.len(),
            p == keeps_session(sessions@, current_session),
            out@ == entries@.take(i as int).filter(p),
        decreases entries@.len() - i,
    {
        let entry = &entries[i];
        proof {
            lemma_filter_take(entries@, p, i as int);
        }
        let keep = match sessions.get(&entry.pid) {
            Some(Some(session)) => *session == current_session,
            _ => true,
        };
        if keep {
            out.push(entry.clone());
        }
        i = i + 1;
    }
    assert(entries@.take(i as int) =~= entries@);
    out
}

/// Drops the rows of a kernel owner always, and those of system services unless
/// they are shown.
pub fn filter_system_services(entries: &[PortEntry], opts: &FilterOptions) -> (out: Vec<PortEntry>)
    ensures
        out@ == entries@.filter(keeps_service(*opts)),
{
    let mut out: Vec<PortEntry> = Vec::new();
    let ghost p = keeps_service(*opts);
    let mut i: usize = 0;
    assert(entries@.take(0).filter(p) =~= Seq::<PortEntry>::empty()) by {
        reveal(Seq::filter);
    }
    while i < entries.len()
        invariant
            i <= entries@.len(),
            p == keeps_service(*opts),
            out@ == entries@.take(i as int).filter(p),
        decreases entries@.len() - i,
    {
        let entry = &entries[i];
        proof {
            lemma_filter_take(entries@, p, i as int);
        }
        if !is_kernel_owner(entry.pid) && (opts.show_system_ports || !is_system_service_entry(
            entry.pid,
            entry.process_name.as_str(),
            entry.local_port,
        )) {
            out.push(entry.clone());
        }
        i = i + 1;
    }
    assert(entries@.take(i as int) =~= entries@);
    out
}

/// The port number that the search text `search` is: digits alone, white space
/// around them aside, for a number from 1 to 65535.
pub open spec fn explicit_port(search: Seq<char>) -> Option<u16> {
    let text = trimmed(search);
    if text.len() > 0 && all_digits(text) && 1 <= digits_value(text) <= u16::MAX {
        Some(digits_value(text) as u16)
    } else {
        None
    }
}

/// The port number that the search text is, if it is one.
pub fn parse_explicit_port(search: &str) -> (r: Option<u16>)
    ensures
        r == explicit_port(search@),
{
    let trimmed_search = trim(search);
    match parse_digits_u16(trimmed_search.as_str()) {
        Some(port) if port >= 1 => Some(port),
        _ => None,
    }
}

/// Whether a row matches `needle`, a search text in lower case: the port number
/// is the needle, or the process name, the protocol or the address, each in lower
/// case, holds it.
pub open spec fn row_matches(
    port: u16,
    lower_name: Seq<char>,
    lower_protocol: Seq<char>,
    lower_addr: Seq<char>,
    needle: Seq<char>,
) -> bool {
    ||| decimal(port as nat) == needle
    ||| has_substring(lower_name, needle)
    ||| has_substring(lower_protocol, needle)
    ||| has_substring(lower_addr, needle)
}

/// Whether a row, its texts given in lower case, matches the needle.
pub fn matches_needle(
    port: u16,
    lower_name: &str,
    lower_protocol: &str,
    lower_addr: &str,
    needle: &str,
) -> (r: bool)
    ensures
        r == row_matches(port, lower_name@, lower_protocol@, lower_addr@, needle@),
{
    same_text(decimal_of(port as u128).as_str(), needle) || contains(lower_name, needle)
        || contains(lower_protocol, needle) || contains(lower_addr, needle)
}

/// What a search with the lower-case needle `needle` keeps; the empty needle keeps
/// everything.
pub open spec fn keeps_search(needle: Seq<char>) -> spec_fn(PortEntry) -> bool {
    |e: PortEntry|
        needle.len() == 0 || row_matches(
            e.local_port,
            lowercase(e.process_name@),
            lowercase(e.protocol@),
            lowercase(e.local_addr@),
            needle,
        )
}

/// Keeps the rows that match a needle which is already trimmed and in lower case.
pub fn filter_search(entries: &[PortEntry], needle: &str) -> (out: Vec<PortEntry>)
    ensures
        out@ == entries@.filter(keeps_search(needle@)),
{
    let mut out: Vec<PortEntry> = Vec::new();
    let ghost p = keeps_search(needle@);
    let mut i: usize = 0;
    assert(entries@.take(0).filter(p) =~= Seq::<PortEntry>::empty()) by {
        reveal(Seq::filter);
    }
    while i < entries.len()
        invariant
            i <= entries@.len(),
            p == keeps_search(needle@),
            out@ == entries@.take(i as int).filter(p),
        decreases entries@.len() - i,
    {
        let entry = &entries[i];
        proof {
            lemma_filter_take(entries@, p, i as int);
        }
        if needle.is_empty() || matches_needle(
            entry.local_port,
            to_lowercase(entry.process_name.as_str()).as_str(),
            to_lowercase(entry.protocol.as_str()).as_str(),
            to_lowercase(entry.local_addr.as_str()).as_str(),
            needle,
        ) {
            out.push(entry.clone());
        }
        i = i + 1;
    }
    assert(entries@.take(i as int) =~= entries@);
    out
}

/// The options under which a search is displayed.
pub open spec fn display_options(search: Seq<char>, show_system_ports: bool) -> FilterOptions {
    FilterOptions { show_system_ports, explicit_port: explicit_port(search) }
}

/// What the list shows of the cached rows for a search text: the rows that pass the
/// dynamic-port stage, the system-service stage and the search.
pub open spec fn displayed(search: Seq<char>, show_system_ports: bool) -> spec_fn(
    PortEntry,
) -> bool {
    let opts = display_options(search, show_system_ports);
    |e: PortEntry|
        keeps_port(opts)(e) && keeps_service(opts)(e) && keeps_search(lowercase(trimmed(search)))(e)
}

/// The rows that the list shows for a search text.
pub fn filter_port_rows(rows: &[PortEntry], search: &str, show_system_ports: bool) -> (out: Vec<
    PortEntry,
>)
    ensures
        out@ == rows@.filter(displayed(search@, show_system_ports)),
        // A blank search keeps everything that the two other stages keep.
        trimmed(search@).len() == 0 ==> forall|i: int|
            0 <= i < rows@.len() && keeps_port(display_options(search@, show_system_ports))(
                rows@[i],
            ) && keeps_service(display_options(search@, show_system_ports))(rows@[i])
                ==> out@.contains(#[trigger] rows@[i]),
        // A port that is searched for by its number is found, dynamic or not, unless
        // the system-service stage hides it.
        forall|i: int|
            0 <= i < rows@.len() && trimmed(search@) == decimal(rows@[i].local_port as nat)
                && rows@[i].local_port >= 1 && keeps_service(
                display_options(search@, show_system_ports),
            )(rows@[i]) ==> out@.contains(#[trigger] rows@[i]),
{
    let opts = FilterOptions { show_system_ports, explicit_port: parse_explicit_port(search) };
    let by_port = filter_dynamic_ports(rows, &opts);
    let by_service = filter_system_services(by_port.as_slice(), &opts);
    let needle = to_lowercase(trim(search).as_str());
    let out = filter_search(by_service.as_slice(), needle.as_str());
    proof {
        let both = |e: PortEntry| keeps_port(opts)(e) && keeps_service(opts)(e);
        lemma_filter_filter(rows@, keeps_port(opts), keeps_service(opts), both);
        lemma_filter_filter(
            rows@,
            both,
            keeps_search(needle@),
            displayed(search@, show_system_ports),
        );
        if trimmed(search@).len() == 0 {
            assert(needle@.len() == 0);
            assert forall|i: int|
                0 <= i < rows@.len() && keeps_port(display_options(search@, show_system_ports))(
                    rows@[i],
                ) && keeps_service(display_options(search@, show_system_ports))(
                    rows@[i],
                ) implies out@.contains(#[trigger] rows@[i]) by {
                rows@.lemma_filter_contains(displayed(search@, show_system_ports), i);
            }
        }
        assert forall|i: int|
            0 <= i < rows@.len() && trimmed(search@) == decimal(rows@[i].local_port as nat)
                && rows@[i].local_port >= 1 && keeps_service(
                display_options(search@, show_system_ports),
            )(rows@[i]) implies out@.contains(#[trigger] rows@[i]) by {
            let port = rows@[i].local_port;
            lemma_decimal_digits(port as nat);
            assert(needle@ =~= decimal(port as nat)) by {
                let text = trimmed(search@);
                assert forall|k: int| 0 <= k < text.len() implies (#[trigger] text[k] as int)
                    < 128 && ascii_lower_char(text[k]) == text[k] by {
                    assert(is_digit(text[k]));
                }
                assert(ascii_lower(text) =~= text);
            }
            rows@.lemma_filter_contains(displayed(search@, show_system_ports), i);
        }
    }
    out
}

/// What all three stages keep together.
pub open spec fn denoised(
    opts: FilterOptions,
    sessions: Map<u32, Option<u32>>,
    current_session: u32,
) -> spec_fn(PortEntry) -> bool {
    |e: PortEntry|
        keeps_port(opts)(e) && keeps_session(sessions, current_session)(e) && keeps_service(opts)(e)
}

/// Runs the dynamic-port, session and system-service stages one after the other.
pub fn denoise_all(
    entries: &[PortEntry],
    opts: &FilterOptions,
    sessions: &HashMap<u32, Option<u32>>,
    current_session: u32,
) -> (out: Vec<PortEntry>)
    ensures
        out@ == entries@.filter(denoised(*opts, sessions@, current_session)),
{
    let by_port = filter_dynamic_ports(entries, opts);
    let by_session = filter_same_session(by_port.as_slice(), sessions, current_session);
    let out = filter_system_services(by_session.as_slice(), opts);
    proof {
        let p = keeps_port(*opts);
        let q = keeps_session(sessions@, current_session);
        let both = |e: PortEntry| p(e) && q(e);
        lemma_filter_filter(entries@, p, q, both);
        lemma_filter_filter(
            entries@,
            both,
            keeps_service(*opts),
            denoised(*opts, sessions@, current_session),
        );
    }
    out
}

// ---------------------------------------------------------------------------
// Owner tables
// ---------------------------------------------------------------------------

/// The little-endian 32-bit number at `at`.
pub open spec fn le_u32(b: Seq<u8>, at: int) -> u32 {
    (b[at] + 256 * b[at + 1] + 65536 * b[at + 2] + 16777216 * b[at + 3]) as u32
}

/// Reads the little-endian 32-bit number at `at`.
fn read_le_u32(b: &[u8], at: usize) -> (r: u32)
    requires
        at + 4 <= b@.len(),
    ensures
        r == le_u32(b@, at as int),
{
    b[at] as u32 + 256 * (b[at + 1] as u32) + 65536 * (b[at + 2] as u32) + 16777216 * (b[at
        + 3] as u32)
}

/// The 32-bit number at `at`, its highest byte first.
pub open spec fn be_u32(b: Seq<u8>, at: int) -> u32 {
    (16777216 * b[at] + 65536 * b[at + 1] + 256 * b[at + 2] + b[at + 3]) as u32
}

/// Reads the 32-bit number at `at`, its highest byte first.
fn read_be_u32(b: &[u8], at: usize) -> (r: u32)
    requires
        at + 4 <= b@.len(),
    ensures
        r == be_u32(b@, at as int),
{
    16777216 * (b[at] as u32) + 65536 * (b[at + 1] as u32) + 256 * (b[at + 2] as u32) + b[at
        + 3] as u32
}

/// The port that `raw`, a table's port field, denotes: the low two bytes in network
/// order.
pub open spec fn port_of_field(raw: u32) -> u16 {
    ((raw % 256) * 256 + (raw / 256) % 256) as u16
}

/// The port that a table's port field denotes.
pub fn ntohs_port(raw: u32) -> (r: u16)
    ensures
        r == port_of_field(raw),
{
    ((raw % 256) * 256 + (raw / 256) % 256) as u16
}

/// `raw` as four bytes in dotted form, the highest byte first.
pub open spec fn ipv4_text(raw: u32) -> Seq<char> {
    decimal((raw / 16777216) as nat) + "."@ + decimal(((raw / 65536) % 256) as nat) + "."@
        + decimal(((raw / 256) % 256) as nat) + "."@ + decimal((raw % 256) as nat)
}

/// `raw` as four bytes in dotted form, the highest byte first.
pub fn fmt_ipv4(raw: u32) -> (r: String)
    ensures
        r@ == ipv4_text(raw),
{
    let mut r = decimal_of((raw / 16777216) as u128);
    r.append(".");
    r.append(decimal_of(((raw / 65536) % 256) as u128).as_str());
    r.append(".");
    r.append(decimal_of(((raw / 256) % 256) as u128).as_str());
    r.append(".");
    r.append(decimal_of((raw % 256) as u128).as_str());
    r
}

/// One row of an owner table.
#[derive(Debug, Clone, Copy, PartialEq, Eq, Structural)]
pub struct TableRow {
    /// Whether the row is a listening socket; every UDP row is.
    pub listening: bool,
    /// The bound address, its first byte the highest.
    pub addr: u32,
    pub port: u16,
    pub pid: u32,
}

/// The size of one row of the TCP owner table.
pub const TCP_ROW_SIZE: usize = 24;

/// The size of one row of the UDP owner table.
pub const UDP_ROW_SIZE: usize = 12;

/// How many rows a table buffer holds: the number in its first four bytes, as far
/// as the buffer reaches.
pub open spec fn row_count(buffer: Seq<u8>, row_size: nat) -> nat {
    if buffer.len() < 4 {
        0
    } else {
        let room = ((buffer.len() - 4) as nat) / row_size;
        if le_u32(buffer, 0) <= room {
            le_u32(buffer, 0) as nat
        } else {
            room
        }
    }
}

/// Row `i` of a TCP owner table: state, local address, local port, remote address,
/// remote port, owner.
pub open spec fn tcp_row(buffer: Seq<u8>, i: int) -> TableRow {
    let at = 4 + 24 * i;
    TableRow {
        listening: le_u32(buffer, at) == TCP_STATE_LISTEN,
        addr: be_u32(buffer, at + 4),
        port: port_of_field(le_u32(buffer, at + 8)),
        pid: le_u32(buffer, at + 20),
    }
}

/// Row `i` of a UDP owner table: local address, local port, owner.
pub open spec fn udp_row(buffer: Seq<u8>, i: int) -> TableRow {
    let at = 4 + 12 * i;
    TableRow {
        listening: true,
        addr: be_u32(buffer, at),
        port: port_of_field(le_u32(buffer, at + 4)),
        pid: le_u32(buffer, at + 8),
    }
}

/// The rows of a TCP owner table.
pub open spec fn tcp_rows(buffer: Seq<u8>) -> Seq<TableRow> {
    Seq::new(row_count(buffer, 24), |i: int| tcp_row(buffer, i))
}

/// The rows of a UDP owner table.
pub open spec fn udp_rows(buffer: Seq<u8>) -> Seq<TableRow> {
    Seq::new(row_count(buffer, 12), |i: int| udp_row(buffer, i))
}

/// How many rows a table buffer holds.
fn count_rows(buffer: &[u8], row_size: usize) -> (n: usize)
    requires
        row_size > 0,
    ensures
        n == row_count(buffer@, row_size as nat),
        4 + n * row_size <= buffer@.len() || n == 0,
{
    if buffer.len() < 4 {
        return 0;
    }
    let room: usize = (buffer.len() - 4) / row_size;
    let count: u32 = read_le_u32(buffer, 0);
    proof {
        let len = (buffer@.len() - 4) as int;
        vstd::arithmetic::div_mod::lemma_fundamental_div_mod(len, row_size as int);
        vstd::arithmetic::mul::lemma_mul_is_commutative(row_size as int, room as int);
        if count <= room {
            vstd::arithmetic::mul::lemma_mul_inequality(
                count as int,
                room as int,
                row_size as int,
            );
        }
    }
    if count as u64 <= room as u64 {
        count as usize
    } else {
        room
    }
}

/// Decodes a TCP owner table.
pub fn decode_tcp_table(buffer: &[u8]) -> (rows: Vec<TableRow>)
    ensures
        rows@ == tcp_rows(buffer@),
{
    let count: usize = count_rows(buffer, TCP_ROW_SIZE);
    let mut rows: Vec<TableRow> = Vec::new();
    let mut i: usize = 0;
    while i < count
        invariant
            i <= count,
            count == row_count(buffer@, 24),
            4 + count * 24 <= buffer@.len() || count == 0,
            rows@ == Seq::new(i as nat, |k: int| tcp_row(buffer@, k)),
        decreases count - i,
    {
        let length: usize = buffer.len();
        assert(length == buffer@.len());
        let at: usize = 4 + 24 * i;
        let row = TableRow {
            listening: is_listen_state(read_le_u32(buffer, at)),
            addr: read_be_u32(buffer, at + 4),
            port: ntohs_port(read_le_u32(buffer, at + 8)),
            pid: read_le_u32(buffer, at + 20),
        };
        rows.push(row);
        i = i + 1;
        assert(rows@ =~= Seq::new(i as nat, |k: int| tcp_row(buffer@, k)));
    }
    rows
}

/// Decodes a UDP owner table.
pub fn decode_udp_table(buffer: &[u8]) -> (rows: Vec<TableRow>)
    ensures
        rows@ == udp_rows(buffer@),
{
    let count: usize = count_rows(buffer, UDP_ROW_SIZE);
    let mut rows: Vec<TableRow> = Vec::new();
    let mut i: usize = 0;
    while i < count
        invariant
            i <= count,
            count == row_count(buffer@, 12),
            4 + count * 12 <= buffer@.len() || count == 0,
            rows@ == Seq::new(i as nat, |k: int| udp_row(buffer@, k)),
        decreases count - i,
    {
        let length: usize = buffer.len();
        assert(length == buffer@.len());
        let at: usize = 4 + 12 * i;
        let row = TableRow {
            listening: true,
            addr: read_be_u32(buffer, at),
            port: ntohs_port(read_le_u32(buffer, at + 4)),
            pid: read_le_u32(buffer, at + 8),
        };
        rows.push(row);
        i = i + 1;
        assert(rows@ =~= Seq::new(i as nat, |k: int| udp_row(buffer@, k)));
    }
    rows
}

/// Whether a row may be listed at all.
pub open spec fn row_passes(row: TableRow, show_system_ports: bool) -> bool {
    row.listening && !physically_blocked(row.pid, row.port, show_system_ports)
}

/// Whether `rows` has a row with this port and owner.
pub open spec fn has_owner(rows: Seq<TableRow>, port: u16, pid: u32) -> bool {
    exists|k: int| 0 <= k < rows.len() && (#[trigger] rows[k]).port == port && rows[k].pid == pid
}

/// The rows that are listed, in table order: those that pass, and of several with
/// the same port and owner the first alone.
pub open spec fn listed_rows(rows: Seq<TableRow>, show_system_ports: bool) -> Seq<TableRow>
    decreases rows.len(),
{
    if rows.len() == 0 {
        Seq::empty()
    } else {
        let earlier = listed_rows(rows.drop_last(), show_system_ports);
        let row = rows.last();
        if row_passes(row, show_system_ports) && !has_owner(earlier, row.port, row.pid) {
            earlier.push(row)
        } else {
            earlier
        }
    }
}

/// A listening socket whose owner has not been looked up yet.
#[derive(Debug, PartialEq, Eq)]
pub struct RawListener {
    pub protocol: String,
    pub local_port: u16,
    pub local_addr: String,
    pub pid: u32,
}

impl Clone for RawListener {
    fn clone(&self) -> (r: Self)
        ensures
            r == *self,
    {
        RawListener {
            protocol: self.protocol.clone(),
            local_port: self.local_port,
            local_addr: self.local_addr.clone(),
            pid: self.pid,
        }
    }
}

impl RawListener {
    /// Whether this is the listener of a table row.
    pub open spec fn is_row(self, protocol: Seq<char>, row: TableRow) -> bool {
        &&& self.protocol@ == protocol
        &&& self.local_port == row.port
        &&& self.local_addr@ == ipv4_text(row.addr)
        &&& self.pid == row.pid
    }
}

/// Whether `listeners` are the listeners of `rows`, one each.
pub open spec fn listeners_of(
    listeners: Seq<RawListener>,
    protocol: Seq<char>,
    rows: Seq<TableRow>,
) -> bool {
    &&& listeners.len() == rows.len()
    &&& forall|i: int|
        0 <= i < listeners.len() ==> (#[trigger] listeners[i]).is_row(protocol, rows[i])
}

/// A port and its owner as one number.
pub open spec fn owner_key(port: u16, pid: u32) -> int {
    port * 0x1_0000_0000 + pid
}

/// Turns decoded rows into listeners.
fn collect_listeners(protocol: &str, rows: &Vec<TableRow>, show_system_ports: bool) -> (out: Vec<
    RawListener,
>)
    ensures
        listeners_of(out@, protocol@, listed_rows(rows@, show_system_ports)),
{
    broadcast use vstd::std_specs::hash::group_hash_axioms;

    let mut seen: HashSet<u64> = HashSet::new();
    let mut out: Vec<RawListener> = Vec::new();
    let mut i: usize = 0;
    while i < rows.len()
        invariant
            i <= rows@.len(),
            listeners_of(
                out@,
                protocol@,
                listed_rows(rows@.take(i as int), show_system_ports),
            ),
            forall|port: u16, pid: u32|
                has_owner(listed_rows(rows@.take(i as int), show_system_ports), port, pid)
                    <==> seen@.contains(#[trigger] owner_key(port, pid) as u64),
        decreases rows@.len() - i,
    {
        let row = rows[i];
        let ghost earlier = listed_rows(rows@.take(i as int), show_system_ports);
        proof {
            assert(rows@.take(i + 1).drop_last() =~= rows@.take(i as int));
            assert(rows@.take(i + 1).last() == row);
        }
        if row.listening && !is_physically_blocked(row.pid, row.port, show_system_ports) {
            let key: u64 = row.port as u64 * 0x1_0000_0000 + row.pid as u64;
            assert(key == owner_key(row.port, row.pid) as u64);
            if seen.insert(key) {
                out.push(
                    RawListener {
                        protocol: protocol.to_owned(),
                        local_port: row.port,
                        local_addr: fmt_ipv4(row.addr),
                        pid: row.pid,
                    },
                );
                proof {
                    let now = earlier.push(row);
                    assert(now == listed_rows(rows@.take(i + 1), show_system_ports));
                    assert forall|port: u16, pid: u32|
                        has_owner(now, port, pid) <==> seen@.contains(
                            #[trigger] owner_key(port, pid) as u64,
                        ) by {
                        if has_owner(earlier, port, pid) {
                            let k = choose|k: int|
                                0 <= k < earlier.len() && (#[trigger] earlier[k]).port == port
                                    && earlier[k].pid == pid;
                            assert(now[k] == earlier[k]);
                        }
                        assert(now[now.len() - 1] == row);
                        if has_owner(now, port, pid) {
                            let k = choose|k: int|
                                0 <= k < now.len() && (#[trigger] now[k]).port == port
                                    && now[k].pid == pid;
                            if k < earlier.len() {
                                assert(earlier[k] == now[k]);
                            }
                        }
                    }
                }
            }
        }
        i = i + 1;
    }
    assert(rows@.take(i as int) =~= rows@);
    out
}

/// The listeners of a TCP owner table. A row of which the buffer does not hold
/// every byte is not read.
pub fn parse_tcp_table(buffer: &[u8], show_system_ports: bool) -> (out: Vec<RawListener>)
    ensures
        listeners_of(out@, "TCP"@, listed_rows(tcp_rows(buffer@), show_system_ports)),
{
    let rows = decode_tcp_table(buffer);
    collect_listeners("TCP", &rows, show_system_ports)
}

/// The listeners of a UDP owner table. A row of which the buffer does not hold
/// every byte is not read.
pub fn parse_udp_table(buffer: &[u8], show_system_ports: bool) -> (out: Vec<RawListener>)
    ensures
        listeners_of(out@, "UDP"@, listed_rows(udp_rows(buffer@), show_system_ports)),
{
    let rows = decode_udp_table(buffer);
    collect_listeners("UDP", &rows, show_system_ports)
}

// ---------------------------------------------------------------------------
// A scan
// ---------------------------------------------------------------------------

/// What came of reading an owner table: the code of the size probe and, where that
/// one asked for a buffer, the code and the content of the second call.
pub struct TableRead {
    pub probe_code: u32,
    pub fetch_code: u32,
    pub buffer: Vec<u8>,
}

/// Whether the size probe asks for the second call.
pub fn needs_fetch(probe_code: u32) -> (r: bool)
    ensures
        r == (probe_code == ERROR_INSUFFICIENT_BUFFER),
{
    probe_code == ERROR_INSUFFICIENT_BUFFER
}

/// How a table read failed, if it did: a probe that neither finds an empty table nor
/// asks for a buffer, or a second call that does not succeed.
pub open spec fn read_failure(
    read: TableRead,
    probe_context: &'static str,
    fetch_context: &'static str,
) -> Option<PortError> {
    if read.probe_code == 0 {
        None
    } else if read.probe_code != ERROR_INSUFFICIENT_BUFFER {
        Some(PortError::ScanFailed { context: probe_context, code: read.probe_code })
    } else if read.fetch_code != 0 {
        Some(PortError::ScanFailed { context: fetch_context, code: read.fetch_code })
    } else {
        None
    }
}

/// The listed rows of a table that was read; an empty table has none.
pub open spec fn read_rows(read: TableRead, rows: Seq<TableRow>, show_system_ports: bool) -> Seq<
    TableRow,
> {
    if read.probe_code == 0 {
        Seq::empty()
    } else {
        listed_rows(rows, show_system_ports)
    }
}

/// The TCP listeners of a table read.
pub fn scan_tcp_listeners(read: &TableRead, show_system_ports: bool) -> (r: Result<
    Vec<RawListener>,
    PortError,
>)
    ensures
        match tcp_failure(*read) {
            Some(error) => r == Err::<Vec<RawListener>, PortError>(error),
            None => r is Ok && listeners_of(
                r->Ok_0@,
                "TCP"@,
                read_rows(*read, tcp_rows(read.buffer@), show_system_ports),
            ),
        },
{
    if read.probe_code == 0 {
        return Ok(Vec::new());
    }
    if !needs_fetch(read.probe_code) {
        return Err(
            PortError::ScanFailed {
                context: "GetExtendedTcpTable 尺寸探测",
                code: read.probe_code,
            },
        );
    }
    if read.fetch_code != 0 {
        return Err(
            PortError::ScanFailed { context: "GetExtendedTcpTable 枚举", code: read.fetch_code },
        );
    }
    Ok(parse_tcp_table(read.buffer.as_slice(), show_system_ports))
}

/// The UDP listeners of a table read.
pub fn scan_udp_listeners(read: &TableRead, show_system_ports: bool) -> (r: Result<
    Vec<RawListener>,
    PortError,
>)
    ensures
        match udp_failure(*read) {
            Some(error) => r == Err::<Vec<RawListener>, PortError>(error),
            None => r is Ok && listeners_of(
                r->Ok_0@,
                "UDP"@,
                read_rows(*read, udp_rows(read.buffer@), show_system_ports),
            ),
        },
{
    if read.probe_code == 0 {
        return Ok(Vec::new());
    }
    if !needs_fetch(read.probe_code) {
        return Err(
            PortError::ScanFailed {
                context: "GetExtendedUdpTable 尺寸探测",
                code: read.probe_code,
            },
        );
    }
    if read.fetch_code != 0 {
        return Err(
            PortError::ScanFailed { context: "GetExtendedUdpTable 枚举", code: read.fetch_code },
        );
    }
    Ok(parse_udp_table(read.buffer.as_slice(), show_system_ports))
}

/// The listeners of both tables, those of TCP first.
#[derive(Debug, PartialEq, Eq)]
pub struct Listeners {
    pub all: Vec<RawListener>,
    /// How many rows of the TCP table listen, listed or not.
    pub tcp: usize,
    /// How many rows the UDP table has, listed or not.
    pub udp: usize,
}

/// The rows that listen.
pub open spec fn listening() -> spec_fn(TableRow) -> bool {
    |row: TableRow| row.listening
}

/// How many of the rows of a read listen.
pub open spec fn listening_count(read: TableRead, rows: Seq<TableRow>) -> nat {
    if read.probe_code == 0 {
        0
    } else {
        rows.filter(listening()).len()
    }
}

/// How many rows listen.
fn count_listening(rows: &Vec<TableRow>) -> (n: usize)
    ensures
        n == rows@.filter(listening()).len(),
{
    let mut n: usize = 0;
    let mut i: usize = 0;
    assert(rows@.take(0).filter(listening()).len() == 0) by {
        reveal(Seq::filter);
    }
    while i < rows.len()
        invariant
            i <= rows@.len(),
            n <= i,
            n == rows@.take(i as int).filter(listening()).len(),
        decreases rows@.len() - i,
    {
        proof {
            reveal(Seq::filter);
            assert(rows@.take(i + 1).drop_last() =~= rows@.take(i as int));
        }
        if rows[i].listening {
            n = n + 1;
        }
        i = i + 1;
    }
    assert(rows@.take(i as int) =~= rows@);
    n
}

/// Of the rows that listen no more are listed than there are.
proof fn lemma_listed_count(rows: Seq<TableRow>, show_system_ports: bool)
    ensures
        listed_rows(rows, show_system_ports).len() <= rows.filter(listening()).len(),
    decreases rows.len(),
{
    reveal(Seq::filter);
    if rows.len() > 0 {
        lemma_listed_count(rows.drop_last(), show_system_ports);
    }
}

/// Every row of a UDP table listens.
proof fn lemma_udp_rows_listen(rows: Seq<TableRow>)
    requires
        forall|i: int| 0 <= i < rows.len() ==> (#[trigger] rows[i]).listening,
    ensures
        rows.filter(listening()) == rows,
    decreases rows.len(),
{
    reveal(Seq::filter);
    if rows.len() > 0 {
        lemma_udp_rows_listen(rows.drop_last());
        assert(rows[rows.len() - 1].listening);
        assert(rows.drop_last().push(rows.last()) =~= rows);
    }
}

/// How reading the TCP owner table failed, if it did.
pub open spec fn tcp_failure(read: TableRead) -> Option<PortError> {
    read_failure(read, "GetExtendedTcpTable 尺寸探测", "GetExtendedTcpTable 枚举")
}

/// How reading the UDP owner table failed, if it did.
pub open spec fn udp_failure(read: TableRead) -> Option<PortError> {
    read_failure(read, "GetExtendedUdpTable 尺寸探测", "GetExtendedUdpTable 枚举")
}

/// Whether reading both tables leads to `r`: the failure of the first that failed, or the
/// listeners of both, those of TCP first.
pub open spec fn gathers(
    tcp: TableRead,
    udp: TableRead,
    show_system_ports: bool,
    r: Result<Listeners, PortError>,
) -> bool {
    match (tcp_failure(tcp), udp_failure(udp)) {
        (Some(error), _) => r == Err::<Listeners, PortError>(error),
        (None, Some(error)) => r == Err::<Listeners, PortError>(error),
        (None, None) => {
            let tcp_listed = read_rows(tcp, tcp_rows(tcp.buffer@), show_system_ports);
            let udp_listed = read_rows(udp, udp_rows(udp.buffer@), show_system_ports);
            &&& r is Ok
            &&& r->Ok_0.tcp == listening_count(tcp, tcp_rows(tcp.buffer@))
            &&& r->Ok_0.udp == (if udp.probe_code == 0 {
                0
            } else {
                udp_rows(udp.buffer@).len()
            })
            &&& r->Ok_0.all@.len() <= r->Ok_0.tcp + r->Ok_0.udp
            &&& r->Ok_0.all@.len() == tcp_listed.len() + udp_listed.len()
            &&& listeners_of(r->Ok_0.all@.take(tcp_listed.len() as int), "TCP"@, tcp_listed)
            &&& listeners_of(r->Ok_0.all@.skip(tcp_listed.len() as int), "UDP"@, udp_listed)
        },
    }
}

/// The listeners of both tables. Where both reads failed, the first failure counts.
pub fn gather_listeners(tcp: &TableRead, udp: &TableRead, show_system_ports: bool) -> (r: Result<
    Listeners,
    PortError,
>)
    ensures
        gathers(*tcp, *udp, show_system_ports, r),
{
    let mut all = match scan_tcp_listeners(tcp, show_system_ports) {
        Ok(listeners) => listeners,
        Err(error) => return Err(error),
    };
    let mut rest = match scan_udp_listeners(udp, show_system_ports) {
        Ok(listeners) => listeners,
        Err(error) => return Err(error),
    };
    let tcp_count: usize = if tcp.probe_code == 0 {
        0
    } else {
        count_listening(&decode_tcp_table(tcp.buffer.as_slice()))
    };
    let udp_count: usize = if udp.probe_code == 0 {
        0
    } else {
        decode_udp_table(udp.buffer.as_slice()).len()
    };
    let ghost first = all@;
    let ghost second = rest@;
    all.append(&mut rest);
    proof {
        assert(all@.take(first.len() as int) =~= first);
        assert(all@.skip(first.len() as int) =~= second);
        lemma_listed_count(tcp_rows(tcp.buffer@), show_system_ports);
        lemma_listed_count(udp_rows(udp.buffer@), show_system_ports);
        lemma_udp_rows_listen(udp_rows(udp.buffer@));
    }
    Ok(Listeners { all, tcp: tcp_count, udp: udp_count })
}

/// The name and path of a process whose image is at `path`. The name is what the path has
/// at its end; [`identity_with`] says what is made of a path without a file name.
pub fn process_identity(path: String) -> (r: (String, String))
    ensures
        r.1@ == path@,
        ends_in_name(path@) ==> is_final(path@, r.0@),
        r.0@.len() == 0 ==> path@.len() == 0,
{
    let file_name = paths::file_name(path.as_str());
    identity_with(path, file_name)
}

/// The name of a process by the path of its image and the file name of that, if it has one.
pub open spec fn image_name(path: Seq<char>, file_name: Option<Seq<char>>) -> Seq<char> {
    match file_name {
        Some(name) => if name.len() > 0 {
            name
        } else {
            path
        },
        None => path,
    }
}

/// The name and path of a process whose image is at `path`: the file name where the
/// path has one, else the whole path.
pub fn identity_with(path: String, file_name: Option<String>) -> (r: (String, String))
    ensures
        r.1@ == path@,
        r.0@ == image_name(
            path@,
            match file_name {
                Some(name) => Some(name@),
                None => None,
            },
        ),
{
    match file_name {
        Some(name) => {
            if name.as_str().is_empty() {
                (path.clone(), path)
            } else {
                (name, path)
            }
        },
        None => (path.clone(), path),
    }
}

/// The name and path of a process that could not be queried. Without Windows this is
/// every process.
pub fn query_process_identity(pid: u32) -> (r: (String, String))
    ensures
        r.0@ == UNKNOWN_PROCESS@,
        r.1@ == Seq::<char>::empty(),
{
    let _ = pid;
    (UNKNOWN_PROCESS.to_owned(), String::new())
}

/// The session of this process; unknown without Windows.
pub fn current_session_id() -> (r: Option<u32>)
    ensures
        r is None,
{
    None
}

/// The session of a process; unknown without Windows.
pub fn session_of_pid(pid: u32) -> (r: Option<u32>)
    ensures
        r is None,
{
    let _ = pid;
    None
}

/// Whether `entry` is the listener `raw` with the given name and path of its owner.
pub open spec fn enriched(entry: PortEntry, raw: RawListener, identity: (String, String)) -> bool {
    &&& entry.protocol == raw.protocol
    &&& entry.local_port == raw.local_port
    &&& entry.local_addr == raw.local_addr
    &&& entry.pid == raw.pid
    &&& entry.process_name == identity.0
    &&& entry.process_path == identity.1
}

/// Adds the owner's name and path to a listener.
pub fn enrich(raw: RawListener, identity: (String, String)) -> (entry: PortEntry)
    ensures
        enriched(entry, raw, identity),
{
    PortEntry {
        protocol: raw.protocol,
        local_port: raw.local_port,
        local_addr: raw.local_addr,
        pid: raw.pid,
        process_name: identity.0,
        process_path: identity.1,
    }
}

/// Whether `entries` are the listeners `raws`, each with the name and path of its owner.
pub open spec fn all_enriched(
    entries: Seq<PortEntry>,
    raws: Seq<RawListener>,
    identities: Seq<(String, String)>,
) -> bool {
    &&& entries.len() == raws.len()
    &&& forall|i: int|
        0 <= i < raws.len() ==> enriched(#[trigger] entries[i], raws[i], identities[i])
}

/// Adds the owners' names and paths to listeners; `identities` has one for each.
pub fn enrich_all(raws: &[RawListener], identities: &[(String, String)]) -> (entries: Vec<
    PortEntry,
>)
    requires
        raws@.len() == identities@.len(),
    ensures
        all_enriched(entries@, raws@, identities@),
{
    let mut entries: Vec<PortEntry> = Vec::new();
    let mut i: usize = 0;
    while i < raws.len()
        invariant
            i <= raws@.len(),
            raws@.len() == identities@.len(),
            entries@.len() == i,
            forall|k: int|
                0 <= k < i ==> enriched(#[trigger] entries@[k], raws@[k], identities@[k]),
        decreases raws@.len() - i,
    {
        let identity = (identities[i].0.clone(), identities[i].1.clone());
        entries.push(enrich(raws[i].clone(), identity));
        i = i + 1;
    }
    entries
}

/// Whether `pids` holds `pid`.
fn holds_pid(pids: &Vec<u32>, pid: u32) -> (r: bool)
    ensures
        r == pids@.contains(pid),
{
    let mut i: usize = 0;
    while i < pids.len()
        invariant
            i <= pids@.len(),
            forall|k: int| 0 <= k < i ==> pids@[k] != pid,
        decreases pids@.len() - i,
    {
        if pids[i] == pid {
            return true;
        }
        i = i + 1;
    }
    false
}

/// The owners of `entries`, each once, in the order in which they first occur.
pub open spec fn owners_once(entries: Seq<PortEntry>) -> Seq<u32>
    decreases entries.len(),
{
    if entries.len() == 0 {
        Seq::empty()
    } else {
        let earlier = owners_once(entries.drop_last());
        if earlier.contains(entries.last().pid) {
            earlier
        } else {
            earlier.push(entries.last().pid)
        }
    }
}

/// The owners whose session has to be looked up, each once.
pub fn distinct_pids(entries: &[PortEntry]) -> (pids: Vec<u32>)
    ensures
        pids@ == owners_once(entries@),
{
    let mut pids: Vec<u32> = Vec::new();
    let mut i: usize = 0;
    while i < entries.len()
        invariant
            i <= entries@.len(),
            pids@ == owners_once(entries@.take(i as int)),
        decreases entries@.len() - i,
    {
        let pid: u32 = entries[i].pid;
        proof {
            assert(entries@.take(i + 1).drop_last() =~= entries@.take(i as int));
            assert(entries@.take(i + 1).last() == entries@[i as int]);
        }
        if !holds_pid(&pids, pid) {
            pids.push(pid);
        }
        i = i + 1;
    }
    assert(entries@.take(i as int) =~= entries@);
    pids
}

/// What a scan brought.
#[derive(Debug, PartialEq, Eq)]
pub struct ScanReport {
    /// The rows of this session, or all rows where the session is unknown.
    pub entries: Vec<PortEntry>,
    /// How many rows of the TCP table listen.
    pub tcp_listeners: usize,
    /// How many rows the UDP table has.
    pub udp_listeners: usize,
}

impl Clone for ScanReport {
    fn clone(&self) -> (r: Self)
        ensures
            r.entries@ == self.entries@,
            r.tcp_listeners == self.tcp_listeners,
            r.udp_listeners == self.udp_listeners,
    {
        ScanReport {
            entries: copy_entries(self.entries.as_slice()),
            tcp_listeners: self.tcp_listeners,
            udp_listeners: self.udp_listeners,
        }
    }
}

/// The rows of a report: those that the session stage keeps, or all where the current
/// session is unknown.
pub open spec fn reported(
    entries: Seq<PortEntry>,
    sessions: Map<u32, Option<u32>>,
    current_session: Option<u32>,
) -> Seq<PortEntry> {
    match current_session {
        Some(current) => entries.filter(keeps_session(sessions, current)),
        None => entries,
    }
}

/// Puts a scan together: the session stage on the rows found, which is left out
/// where the current session is unknown.
pub fn assemble_report(
    entries: Vec<PortEntry>,
    tcp_listeners: usize,
    udp_listeners: usize,
    sessions: &HashMap<u32, Option<u32>>,
    current_session: Option<u32>,
) -> (r: ScanReport)
    ensures
        r.tcp_listeners == tcp_listeners,
        r.udp_listeners == udp_listeners,
        r.entries@ == reported(entries@, sessions@, current_session),
        r.entries@.len() <= entries@.len(),
{
    proof {
        if current_session is Some {
            entries@.lemma_filter_len(keeps_session(sessions@, current_session->0));
        }
    }
    let kept = match current_session {
        Some(current) => filter_same_session(entries.as_slice(), sessions, current),
        None => entries,
    };
    ScanReport { entries: kept, tcp_listeners, udp_listeners }
}

/// Lists the listening ports. Only Windows has the tables; this is the answer of
/// every other platform. On Windows a scan goes through [`gather_listeners`],
/// [`enrich_all`] and [`assemble_report`].
pub fn scan_and_collect(show_system_ports: bool) -> (r: Result<ScanReport, PortError>)
    ensures
        r is Ok,
        r->Ok_0.entries@ == Seq::<PortEntry>::empty(),
        r->Ok_0.tcp_listeners == 0,
        r->Ok_0.udp_listeners == 0,
{
    let _ = show_system_ports;
    Ok(ScanReport { entries: Vec::new(), tcp_listeners: 0, udp_listeners: 0 })
}

/// Whether `listener` holds `port` over `protocol`.
pub open spec fn holds_port(listener: RawListener, port: u16, protocol: Seq<char>) -> bool {
    listener.local_port == port && listener.protocol@ == protocol
}

/// The owner of the first of `listeners` that holds `port` over `protocol`.
pub open spec fn port_owner(
    listeners: Seq<RawListener>,
    port: u16,
    protocol: Seq<char>,
) -> Option<u32>
    decreases listeners.len(),
{
    if listeners.len() == 0 {
        None
    } else if holds_port(listeners[0], port, protocol) {
        Some(listeners[0].pid)
    } else {
        port_owner(listeners.drop_first(), port, protocol)
    }
}

/// Who holds `port` over `protocol` among `listeners`.
pub fn owner_of_port(listeners: &[RawListener], port: u16, protocol: &str) -> (r: Option<u32>)
    ensures
        r == port_owner(listeners@, port, protocol@),
{
    let mut i: usize = 0;
    assert(listeners@.skip(0) =~= listeners@);
    while i < listeners.len()
        invariant
            i <= listeners@.len(),
            port_owner(listeners@, port, protocol@) == port_owner(
                listeners@.skip(i as int),
                port,
                protocol@,
            ),
        decreases listeners@.len() - i,
    {
        let listener = &listeners[i];
        assert(listeners@.skip(i as int)[0] == *listener);
        if listener.local_port == port && same_text(listener.protocol.as_str(), protocol) {
            return Some(listener.pid);
        }
        assert(listeners@.skip(i as int).drop_first() =~= listeners@.skip(i + 1));
        i = i + 1;
    }
    None
}

// ---------------------------------------------------------------------------
// Laws
// ---------------------------------------------------------------------------

/// Every listed row is a row of the table that passes, and its port and owner occur
/// once in the list. No row of a kernel owner is listed, nor one of a reserved port
/// while system ports are hidden.
pub proof fn law_listed_rows(rows: Seq<TableRow>, show_system_ports: bool)
    ensures
        ({
            let listed = listed_rows(rows, show_system_ports);
            &&& listed.len() <= rows.len()
            &&& forall|i: int|
                0 <= i < listed.len() ==> rows.contains(#[trigger] listed[i]) && row_passes(
                    listed[i],
                    show_system_ports,
                )
            &&& forall|i: int|
                0 <= i < listed.len() ==> !kernel_owner((#[trigger] listed[i]).pid) && (
                show_system_ports || !reserved_port(listed[i].port))
            &&& forall|i: int, j: int|
                0 <= i < j < listed.len() ==> (#[trigger] listed[i]).port != (
                #[trigger] listed[j]).port || listed[i].pid != listed[j].pid
        }),
    decreases rows.len(),
{
    if rows.len() > 0 {
        let before = rows.drop_last();
        law_listed_rows(before, show_system_ports);
        let listed = listed_rows(rows, show_system_ports);
        let earlier = listed_rows(before, show_system_ports);
        assert forall|i: int| 0 <= i < listed.len() implies rows.contains(#[trigger] listed[i])
            && row_passes(listed[i], show_system_ports) by {
            if i < earlier.len() {
                assert(listed[i] == earlier[i]);
                let k = choose|k: int| 0 <= k < before.len() && before[k] == earlier[i];
                assert(rows[k] == listed[i]);
            } else {
                assert(rows[rows.len() - 1] == listed[i]);
            }
        }
        assert forall|i: int, j: int| 0 <= i < j < listed.len() implies (
        #[trigger] listed[i]).port != (#[trigger] listed[j]).port || listed[i].pid
            != listed[j].pid by {
            assert(listed[i] == earlier[i]);
            if j < earlier.len() {
                assert(listed[j] == earlier[j]);
            }
        }
    }
}

/// No passing row is lost: the port and owner of each are listed.
pub proof fn law_every_owner_is_listed(rows: Seq<TableRow>, show_system_ports: bool, i: int)
    requires
        0 <= i < rows.len(),
        row_passes(rows[i], show_system_ports),
    ensures
        has_owner(listed_rows(rows, show_system_ports), rows[i].port, rows[i].pid),
    decreases rows.len(),
{
    let before = rows.drop_last();
    let earlier = listed_rows(before, show_system_ports);
    let listed = listed_rows(rows, show_system_ports);
    if i < before.len() {
        law_every_owner_is_listed(before, show_system_ports, i);
        let k = choose|k: int|
            0 <= k < earlier.len() && (#[trigger] earlier[k]).port == rows[i].port
                && earlier[k].pid == rows[i].pid;
        assert(listed[k] == earlier[k]);
    } else if !has_owner(earlier, rows[i].port, rows[i].pid) {
        assert(listed[listed.len() - 1] == rows[i]);
    }
}

/// No entry of a scan belongs to a kernel owner, nor to a reserved port while system
/// ports are hidden, whichever table it comes from and whoever its owner turns out to
/// be; and the session stage brings none in.
pub proof fn law_scan_keeps_the_kernel_out(
    rows: Seq<TableRow>,
    show_system_ports: bool,
    protocol: Seq<char>,
    listeners: Seq<RawListener>,
    identities: Seq<(String, String)>,
    entries: Seq<PortEntry>,
    sessions: Map<u32, Option<u32>>,
    current_session: u32,
)
    requires
        listeners_of(listeners, protocol, listed_rows(rows, show_system_ports)),
        all_enriched(entries, listeners, identities),
    ensures
        forall|i: int|
            0 <= i < entries.len() ==> !kernel_owner((#[trigger] entries[i]).pid) && (
            show_system_ports || !reserved_port(entries[i].local_port)),
        forall|i: int|
            0 <= i < entries.filter(keeps_session(sessions, current_session)).len()
                ==> entries.contains(
                #[trigger] entries.filter(keeps_session(sessions, current_session))[i],
            ),
{
    law_listed_rows(rows, show_system_ports);
    let listed = listed_rows(rows, show_system_ports);
    assert forall|i: int| 0 <= i < entries.len() implies !kernel_owner(
        (#[trigger] entries[i]).pid,
    ) && (show_system_ports || !reserved_port(entries[i].local_port)) by {
        assert(listeners[i].is_row(protocol, listed[i]));
    }
    let p = keeps_session(sessions, current_session);
    assert forall|i: int| 0 <= i < entries.filter(p).len() implies entries.contains(
        #[trigger] entries.filter(p)[i],
    ) by {
        entries.lemma_filter_contains_rev(p, entries.filter(p)[i]);
    }
}

/// Whatever is searched for and shown, no row of a kernel owner is displayed, and
/// while system ports are hidden none of a reserved port.
pub proof fn law_system_rows_stay_hidden(
    rows: Seq<PortEntry>,
    search: Seq<char>,
    show_system_ports: bool,
)
    ensures
        forall|i: int|
            0 <= i < rows.filter(displayed(search, show_system_ports)).len() ==> ({
                let e = #[trigger] rows.filter(displayed(search, show_system_ports))[i];
                !kernel_owner(e.pid) && (show_system_ports || !reserved_port(e.local_port))
            }),
{
    let p = displayed(search, show_system_ports);
    assert forall|i: int| 0 <= i < rows.filter(p).len() implies ({
        let e = #[trigger] rows.filter(p)[i];
        !kernel_owner(e.pid) && (show_system_ports || !reserved_port(e.local_port))
    }) by {
        rows.lemma_filter_pred(p, i);
    }
}

/// Showing system ports hides nothing that was visible before.
pub proof fn law_showing_system_ports_only_adds(e: PortEntry, search: Seq<char>)
    requires
        displayed(search, false)(e),
    ensures
        displayed(search, true)(e),
{
}

/// Displaying what is displayed already changes nothing.
pub proof fn law_display_is_idempotent(
    rows: Seq<PortEntry>,
    search: Seq<char>,
    show_system_ports: bool,
)
    ensures
        ({
            let p = displayed(search, show_system_ports);
            rows.filter(p).filter(p) == rows.filter(p)
        }),
{
    lemma_filter_idempotent(rows, displayed(search, show_system_ports));
}

/// A search for a port number exempts from the dynamic-port stage alone: what the
/// session and system-service stages drop without it they drop with it.
pub proof fn law_explicit_port_exempts_one_stage(
    e: PortEntry,
    port: u16,
    sessions: Map<u32, Option<u32>>,
    current_session: u32,
)
    ensures
        ({
            let with = FilterOptions { show_system_ports: false, explicit_port: Some(port) };
            let without = FilterOptions { show_system_ports: false, explicit_port: None };
            &&& denoised(with, sessions, current_session)(e) == (keeps_session(
                sessions,
                current_session,
            )(e) && keeps_service(without)(e))
            &&& denoised(without, sessions, current_session)(e) ==> denoised(
                with,
                sessions,
                current_session,
            )(e)
        }),
{
}

/// A row whose owner's session is unknown passes the session stage.
pub proof fn law_unknown_session_is_kept(
    e: PortEntry,
    sessions: Map<u32, Option<u32>>,
    current_session: u32,
)
    requires
        !sessions.contains_key(e.pid) || sessions[e.pid] is None,
    ensures
        keeps_session(sessions, current_session)(e),
{
}

/// The text of a port number, with white space around it or without, is read back as
/// that port.
pub proof fn law_port_number_is_read_back(port: u16, search: Seq<char>)
    requires
        port >= 1,
        trimmed(search) == decimal(port as nat),
    ensures
        explicit_port(search) == Some(port),
        explicit_port(decimal(port as nat)) == Some(port),
{
    lemma_decimal_digits(port as nat);
    lemma_trimmed_digits(decimal(port as nat));
}

/// A port number stored in network order is read back.
pub proof fn law_port_byte_order_roundtrip(port: u16)
    ensures
        port_of_field(((port % 256) * 256 + port / 256) as u32) == port,
{
}

/// The nine ports of built-in services that are hidden, and none besides.
pub proof fn law_reserved_ports(port: u16)
    ensures
        reserved_port(port) <==> seq![
            135u16,
            137,
            138,
            139,
            445,
            1900,
            5353,
            5355,
            5357,
        ].contains(port),
{
    let ports = seq![135u16, 137, 138, 139, 445, 1900, 5353, 5355, 5357];
    if reserved_port(port) {
        assert(ports[0] == 135 && ports[1] == 137 && ports[2] == 138 && ports[3] == 139);
        assert(ports[4] == 445 && ports[5] == 1900 && ports[6] == 5353 && ports[7] == 5355);
        assert(ports[8] == 5357);
    }
}

/// The eight images of system services, and none besides.
pub proof fn law_system_images(lower: Seq<char>)
    ensures
        system_image(lower) <==> seq![
            "svchost.exe"@,
            "lsass.exe"@,
            "services.exe"@,
            "spoolsv.exe"@,
            "dwm.exe"@,
            "csrss.exe"@,
            "wininit.exe"@,
            "smss.exe"@,
        ].contains(lower),
{
    let images = seq![
        "svchost.exe"@,
        "lsass.exe"@,
        "services.exe"@,
        "spoolsv.exe"@,
        "dwm.exe"@,
        "csrss.exe"@,
        "wininit.exe"@,
        "smss.exe"@,
    ];
    if system_image(lower) {
        assert(images[0] == "svchost.exe"@ && images[1] == "lsass.exe"@);
        assert(images[2] == "services.exe"@ && images[3] == "spoolsv.exe"@);
        assert(images[4] == "dwm.exe"@ && images[5] == "csrss.exe"@);
        assert(images[6] == "wininit.exe"@ && images[7] == "smss.exe"@);
    }
}

/// Whether a port may be listed: any may where system ports are shown, else all but the
/// nine of built-in services.
pub open spec fn open_port(port: u16, show_system_ports: bool) -> bool {
    show_system_ports || !seq![135u16, 137, 138, 139, 445, 1900, 5353, 5355, 5357].contains(port)
}

/// Whether a row may be listed: it listens, belongs to no kernel owner and has a port that
/// is not hidden.
pub open spec fn may_be_listed(row: TableRow, show_system_ports: bool) -> bool {
    row.listening && row.pid > 4 && open_port(row.port, show_system_ports)
}

proof fn lemma_row_passes(row: TableRow, show_system_ports: bool)
    ensures
        row_passes(row, show_system_ports) <==> may_be_listed(row, show_system_ports),
{
    law_reserved_ports(row.port);
}

/// The list holds a row of the table at each of these places, in table order: only rows
/// that may be listed, and no port and owner twice.
pub proof fn law_listed_in_table_order(rows: Seq<TableRow>, show_system_ports: bool) -> (places:
    Seq<int>)
    ensures
        places.len() == listed_rows(rows, show_system_ports).len(),
        forall|j: int, k: int|
            0 <= j < k < places.len() ==> #[trigger] places[j] < #[trigger] places[k],
        forall|j: int|
            0 <= j < places.len() ==> 0 <= #[trigger] places[j] < rows.len() && listed_rows(
                rows,
                show_system_ports,
            )[j] == rows[places[j]] && may_be_listed(rows[places[j]], show_system_ports),
        forall|j: int, k: int|
            0 <= j < k < places.len() ==> (#[trigger] listed_rows(rows, show_system_ports)[j]).port
                != (#[trigger] listed_rows(rows, show_system_ports)[k]).port || listed_rows(
                rows,
                show_system_ports,
            )[j].pid != listed_rows(rows, show_system_ports)[k].pid,
    decreases rows.len(),
{
    law_listed_rows(rows, show_system_ports);
    if rows.len() == 0 {
        Seq::empty()
    } else {
        let front = rows.drop_last();
        let earlier = law_listed_in_table_order(front, show_system_ports);
        let kept = listed_rows(front, show_system_ports);
        let listed = listed_rows(rows, show_system_ports);
        lemma_row_passes(rows.last(), show_system_ports);
        let places = if listed.len() > kept.len() {
            earlier.push(rows.len() - 1)
        } else {
            earlier
        };
        assert forall|j: int| 0 <= j < places.len() implies 0 <= #[trigger] places[j] < rows.len()
            && listed[j] == rows[places[j]] && may_be_listed(rows[places[j]], show_system_ports) by {
            if j < earlier.len() {
                assert(places[j] == earlier[j]);
                assert(front[earlier[j]] == rows[earlier[j]]);
                assert(listed[j] == kept[j]);
            }
        }
        places
    }
}

/// A row that may be listed is in the list, unless a row before it with the same port and
/// owner is.
pub proof fn law_first_row_of_an_owner_is_listed(
    rows: Seq<TableRow>,
    show_system_ports: bool,
    i: int,
) -> (j: int)
    requires
        0 <= i < rows.len(),
        may_be_listed(rows[i], show_system_ports),
        forall|k: int|
            0 <= k < i && may_be_listed(#[trigger] rows[k], show_system_ports) ==> rows[k].port
                != rows[i].port || rows[k].pid != rows[i].pid,
    ensures
        0 <= j < listed_rows(rows, show_system_ports).len(),
        listed_rows(rows, show_system_ports)[j] == rows[i],
    decreases rows.len(),
{
    let front = rows.drop_last();
    let kept = listed_rows(front, show_system_ports);
    let listed = listed_rows(rows, show_system_ports);
    if i < front.len() {
        assert(front[i] == rows[i]);
        assert forall|k: int| 0 <= k < i && may_be_listed(
            #[trigger] front[k],
            show_system_ports,
        ) implies front[k].port != front[i].port || front[k].pid != front[i].pid by {
            assert(front[k] == rows[k]);
        }
        let j = law_first_row_of_an_owner_is_listed(front, show_system_ports, i);
        assert(listed[j] == kept[j]);
        j
    } else {
        lemma_row_passes(rows[i], show_system_ports);
        let places = law_listed_in_table_order(front, show_system_ports);
        if has_owner(kept, rows[i].port, rows[i].pid) {
            let k = choose|k: int|
                0 <= k < kept.len() && (#[trigger] kept[k]).port == rows[i].port && kept[k].pid
                    == rows[i].pid;
            let at = places[k];
            assert(front[at] == rows[at]);
            assert(may_be_listed(rows[at], show_system_ports));
        }
        listed.len() - 1
    }
}

/// The port and owner of every row that may be listed are in the list.
pub proof fn law_ordinary_row_is_listed(rows: Seq<TableRow>, show_system_ports: bool, i: int) -> (j:
    int)
    requires
        0 <= i < rows.len(),
        rows[i].listening,
        rows[i].pid > 4,
        open_port(rows[i].port, show_system_ports),
    ensures
        0 <= j < listed_rows(rows, show_system_ports).len(),
        listed_rows(rows, show_system_ports)[j].port == rows[i].port,
        listed_rows(rows, show_system_ports)[j].pid == rows[i].pid,
{
    lemma_row_passes(rows[i], show_system_ports);
    law_every_owner_is_listed(rows, show_system_ports, i);
    let listed = listed_rows(rows, show_system_ports);
    choose|j: int|
        0 <= j < listed.len() && (#[trigger] listed[j]).port == rows[i].port && listed[j].pid
            == rows[i].pid
}

/// How many rows a table says that it has: its first four bytes, the lowest first.
pub open spec fn declared_rows(buffer: Seq<u8>) -> int {
    buffer[0] + 256 * buffer[1] + 65536 * buffer[2] + 16777216 * buffer[3]
}

/// Whether a table of rows of this size says that it has row `i`, and holds every byte of
/// it.
pub open spec fn has_row(buffer: Seq<u8>, i: int, row_size: int) -> bool {
    &&& buffer.len() >= 4
    &&& 0 <= i < declared_rows(buffer)
    &&& 4 + row_size * (i + 1) <= buffer.len()
}

/// The number in the four bytes from `at` on, the lowest first.
pub open spec fn number_at(buffer: Seq<u8>, at: int) -> int {
    buffer[at] + 256 * buffer[at + 1] + 65536 * buffer[at + 2] + 16777216 * buffer[at + 3]
}

/// The port in the two bytes from `at` on, the highest first.
pub open spec fn port_at(buffer: Seq<u8>, at: int) -> int {
    256 * buffer[at] + buffer[at + 1]
}

/// The address in the four bytes from `at` on, as it is shown.
pub open spec fn address_at(buffer: Seq<u8>, at: int) -> Seq<char> {
    decimal(buffer[at] as nat) + "."@ + decimal(buffer[at + 1] as nat) + "."@ + decimal(
        buffer[at + 2] as nat,
    ) + "."@ + decimal(buffer[at + 3] as nat)
}

proof fn lemma_table_numbers(buffer: Seq<u8>, at: int)
    ensures
        le_u32(buffer, at) == number_at(buffer, at),
        port_of_field(le_u32(buffer, at)) == port_at(buffer, at),
        ipv4_text(be_u32(buffer, at)) == address_at(buffer, at),
{
    let (a, b, c, d) = (
        buffer[at] as int,
        buffer[at + 1] as int,
        buffer[at + 2] as int,
        buffer[at + 3] as int,
    );
    lemma_four_bytes(be_u32(buffer, at) as int, a, b, c, d);
    lemma_four_bytes(le_u32(buffer, at) as int, d, c, b, a);
}

proof fn lemma_four_bytes(raw: int, a: int, b: int, c: int, d: int)
    requires
        0 <= a < 256,
        0 <= b < 256,
        0 <= c < 256,
        0 <= d < 256,
        raw == 16777216 * a + 65536 * b + 256 * c + d,
    ensures
        raw / 16777216 == a,
        (raw / 65536) % 256 == b,
        (raw / 256) % 256 == c,
        raw % 256 == d,
{
    lemma_fundamental_div_mod_converse(raw, 16777216, a, 65536 * b + 256 * c + d);
    lemma_fundamental_div_mod_converse(raw, 65536, 256 * a + b, 256 * c + d);
    lemma_fundamental_div_mod_converse(256 * a + b, 256, a, b);
    lemma_fundamental_div_mod_converse(raw, 256, 65536 * a + 256 * b + c, d);
    lemma_fundamental_div_mod_converse(65536 * a + 256 * b + c, 256, 256 * a + b, c);
}

proof fn lemma_rows_of_tables(buffer: Seq<u8>)
    ensures
        forall|i: int| #[trigger]
            has_row(buffer, i, 24) <==> 0 <= i < tcp_rows(buffer).len(),
        forall|i: int| #[trigger]
            has_row(buffer, i, 12) <==> 0 <= i < udp_rows(buffer).len(),
        forall|i: int|
            0 <= i < tcp_rows(buffer).len() ==> {
                let row = #[trigger] tcp_rows(buffer)[i];
                &&& row.listening <==> number_at(buffer, 4 + 24 * i) == 2
                &&& ipv4_text(row.addr) == address_at(buffer, 4 + 24 * i + 4)
                &&& row.port == port_at(buffer, 4 + 24 * i + 8)
                &&& row.pid == number_at(buffer, 4 + 24 * i + 20)
            },
        forall|i: int|
            0 <= i < udp_rows(buffer).len() ==> {
                let row = #[trigger] udp_rows(buffer)[i];
                &&& row.listening
                &&& ipv4_text(row.addr) == address_at(buffer, 4 + 12 * i)
                &&& row.port == port_at(buffer, 4 + 12 * i + 4)
                &&& row.pid == number_at(buffer, 4 + 12 * i + 8)
            },
{
    if buffer.len() >= 4 {
        lemma_table_numbers(buffer, 0);
    }
    assert forall|i: int| 0 <= i < tcp_rows(buffer).len() implies {
        let row = #[trigger] tcp_rows(buffer)[i];
        &&& row.listening <==> number_at(buffer, 4 + 24 * i) == 2
        &&& ipv4_text(row.addr) == address_at(buffer, 4 + 24 * i + 4)
        &&& row.port == port_at(buffer, 4 + 24 * i + 8)
        &&& row.pid == number_at(buffer, 4 + 24 * i + 20)
    } by {
        lemma_table_numbers(buffer, 4 + 24 * i);
        lemma_table_numbers(buffer, 4 + 24 * i + 4);
        lemma_table_numbers(buffer, 4 + 24 * i + 8);
        lemma_table_numbers(buffer, 4 + 24 * i + 20);
    }
    assert forall|i: int| 0 <= i < udp_rows(buffer).len() implies {
        let row = #[trigger] udp_rows(buffer)[i];
        &&& row.listening
        &&& ipv4_text(row.addr) == address_at(buffer, 4 + 12 * i)
        &&& row.port == port_at(buffer, 4 + 12 * i + 4)
        &&& row.pid == number_at(buffer, 4 + 12 * i + 8)
    } by {
        lemma_table_numbers(buffer, 4 + 12 * i);
        lemma_table_numbers(buffer, 4 + 12 * i + 4);
        lemma_table_numbers(buffer, 4 + 12 * i + 8);
    }
}

/// Whether a listener is that of these bytes.
pub open spec fn read_from(
    listener: RawListener,
    protocol: Seq<char>,
    port: int,
    address: Seq<char>,
    pid: int,
) -> bool {
    &&& listener.protocol@ == protocol
    &&& listener.local_port == port
    &&& listener.local_addr@ == address
    &&& listener.pid == pid
}

/// Every row of a TCP table that listens is listed with its port and owner, unless the
/// owner is the kernel or the port is hidden: each of them and whatever stands in the other
/// rows.
pub proof fn law_tcp_listener_is_found(
    buffer: Seq<u8>,
    i: int,
    show_system_ports: bool,
    found: Seq<RawListener>,
) -> (j: int)
    requires
        listeners_of(found, "TCP"@, listed_rows(tcp_rows(buffer), show_system_ports)),
        has_row(buffer, i, 24),
        number_at(buffer, 4 + 24 * i) == 2,
        number_at(buffer, 4 + 24 * i + 20) > 4,
        open_port(port_at(buffer, 4 + 24 * i + 8) as u16, show_system_ports),
    ensures
        0 <= j < found.len(),
        found[j].protocol@ == "TCP"@,
        found[j].local_port == port_at(buffer, 4 + 24 * i + 8),
        found[j].pid == number_at(buffer, 4 + 24 * i + 20),
{
    let rows = tcp_rows(buffer);
    lemma_rows_of_tables(buffer);
    let row = rows[i];
    let j = law_ordinary_row_is_listed(rows, show_system_ports, i);
    assert(found[j].is_row("TCP"@, listed_rows(rows, show_system_ports)[j]));
    j
}

/// Every row of a UDP table is listed with its port and owner, unless the owner is the
/// kernel or the port is hidden.
pub proof fn law_udp_listener_is_found(
    buffer: Seq<u8>,
    i: int,
    show_system_ports: bool,
    found: Seq<RawListener>,
) -> (j: int)
    requires
        listeners_of(found, "UDP"@, listed_rows(udp_rows(buffer), show_system_ports)),
        has_row(buffer, i, 12),
        number_at(buffer, 4 + 12 * i + 8) > 4,
        open_port(port_at(buffer, 4 + 12 * i + 4) as u16, show_system_ports),
    ensures
        0 <= j < found.len(),
        found[j].protocol@ == "UDP"@,
        found[j].local_port == port_at(buffer, 4 + 12 * i + 4),
        found[j].pid == number_at(buffer, 4 + 12 * i + 8),
{
    let rows = udp_rows(buffer);
    lemma_rows_of_tables(buffer);
    let row = rows[i];
    let j = law_ordinary_row_is_listed(rows, show_system_ports, i);
    assert(found[j].is_row("UDP"@, listed_rows(rows, show_system_ports)[j]));
    j
}

/// What is listed of a TCP table are rows of it, in their order and as their bytes say:
/// rows that listen, of no kernel owner, with a port that may be listed, and no port and
/// owner twice.
pub proof fn law_tcp_listeners_stand_in_the_table(
    buffer: Seq<u8>,
    show_system_ports: bool,
    found: Seq<RawListener>,
) -> (places: Seq<int>)
    requires
        listeners_of(found, "TCP"@, listed_rows(tcp_rows(buffer), show_system_ports)),
    ensures
        places.len() == found.len(),
        forall|j: int, k: int|
            0 <= j < k < places.len() ==> #[trigger] places[j] < #[trigger] places[k],
        forall|j: int|
            0 <= j < places.len() ==> {
                let at = 4 + 24 * #[trigger] places[j];
                &&& has_row(buffer, places[j], 24)
                &&& number_at(buffer, at) == 2
                &&& number_at(buffer, at + 20) > 4
                &&& open_port(port_at(buffer, at + 8) as u16, show_system_ports)
                &&& read_from(
                    found[j],
                    "TCP"@,
                    port_at(buffer, at + 8),
                    address_at(buffer, at + 4),
                    number_at(buffer, at + 20),
                )
            },
        forall|j: int, k: int|
            0 <= j < k < found.len() ==> (#[trigger] found[j]).local_port != (
            #[trigger] found[k]).local_port || found[j].pid != found[k].pid,
{
    let rows = tcp_rows(buffer);
    let listed = listed_rows(rows, show_system_ports);
    lemma_rows_of_tables(buffer);
    let places = law_listed_in_table_order(rows, show_system_ports);
    assert forall|j: int| 0 <= j < places.len() implies {
        let at = 4 + 24 * #[trigger] places[j];
        &&& has_row(buffer, places[j], 24)
        &&& number_at(buffer, at) == 2
        &&& number_at(buffer, at + 20) > 4
        &&& open_port(port_at(buffer, at + 8) as u16, show_system_ports)
        &&& read_from(
            found[j],
            "TCP"@,
            port_at(buffer, at + 8),
            address_at(buffer, at + 4),
            number_at(buffer, at + 20),
        )
    } by {
        let row = rows[places[j]];
        assert(found[j].is_row("TCP"@, listed[j]));
    }
    assert forall|j: int, k: int| 0 <= j < k < found.len() implies (#[trigger] found[j]).local_port
        != (#[trigger] found[k]).local_port || found[j].pid != found[k].pid by {
        assert(found[j].is_row("TCP"@, listed[j]));
        assert(found[k].is_row("TCP"@, listed[k]));
    }
    places
}

/// What is listed of a UDP table are rows of it, in their order and as their bytes say: of
/// no kernel owner, with a port that may be listed, and no port and owner twice.
pub proof fn law_udp_listeners_stand_in_the_table(
    buffer: Seq<u8>,
    show_system_ports: bool,
    found: Seq<RawListener>,
) -> (places: Seq<int>)
    requires
        listeners_of(found, "UDP"@, listed_rows(udp_rows(buffer), show_system_ports)),
    ensures
        places.len() == found.len(),
        forall|j: int, k: int|
            0 <= j < k < places.len() ==> #[trigger] places[j] < #[trigger] places[k],
        forall|j: int|
            0 <= j < places.len() ==> {
                let at = 4 + 12 * #[trigger] places[j];
                &&& has_row(buffer, places[j], 12)
                &&& number_at(buffer, at + 8) > 4
                &&& open_port(port_at(buffer, at + 4) as u16, show_system_ports)
                &&& read_from(
                    found[j],
                    "UDP"@,
                    port_at(buffer, at + 4),
                    address_at(buffer, at),
                    number_at(buffer, at + 8),
                )
            },
        forall|j: int, k: int|
            0 <= j < k < found.len() ==> (#[trigger] found[j]).local_port != (
            #[trigger] found[k]).local_port || found[j].pid != found[k].pid,
{
    let rows = udp_rows(buffer);
    let listed = listed_rows(rows, show_system_ports);
    lemma_rows_of_tables(buffer);
    let places = law_listed_in_table_order(rows, show_system_ports);
    assert forall|j: int| 0 <= j < places.len() implies {
        let at = 4 + 12 * #[trigger] places[j];
        &&& has_row(buffer, places[j], 12)
        &&& number_at(buffer, at + 8) > 4
        &&& open_port(port_at(buffer, at + 4) as u16, show_system_ports)
        &&& read_from(
            found[j],
            "UDP"@,
            port_at(buffer, at + 4),
            address_at(buffer, at),
            number_at(buffer, at + 8),
        )
    } by {
        let row = rows[places[j]];
        assert(found[j].is_row("UDP"@, listed[j]));
    }
    assert forall|j: int, k: int| 0 <= j < k < found.len() implies (#[trigger] found[j]).local_port
        != (#[trigger] found[k]).local_port || found[j].pid != found[k].pid by {
        assert(found[j].is_row("UDP"@, listed[j]));
        assert(found[k].is_row("UDP"@, listed[k]));
    }
    places
}

/// A search text is a port number where it has digits alone, white space around them and
/// zeros before the number aside.
pub proof fn law_port_number_is_recognised(
    before: Seq<char>,
    zeros: nat,
    port: u16,
    after: Seq<char>,
)
    requires
        port >= 1,
        blank(before),
        blank(after),
    ensures
        explicit_port(
            before + (Seq::new(zeros, |i: int| '0') + decimal(port as nat)) + after,
        ) == Some(port),
{
    let text = Seq::new(zeros, |i: int| '0') + decimal(port as nat);
    law_zeros_do_not_count(zeros, port as nat);
    lemma_decimal_digits(port as nat);
    assert(is_digit(text[0]) && is_digit(text[text.len() - 1]));
    law_trimmed_is_the_middle(before, text, after);
}

/// A search text that is taken for a port number is one: the number of the port with
/// zeros before it and white space around.
pub proof fn law_recognised_port_is_a_number(search: Seq<char>, port: u16) -> (found: (
    Seq<char>,
    nat,
    Seq<char>,
))
    requires
        explicit_port(search) == Some(port),
    ensures
        port >= 1,
        blank(found.0),
        blank(found.2),
        search == found.0 + (Seq::new(found.1, |i: int| '0') + decimal(port as nat)) + found.2,
{
    let ends = law_trimmed_splits(search);
    let zeros = law_digits_are_a_number(trimmed(search));
    (ends.0, zeros, ends.1)
}

/// What the list shows of a row is decided by its owner, its image, its port and the
/// search text alone. Only a search for a port number or the option brings the ports from
/// 49152 on to light, and only the option the ports and images of the system. The kernel is
/// never shown.
pub proof fn law_what_is_displayed(e: PortEntry, search: Seq<char>, show_system_ports: bool)
    ensures
        displayed(search, show_system_ports)(e) <==> {
            let needle = lowercase(trimmed(search));
            &&& e.pid > 4
            &&& show_system_ports || !seq![
                135u16,
                137,
                138,
                139,
                445,
                1900,
                5353,
                5355,
                5357,
            ].contains(e.local_port)
            &&& show_system_ports || !seq![
                "svchost.exe"@,
                "lsass.exe"@,
                "services.exe"@,
                "spoolsv.exe"@,
                "dwm.exe"@,
                "csrss.exe"@,
                "wininit.exe"@,
                "smss.exe"@,
            ].contains(lowercase(e.process_name@))
            &&& show_system_ports || e.local_port < 49152 || explicit_port(search) is Some
            &&& needle.len() == 0 || needle == decimal(e.local_port as nat) || has_substring(
                lowercase(e.process_name@),
                needle,
            ) || has_substring(lowercase(e.protocol@), needle) || has_substring(
                lowercase(e.local_addr@),
                needle,
            )
        },
{
    law_reserved_ports(e.local_port);
    law_system_images(lowercase(e.process_name@));
}

/// What the three stages keep of a row is decided by its owner, its image, its port and
/// its session alone: it goes where it belongs to the kernel, where its session is known
/// and another one, and, unless system ports are shown, where it is one of the system's or
/// has a dynamic port that was not searched for.
pub proof fn law_what_is_kept(
    e: PortEntry,
    opts: FilterOptions,
    sessions: Map<u32, Option<u32>>,
    current_session: u32,
)
    ensures
        denoised(opts, sessions, current_session)(e) <==> {
            &&& e.pid > 4
            &&& opts.show_system_ports || !seq![
                135u16,
                137,
                138,
                139,
                445,
                1900,
                5353,
                5355,
                5357,
            ].contains(e.local_port)
            &&& opts.show_system_ports || !seq![
                "svchost.exe"@,
                "lsass.exe"@,
                "services.exe"@,
                "spoolsv.exe"@,
                "dwm.exe"@,
                "csrss.exe"@,
                "wininit.exe"@,
                "smss.exe"@,
            ].contains(lowercase(e.process_name@))
            &&& opts.show_system_ports || e.local_port < 49152 || opts.explicit_port is Some
            &&& forall|s: u32|
                sessions.contains_pair(e.pid, Some(s)) ==> s == current_session
        },
{
    law_reserved_ports(e.local_port);
    law_system_images(lowercase(e.process_name@));
    if sessions.contains_key(e.pid) && sessions[e.pid] is Some {
        assert(sessions.contains_pair(e.pid, Some(sessions[e.pid]->0)));
    }
}

/// Each stage alone drops just what it is there for: the first the ports from 49152 on,
/// the second the owners of another session, the third the kernel and the system's rows.
pub proof fn law_each_stage_drops_its_rows(
    e: PortEntry,
    opts: FilterOptions,
    sessions: Map<u32, Option<u32>>,
    current_session: u32,
    other_session: u32,
)
    ensures
        !keeps_port(opts)(e) <==> e.local_port >= 49152 && !opts.show_system_ports
            && opts.explicit_port is None,
        sessions.contains_pair(e.pid, Some(current_session)) ==> keeps_session(
            sessions,
            current_session,
        )(e),
        sessions.contains_pair(e.pid, Some(other_session)) && other_session != current_session
            ==> !keeps_session(sessions, current_session)(e),
        sessions.contains_pair(e.pid, None) || !sessions.contains_key(e.pid) ==> keeps_session(
            sessions,
            current_session,
        )(e),
        e.pid <= 4 ==> !keeps_service(opts)(e),
        e.pid > 4 && opts.show_system_ports ==> keeps_service(opts)(e),
        e.pid > 4 && !opts.show_system_ports ==> (keeps_service(opts)(e) <==> !reserved_port(
            e.local_port,
        ) && !system_image(lowercase(e.process_name@))),
{
}

/// The holder of a port is the owner of the first listener on it over the same protocol.
pub proof fn law_first_listener_holds_the_port(
    listeners: Seq<RawListener>,
    i: int,
    port: u16,
    protocol: Seq<char>,
)
    requires
        0 <= i < listeners.len(),
        listeners[i].local_port == port,
        listeners[i].protocol@ == protocol,
        forall|k: int|
            0 <= k < i ==> (#[trigger] listeners[k]).local_port != port || listeners[k].protocol@
                != protocol,
    ensures
        port_owner(listeners, port, protocol) == Some(listeners[i].pid),
    decreases i,
{
    if i > 0 {
        let rest = listeners.drop_first();
        assert(rest[i - 1] == listeners[i]);
        assert forall|k: int| 0 <= k < i - 1 implies (#[trigger] rest[k]).local_port != port
            || rest[k].protocol@ != protocol by {
            assert(rest[k] == listeners[k + 1]);
        }
        assert(listeners[0].local_port != port || listeners[0].protocol@ != protocol);
        law_first_listener_holds_the_port(rest, i - 1, port, protocol);
    }
}

/// A port that no listener has over a protocol is held by nobody.
pub proof fn law_free_port_has_no_holder(
    listeners: Seq<RawListener>,
    port: u16,
    protocol: Seq<char>,
)
    requires
        forall|k: int|
            0 <= k < listeners.len() ==> (#[trigger] listeners[k]).local_port != port
                || listeners[k].protocol@ != protocol,
    ensures
        port_owner(listeners, port, protocol) is None,
    decreases listeners.len(),
{
    if listeners.len() > 0 {
        let rest = listeners.drop_first();
        assert forall|k: int| 0 <= k < rest.len() implies (#[trigger] rest[k]).local_port != port
            || rest[k].protocol@ != protocol by {
            assert(rest[k] == listeners[k + 1]);
        }
        assert(listeners[0].local_port != port || listeners[0].protocol@ != protocol);
        law_free_port_has_no_holder(rest, port, protocol);
    }
}

/// The session of every owner is looked up, of each once and of nobody else.
pub proof fn law_every_owner_is_looked_up_once(entries: Seq<PortEntry>)
    ensures
        forall|i: int|
            0 <= i < entries.len() ==> owners_once(entries).contains((#[trigger] entries[i]).pid),
        forall|j: int|
            0 <= j < owners_once(entries).len() ==> exists|i: int|
                0 <= i < entries.len() && (#[trigger] entries[i]).pid
                    == #[trigger] owners_once(entries)[j],
        forall|j: int, k: int|
            0 <= j < k < owners_once(entries).len() ==> #[trigger] owners_once(entries)[j]
                != #[trigger] owners_once(entries)[k],
    decreases entries.len(),
{
    if entries.len() > 0 {
        let front = entries.drop_last();
        let earlier = owners_once(front);
        let owners = owners_once(entries);
        law_every_owner_is_looked_up_once(front);
        assert forall|i: int| 0 <= i < entries.len() implies owners.contains(
            (#[trigger] entries[i]).pid,
        ) by {
            if i < front.len() {
                assert(front[i] == entries[i]);
                let k = choose|k: int| 0 <= k < earlier.len() && earlier[k] == front[i].pid;
                assert(owners[k] == earlier[k]);
            } else if !earlier.contains(entries[i].pid) {
                assert(owners[owners.len() - 1] == entries[i].pid);
            }
        }
        assert forall|j: int| 0 <= j < owners.len() implies exists|i: int|
            0 <= i < entries.len() && (#[trigger] entries[i]).pid == #[trigger] owners[j] by {
            if j < earlier.len() {
                assert(owners[j] == earlier[j]);
                let i = choose|i: int|
                    0 <= i < front.len() && (#[trigger] front[i]).pid == earlier[j];
                assert(entries[i] == front[i]);
            } else {
                assert(entries[entries.len() - 1].pid == owners[j]);
            }
        }
        assert forall|j: int, k: int| 0 <= j < k < owners.len() implies #[trigger] owners[j]
            != #[trigger] owners[k] by {
            assert(owners[j] == earlier[j]);
            if k < earlier.len() {
                assert(owners[k] == earlier[k]);
            } else {
                assert(earlier.contains(owners[j]));
            }
        }
    }
}

/// A read of a table succeeds where the table is empty, or where a buffer is asked for and
/// then filled; else it fails with the code of the call that failed.
pub proof fn law_read_fails_with_its_code(
    read: TableRead,
    probe_context: &'static str,
    fetch_context: &'static str,
)
    ensures
        ({
            let failure = read_failure(read, probe_context, fetch_context);
            &&& failure is None <==> read.probe_code == 0 || read.probe_code == 122
                && read.fetch_code == 0
            &&& read.probe_code != 0 && read.probe_code != 122 ==> failure == Some(
                PortError::ScanFailed { context: probe_context, code: read.probe_code },
            )
            &&& read.probe_code == 122 && read.fetch_code != 0 ==> failure == Some(
                PortError::ScanFailed { context: fetch_context, code: read.fetch_code },
            )
        }),
{
}

/// The number of rows that listen grows by one with each such row and with no other.
pub proof fn law_listening_rows_are_counted(rows: Seq<TableRow>, row: TableRow, read: TableRead)
    requires
        read.probe_code != 0,
    ensures
        listening_count(read, Seq::empty()) == 0,
        listening_count(read, rows.push(row)) == listening_count(read, rows) + (if row.listening {
            1nat
        } else {
            0nat
        }),
{
    reveal(Seq::filter);
    assert(rows.push(row).drop_last() =~= rows);
    assert(rows.push(row).last() == row);
    assert(Seq::<TableRow>::empty().filter(listening()).len() == 0);
}

/// The entries of a scan are the listeners that were found, in their order, with the names
/// and paths of their owners.
pub proof fn law_entries_are_the_listeners(
    entries: Seq<PortEntry>,
    raws: Seq<RawListener>,
    identities: Seq<(String, String)>,
    i: int,
)
    requires
        all_enriched(entries, raws, identities),
        0 <= i < raws.len(),
    ensures
        entries.len() == raws.len(),
        entries[i].protocol@ == raws[i].protocol@,
        entries[i].local_port == raws[i].local_port,
        entries[i].local_addr@ == raws[i].local_addr@,
        entries[i].pid == raws[i].pid,
        entries[i].process_name@ == identities[i].0@,
        entries[i].process_path@ == identities[i].1@,
{
    assert(enriched(entries[i], raws[i], identities[i]));
}

/// A row is the system's by its owner, its image in any case or its port, and kept out of
/// every list by its owner, or by its port while system ports are hidden; nothing else
/// counts, neither a low port nor a high one.
pub proof fn law_classification(
    pid: u32,
    process_name: Seq<char>,
    port: u16,
    show_system_ports: bool,
)
    ensures
        kernel_owner(pid) <==> pid == 0 || pid == 1 || pid == 2 || pid == 3 || pid == 4,
        dynamic_port(port) <==> port as int / 0x4000 == 3,
        system_service(pid, process_name, port) <==> pid <= 4 || seq![
            "svchost.exe"@,
            "lsass.exe"@,
            "services.exe"@,
            "spoolsv.exe"@,
            "dwm.exe"@,
            "csrss.exe"@,
            "wininit.exe"@,
            "smss.exe"@,
        ].contains(lowercase(process_name)) || seq![
            135u16,
            137,
            138,
            139,
            445,
            1900,
            5353,
            5355,
            5357,
        ].contains(port),
        physically_blocked(pid, port, show_system_ports) <==> pid <= 4 || !show_system_ports
            && seq![
            135u16,
            137,
            138,
            139,
            445,
            1900,
            5353,
            5355,
            5357,
        ].contains(port),
{
    law_reserved_ports(port);
    law_system_images(lowercase(process_name));
}

/// A needle is found in a row where it is the whole number of the port, or stands anywhere
/// in the name, in the protocol or in the address.
pub proof fn law_needle_is_found(
    port: u16,
    lower_name: Seq<char>,
    lower_protocol: Seq<char>,
    lower_addr: Seq<char>,
    before: Seq<char>,
    needle: Seq<char>,
    after: Seq<char>,
)
    requires
        needle == decimal(port as nat) || lower_name == before + needle + after || lower_protocol
            == before + needle + after || lower_addr == before + needle + after,
    ensures
        row_matches(port, lower_name, lower_protocol, lower_addr, needle),
{
    law_part_is_found(before, needle, after);
}

/// A row in which a needle is found has it in one of the four places.
pub proof fn law_found_needle_is_there(
    port: u16,
    lower_name: Seq<char>,
    lower_protocol: Seq<char>,
    lower_addr: Seq<char>,
    needle: Seq<char>,
) -> (ends: (Seq<char>, Seq<char>))
    requires
        row_matches(port, lower_name, lower_protocol, lower_addr, needle),
    ensures
        needle == decimal(port as nat) || lower_name == ends.0 + needle + ends.1
            || lower_protocol == ends.0 + needle + ends.1 || lower_addr == ends.0 + needle
            + ends.1,
{
    if needle == decimal(port as nat) {
        (needle, needle)
    } else if has_substring(lower_name, needle) {
        law_found_part_is_there(lower_name, needle)
    } else if has_substring(lower_protocol, needle) {
        law_found_part_is_there(lower_protocol, needle)
    } else {
        law_found_part_is_there(lower_addr, needle)
    }
}

/// A report holds the rows that were found, in their order, but for those whose owner is
/// known to belong to another session than this one, where that is known.
pub proof fn law_report_leaves_other_sessions_out(
    entries: Seq<PortEntry>,
    e: PortEntry,
    sessions: Map<u32, Option<u32>>,
    current: u32,
    other: u32,
)
    requires
        other != current,
    ensures
        reported(entries, sessions, None) == entries,
        reported(Seq::empty(), sessions, Some(current)).len() == 0,
        sessions.contains_pair(e.pid, Some(other)) ==> reported(
            entries.push(e),
            sessions,
            Some(current),
        ) == reported(entries, sessions, Some(current)),
        sessions.contains_pair(e.pid, Some(current)) || sessions.contains_pair(e.pid, None)
            || !sessions.contains_key(e.pid) ==> reported(
            entries.push(e),
            sessions,
            Some(current),
        ) == reported(entries, sessions, Some(current)).push(e),
{
    reveal(Seq::filter);
    assert(entries.push(e).drop_last() =~= entries);
}

/// A process is named by the file name of its image, and by the whole path only where
/// that has none.
pub proof fn law_process_has_the_name_of_its_image(path: Seq<char>, name: Seq<char>)
    ensures
        name.len() > 0 ==> image_name(path, Some(name)) == name,
        image_name(path, Some(Seq::empty())) == path,
        image_name(path, None) == path,
{
}

/// Whether a table was read: it is empty, or a buffer was asked for and filled.
pub open spec fn was_read(read: TableRead) -> bool {
    read.probe_code == 0 || read.probe_code == 122 && read.fetch_code == 0
}

/// A scan succeeds if and only if both tables were read, and fails with the code of the
/// call that failed, that of the TCP table where both did.
pub proof fn law_scan_needs_both_tables(
    tcp: TableRead,
    udp: TableRead,
    show_system_ports: bool,
    r: Result<Listeners, PortError>,
)
    requires
        gathers(tcp, udp, show_system_ports, r),
    ensures
        r is Ok <==> was_read(tcp) && was_read(udp),
        !was_read(tcp) ==> (r->Err_0 matches PortError::ScanFailed { context, code } && code == (
        if tcp.probe_code != 122 {
            tcp.probe_code
        } else {
            tcp.fetch_code
        })),
        was_read(tcp) && !was_read(udp) ==> (r->Err_0 matches PortError::ScanFailed {
            context,
            code,
        } && code == (if udp.probe_code != 122 {
            udp.probe_code
        } else {
            udp.fetch_code
        })),
        tcp.probe_code == 0 && udp.probe_code == 0 ==> r->Ok_0.all@.len() == 0 && r->Ok_0.tcp == 0
            && r->Ok_0.udp == 0,
{
}

/// A scan finds every listener of the TCP table, whatever the UDP table holds: it is among
/// what was gathered with its port and owner, unless the owner is the kernel or the port is
/// hidden.
pub proof fn law_scan_finds_tcp_listeners(
    tcp: TableRead,
    udp: TableRead,
    show_system_ports: bool,
    found: Listeners,
    i: int,
) -> (j: int)
    requires
        gathers(tcp, udp, show_system_ports, Ok(found)),
        tcp.probe_code == 122,
        has_row(tcp.buffer@, i, 24),
        number_at(tcp.buffer@, 4 + 24 * i) == 2,
        number_at(tcp.buffer@, 4 + 24 * i + 20) > 4,
        open_port(port_at(tcp.buffer@, 4 + 24 * i + 8) as u16, show_system_ports),
    ensures
        0 <= j < found.all@.len(),
        found.all@[j].protocol@ == "TCP"@,
        found.all@[j].local_port == port_at(tcp.buffer@, 4 + 24 * i + 8),
        found.all@[j].pid == number_at(tcp.buffer@, 4 + 24 * i + 20),
{
    let listed = read_rows(tcp, tcp_rows(tcp.buffer@), show_system_ports);
    let part = found.all@.take(listed.len() as int);
    let j = law_tcp_listener_is_found(tcp.buffer@, i, show_system_ports, part);
    assert(part[j] == found.all@[j]);
    j
}

/// A scan finds every listener of the UDP table, whatever the TCP table holds.
pub proof fn law_scan_finds_udp_listeners(
    tcp: TableRead,
    udp: TableRead,
    show_system_ports: bool,
    found: Listeners,
    i: int,
) -> (j: int)
    requires
        gathers(tcp, udp, show_system_ports, Ok(found)),
        udp.probe_code == 122,
        has_row(udp.buffer@, i, 12),
        number_at(udp.buffer@, 4 + 12 * i + 8) > 4,
        open_port(port_at(udp.buffer@, 4 + 12 * i + 4) as u16, show_system_ports),
    ensures
        0 <= j < found.all@.len(),
        found.all@[j].protocol@ == "UDP"@,
        found.all@[j].local_port == port_at(udp.buffer@, 4 + 12 * i + 4),
        found.all@[j].pid == number_at(udp.buffer@, 4 + 12 * i + 8),
{
    let before = read_rows(tcp, tcp_rows(tcp.buffer@), show_system_ports).len() as int;
    let part = found.all@.skip(before);
    let j = law_udp_listener_is_found(udp.buffer@, i, show_system_ports, part);
    assert(part[j] == found.all@[before + j]);
    before + j
}

} // verus!
