//! The monitors: a fingerprint of their arrangement, and when a change of it counts.

use crate::text::{
    decimal, decimal_of, decimal_of_signed, decimal_signed, lemma_decimal_injective,
    lemma_decimal_signed_chars, lemma_decimal_signed_injective, lemma_split_unique,
};
use vstd::prelude::*;
use vstd::relations::{
    antisymmetric, reflexive, sorted_by, strongly_connected, total_ordering, transitive,
};

verus! {

/// How long the arrangement has to stay as it is before a change counts, in
/// milliseconds.
pub const DISPLAY_DEBOUNCE_MS: u64 = 1500;

/// How long a stop waits for the watching thread, in milliseconds.
pub const STOP_JOIN_TIMEOUT_MS: u64 = 2000;

/// The timer of the watching window.
pub const DEBOUNCE_TIMER_ID: usize = 0x544C;

/// One monitor of the desktop.
#[derive(Debug, Clone, Copy, PartialEq, Eq, Structural)]
pub struct MonitorRect {
    pub primary: bool,
    pub left: i32,
    pub top: i32,
    pub width: u32,
    pub height: u32,
}

/// The extent from `low` to `high`, never below zero.
pub open spec fn span(low: i32, high: i32) -> int {
    if low <= high {
        high - low
    } else {
        0
    }
}

/// The extent from `low` to `high`, never below zero.
pub fn extent(low: i32, high: i32) -> (r: u32)
    ensures
        r == span(low, high),
{
    if low <= high {
        (high as i64 - low as i64) as u32
    } else {
        0
    }
}

/// The monitor with these edges.
pub fn monitor_of(primary: bool, left: i32, top: i32, right: i32, bottom: i32) -> (r: MonitorRect)
    ensures
        r.primary == primary,
        r.left == left,
        r.top == top,
        r.width == span(left, right),
        r.height == span(top, bottom),
{
    MonitorRect { primary, left, top, width: extent(left, right), height: extent(top, bottom) }
}

// ---------------------------------------------------------------------------
// The fingerprint
// ---------------------------------------------------------------------------

/// The order of monitors: the primary first, then by left, top, width and height.
pub open spec fn not_after(a: MonitorRect, b: MonitorRect) -> bool {
    if a.primary != b.primary {
        a.primary
    } else if a.left != b.left {
        a.left < b.left
    } else if a.top != b.top {
        a.top < b.top
    } else if a.width != b.width {
        a.width < b.width
    } else {
        a.height <= b.height
    }
}

/// The order of monitors.
pub open spec fn monitor_order() -> spec_fn(MonitorRect, MonitorRect) -> bool {
    |a: MonitorRect, b: MonitorRect| not_after(a, b)
}

/// The text of one monitor.
pub open spec fn monitor_text(m: MonitorRect) -> Seq<char> {
    (if m.primary {
        "P:"@
    } else {
        "S:"@
    }) + decimal_signed(m.left as int) + ","@ + decimal_signed(m.top as int) + ","@ + decimal(
        m.width as nat,
    ) + "x"@ + decimal(m.height as nat)
}

/// The texts of monitors, one after the other.
pub open spec fn joined(monitors: Seq<MonitorRect>) -> Seq<char>
    decreases monitors.len(),
{
    if monitors.len() == 0 {
        Seq::empty()
    } else if monitors.len() == 1 {
        monitor_text(monitors[0])
    } else {
        monitor_text(monitors[0]) + "|"@ + joined(monitors.drop_first())
    }
}

/// The fingerprint of an arrangement: its monitors in order.
pub open spec fn fingerprint(monitors: Seq<MonitorRect>) -> Seq<char> {
    joined(monitors.sort_by(monitor_order()))
}

/// Whether `a` comes not after `b`.
fn is_not_after(a: &MonitorRect, b: &MonitorRect) -> (r: bool)
    ensures
        r == not_after(*a, *b),
{
    if a.primary != b.primary {
        a.primary
    } else if a.left != b.left {
        a.left < b.left
    } else if a.top != b.top {
        a.top < b.top
    } else if a.width != b.width {
        a.width < b.width
    } else {
        a.height <= b.height
    }
}

proof fn lemma_monitor_order()
    ensures
        total_ordering(monitor_order()),
{
    let r = monitor_order();
    assert(reflexive(r));
    assert(antisymmetric(r)) by {
        assert forall|x: MonitorRect, y: MonitorRect| #[trigger] r(x, y) && #[trigger] r(
            y,
            x,
        ) implies x == y by {}
    }
    assert(transitive(r));
    assert(strongly_connected(r));
}

/// Exchanging two elements keeps them all.
proof fn lemma_swap_multiset(s: Seq<MonitorRect>, i: int, j: int)
    requires
        0 <= i < j < s.len(),
    ensures
        s.update(i, s[j]).update(j, s[i]).to_multiset() == s.to_multiset(),
{
    broadcast use vstd::multiset::group_multiset_axioms;

    let middle = s.update(i, s[j]);
    vstd::seq_lib::to_multiset_update(s, i, s[j]);
    vstd::seq_lib::to_multiset_update(middle, j, s[i]);
    vstd::seq_lib::to_multiset_contains(s, s[i]);
    vstd::seq_lib::to_multiset_contains(s, s[j]);
    vstd::seq_lib::to_multiset_contains(middle, s[j]);
    assert(s.contains(s[i]));
    assert(s.contains(s[j]));
    assert(middle[j] == s[j]);
    assert(middle.contains(s[j]));
    assert(s.update(i, s[j]).update(j, s[i]).to_multiset() =~= s.to_multiset());
}

/// Puts monitors in order.
fn sort_monitors(monitors: &mut [MonitorRect])
    ensures
        final(monitors)@ == old(monitors)@.sort_by(monitor_order()),
{
    let ghost all = monitors@;
    let count: usize = monitors.len();
    let mut i: usize = 0;
    while i < count
        invariant
            i <= count,
            count == monitors@.len(),
            monitors@.to_multiset() == all.to_multiset(),
            forall|a: int, b: int|
                0 <= a < b < i ==> not_after(#[trigger] monitors@[a], #[trigger] monitors@[b]),
        decreases count - i,
    {
        let mut j: usize = i;
        while j > 0 && !is_not_after(&monitors[j - 1], &monitors[j])
            invariant
                j <= i < count,
                count == monitors@.len(),
                monitors@.to_multiset() == all.to_multiset(),
                forall|a: int, b: int|
                    0 <= a < b <= i && a != j && b != j ==> not_after(
                        #[trigger] monitors@[a],
                        #[trigger] monitors@[b],
                    ),
                forall|b: int| j < b <= i ==> not_after(monitors@[j as int], #[trigger] monitors@[b]),
            decreases j,
        {
            let ghost before = monitors@;
            let first = monitors[j - 1];
            let second = monitors[j];
            monitors[j - 1] = second;
            monitors[j] = first;
            proof {
                assert(monitors@ =~= before.update(j - 1, second).update(j as int, first));
                lemma_swap_multiset(before, j - 1, j as int);
            }
            j = j - 1;
        }
        i = i + 1;
    }
    proof {
        lemma_monitor_order();
        all.lemma_sort_by_ensures(monitor_order());
        assert(sorted_by(monitors@, monitor_order()));
        vstd::seq_lib::lemma_sorted_unique(
            monitors@,
            all.sort_by(monitor_order()),
            monitor_order(),
        );
    }
}

/// The text of one monitor.
fn text_of_monitor(m: &MonitorRect) -> (r: String)
    ensures
        r@ == monitor_text(*m),
{
    let mut r = (if m.primary {
        "P:"
    } else {
        "S:"
    }).to_owned();
    r.append(decimal_of_signed(m.left as i64).as_str());
    r.append(",");
    r.append(decimal_of_signed(m.top as i64).as_str());
    r.append(",");
    r.append(decimal_of(m.width as u128).as_str());
    r.append("x");
    r.append(decimal_of(m.height as u128).as_str());
    r
}

/// What is still to be written when `rest` is left, after `written` monitors.
spec fn still_to_write(rest: Seq<MonitorRect>, written: int) -> Seq<char> {
    if written == 0 || rest.len() == 0 {
        joined(rest)
    } else {
        "|"@ + joined(rest)
    }
}

/// Puts the monitors in order and returns their fingerprint.
pub fn topology_fingerprint(monitors: &mut [MonitorRect]) -> (r: String)
    ensures
        r@ == fingerprint(old(monitors)@),
        final(monitors)@ == old(monitors)@.sort_by(monitor_order()),
{
    sort_monitors(monitors);
    let ghost sorted = monitors@;
    let mut r = String::new();
    let mut i: usize = 0;
    assert(sorted.skip(0) =~= sorted);
    assert(r@ + joined(sorted) =~= joined(sorted));
    while i < monitors.len()
        invariant
            i <= monitors@.len(),
            monitors@ == sorted,
            joined(sorted) == r@ + still_to_write(sorted.skip(i as int), i as int),
        decreases monitors@.len() - i,
    {
        let ghost before = r@;
        let ghost rest = sorted.skip(i as int);
        let ghost next = sorted.skip(i + 1);
        assert(rest.drop_first() =~= next);
        assert(rest[0] == sorted[i as int]);
        if i > 0 {
            r.append("|");
        }
        r.append(text_of_monitor(&monitors[i]).as_str());
        i = i + 1;
        proof {
            let text = monitor_text(rest[0]);
            if next.len() == 0 {
                assert(still_to_write(next, i as int) =~= Seq::<char>::empty());
                assert(joined(rest) =~= text);
            } else {
                assert(joined(rest) =~= text + ("|"@ + joined(next)));
            }
            if i > 1 {
                assert(r@ + still_to_write(next, i as int) =~= before + ("|"@ + joined(rest)));
            } else {
                assert(r@ + still_to_write(next, i as int) =~= before + joined(rest));
            }
        }
    }
    assert(sorted.skip(i as int) =~= Seq::<MonitorRect>::empty());
    assert(r@ + Seq::<char>::empty() =~= r@);
    r
}

/// The fingerprint of the current arrangement; without Windows it is unknown.
pub fn current_topology_fingerprint() -> (r: String)
    ensures
        r@ == Seq::<char>::empty(),
{
    String::new()
}

// ---------------------------------------------------------------------------
// Window messages
// ---------------------------------------------------------------------------

/// The arrangement of monitors has changed.
pub const WM_DISPLAYCHANGE: u32 = 0x007E;

/// A timer has run out.
pub const WM_TIMER: u32 = 0x0113;

/// The window is asked to close.
pub const WM_CLOSE: u32 = 0x0010;

/// The window is being destroyed.
pub const WM_DESTROY: u32 = 0x0002;

/// What came of creating the watching window.
#[derive(Debug, PartialEq, Eq)]
pub enum WindowCreated {
    /// The handle that the system returned, and the code of its last error.
    Handle { hwnd: u64, last_error: u32 },
    /// The window was refused, for this reason.
    Refused(String),
    /// The thread that was to create it ended without a word.
    ThreadEnded,
}

/// Why there is no watching window, if there is none. A handle of zero is none.
pub open spec fn window_failure(created: WindowCreated) -> Option<Seq<char>> {
    match created {
        WindowCreated::Handle { hwnd, last_error } => if hwnd != 0 {
            None
        } else {
            Some(
                "CreateWindowExW 返回空窗口句柄（Win32 错误码 "@ + decimal(last_error as nat)
                    + "）"@,
            )
        },
        WindowCreated::Refused(reason) => Some("CreateWindowExW 失败: "@ + reason@),
        WindowCreated::ThreadEnded => Some("显示器守护线程在回报初始化结果前退出（通道关闭）"@),
    }
}

/// The handle of the watching window, or why there is none. Without a window no message
/// loop is entered.
pub fn settle_window(created: WindowCreated) -> (r: Result<u64, String>)
    ensures
        match window_failure(created) {
            None => r == Ok::<u64, String>(created->hwnd),
            Some(reason) => r is Err && r->Err_0@ == reason,
        },
{
    match created {
        WindowCreated::Handle { hwnd, last_error } => {
            if hwnd != 0 {
                return Ok(hwnd);
            }
            let mut reason = "CreateWindowExW 返回空窗口句柄（Win32 错误码 ".to_owned();
            reason.append(decimal_of(last_error as u128).as_str());
            reason.append("）");
            Err(reason)
        },
        WindowCreated::Refused(cause) => {
            let mut reason = "CreateWindowExW 失败: ".to_owned();
            reason.append(cause.as_str());
            Err(reason)
        },
        WindowCreated::ThreadEnded => Err(
            "显示器守护线程在回报初始化结果前退出（通道关闭）".to_owned(),
        ),
    }
}

/// What the watching window does about a message.
#[derive(Debug, Clone, Copy, PartialEq, Eq, Structural)]
pub enum WatchAction {
    /// Set the timer, or set it anew, to run out after this many milliseconds.
    ArmTimer { after_ms: u64 },
    /// Clear the timer and report the change.
    Report,
    /// Destroy the window.
    DestroyWindow,
    /// Let go of the receiver of reports and end the message loop.
    Quit,
    /// What every window does.
    Default,
}

/// What the watching window does about a message.
pub open spec fn action_on(message: u32, wparam: usize) -> WatchAction {
    if message == WM_DISPLAYCHANGE {
        WatchAction::ArmTimer { after_ms: DISPLAY_DEBOUNCE_MS }
    } else if message == WM_TIMER && wparam == DEBOUNCE_TIMER_ID {
        WatchAction::Report
    } else if message == WM_CLOSE {
        WatchAction::DestroyWindow
    } else if message == WM_DESTROY {
        WatchAction::Quit
    } else {
        WatchAction::Default
    }
}

/// What the watching window does about a message.
pub fn watch_action(message: u32, wparam: usize) -> (r: WatchAction)
    ensures
        r == action_on(message, wparam),
{
    if message == WM_DISPLAYCHANGE {
        WatchAction::ArmTimer { after_ms: DISPLAY_DEBOUNCE_MS }
    } else if message == WM_TIMER && wparam == DEBOUNCE_TIMER_ID {
        WatchAction::Report
    } else if message == WM_CLOSE {
        WatchAction::DestroyWindow
    } else if message == WM_DESTROY {
        WatchAction::Quit
    } else {
        WatchAction::Default
    }
}

// ---------------------------------------------------------------------------
// Laws
// ---------------------------------------------------------------------------

/// A message to the watching window, and when it came, in milliseconds.
pub struct TimedMessage {
    pub message: u32,
    pub wparam: usize,
    pub at: int,
}

/// What the watching window does about a message.
pub open spec fn reaction(m: TimedMessage) -> WatchAction {
    action_on(m.message, m.wparam)
}

/// When the timer runs out that is set after these messages, where one is. A timer that
/// is set anew runs from then on, and a window that goes takes its timer with it.
pub open spec fn timer_after(messages: Seq<TimedMessage>) -> Option<int>
    decreases messages.len(),
{
    if messages.len() == 0 {
        None
    } else {
        match reaction(messages.last()) {
            WatchAction::ArmTimer { after_ms } => Some(messages.last().at + after_ms),
            WatchAction::Default => timer_after(messages.drop_last()),
            _ => None,
        }
    }
}

/// Whether the timer's messages come when they should: only while it is set, and not
/// before it runs out.
pub open spec fn timer_keeps_time(messages: Seq<TimedMessage>) -> bool {
    forall|i: int|
        0 <= i < messages.len() && reaction(#[trigger] messages[i]) is Report ==> (timer_after(
            messages.take(i),
        ) matches Some(due) && due <= messages[i].at)
}

/// Whether the message at `c` is a change of the arrangement, and up to `i` nothing but
/// messages came that do not concern the window.
pub open spec fn last_change_before(messages: Seq<TimedMessage>, c: int, i: int) -> bool {
    &&& 0 <= c < i
    &&& messages[c].message == WM_DISPLAYCHANGE
    &&& forall|k: int| c < k < i ==> reaction(#[trigger] messages[k]) is Default
}

/// A change is reported once and only when the arrangement has stayed as it is for the
/// whole debounce time: before each report came a change, that long ago at least, and
/// neither another change nor another report since.
pub proof fn law_report_follows_a_quiet_change(messages: Seq<TimedMessage>, i: int)
    requires
        timer_keeps_time(messages),
        0 <= i < messages.len(),
        reaction(messages[i]) is Report,
    ensures
        exists|c: int| #[trigger]
            last_change_before(messages, c, i) && messages[i].at - messages[c].at
                >= DISPLAY_DEBOUNCE_MS,
{
    let before = messages.take(i);
    lemma_timer_is_of_last_change(before);
    let due = timer_after(before)->0;
    let c = choose|c: int| #[trigger]
        last_change_before(before, c, before.len() as int) && due == before[c].at
            + DISPLAY_DEBOUNCE_MS;
    assert(messages[c] == before[c]);
    assert forall|k: int| c < k < i implies reaction(#[trigger] messages[k]) is Default by {
        assert(messages[k] == before[k]);
    }
    assert(last_change_before(messages, c, i));
}

proof fn lemma_timer_is_of_last_change(messages: Seq<TimedMessage>)
    ensures
        timer_after(messages) matches Some(due) ==> exists|c: int| #[trigger]
            last_change_before(messages, c, messages.len() as int) && due == messages[c].at
                + DISPLAY_DEBOUNCE_MS,
    decreases messages.len(),
{
    if messages.len() > 0 && timer_after(messages) is Some {
        let last = messages.len() - 1;
        if reaction(messages.last()) is Default {
            let before = messages.drop_last();
            lemma_timer_is_of_last_change(before);
            let c = choose|c: int| #[trigger]
                last_change_before(before, c, before.len() as int) && timer_after(before)->0
                    == before[c].at + DISPLAY_DEBOUNCE_MS;
            assert(messages[c] == before[c]);
            assert forall|k: int| c < k < messages.len() implies reaction(
                #[trigger] messages[k],
            ) is Default by {
                if k < last {
                    assert(messages[k] == before[k]);
                }
            }
            assert(last_change_before(messages, c, messages.len() as int));
        } else {
            assert(last_change_before(messages, last, messages.len() as int));
        }
    }
}

/// Two arrangements have the same fingerprint if and only if they consist of the same
/// monitors, in whatever order they are listed.
pub proof fn law_fingerprint_identifies_arrangement(a: Seq<MonitorRect>, b: Seq<MonitorRect>)
    ensures
        fingerprint(a) == fingerprint(b) <==> a.to_multiset() == b.to_multiset(),
{
    let order = monitor_order();
    lemma_monitor_order();
    a.lemma_sort_by_ensures(order);
    b.lemma_sort_by_ensures(order);
    if a.to_multiset() == b.to_multiset() {
        vstd::seq_lib::lemma_sorted_unique(a.sort_by(order), b.sort_by(order), order);
    }
    if fingerprint(a) == fingerprint(b) {
        lemma_joined_injective(a.sort_by(order), b.sort_by(order));
    }
}

/// Only an arrangement without monitors has an empty fingerprint.
pub proof fn law_fingerprint_is_not_empty(monitors: Seq<MonitorRect>)
    ensures
        fingerprint(monitors).len() == 0 <==> monitors.len() == 0,
{
    lemma_monitor_order();
    monitors.lemma_sort_by_ensures(monitor_order());
    let sorted = monitors.sort_by(monitor_order());
    vstd::seq_lib::to_multiset_len(monitors);
    vstd::seq_lib::to_multiset_len(sorted);
    reveal_strlit("P:");
    reveal_strlit("S:");
    if sorted.len() > 0 {
        assert(monitor_text(sorted[0]).len() > 0);
    }
}

proof fn lemma_literals()
    ensures
        ","@ == seq![','],
        "x"@ == seq!['x'],
        "|"@ == seq!['|'],
        "P:"@ == seq!['P', ':'],
        "S:"@ == seq!['S', ':'],
{
    reveal_strlit(",");
    reveal_strlit("x");
    reveal_strlit("|");
    reveal_strlit("P:");
    reveal_strlit("S:");
    assert(","@ =~= seq![',']);
    assert("x"@ =~= seq!['x']);
    assert("|"@ =~= seq!['|']);
    assert("P:"@ =~= seq!['P', ':']);
    assert("S:"@ =~= seq!['S', ':']);
}

/// The text of a monitor without the mark at its front.
spec fn bounds_text(m: MonitorRect) -> Seq<char> {
    decimal_signed(m.left as int) + (","@ + (decimal_signed(m.top as int) + (","@ + (decimal(
        m.width as nat,
    ) + ("x"@ + decimal(m.height as nat))))))
}

proof fn lemma_monitor_text(m: MonitorRect)
    ensures
        monitor_text(m) == (if m.primary {
            "P:"@
        } else {
            "S:"@
        }) + bounds_text(m),
        !monitor_text(m).contains('|'),
        monitor_text(m).len() > 2,
{
    lemma_literals();
    let mark = if m.primary {
        "P:"@
    } else {
        "S:"@
    };
    assert(monitor_text(m) =~= mark + bounds_text(m));
    lemma_decimal_signed_chars(m.left as int, '|');
    lemma_decimal_signed_chars(m.top as int, '|');
    lemma_decimal_signed_chars(m.width as int, '|');
    lemma_decimal_signed_chars(m.height as int, '|');
    let left = decimal_signed(m.left as int);
    let top = decimal_signed(m.top as int);
    let width = decimal_signed(m.width as int);
    let height = decimal_signed(m.height as int);
    if monitor_text(m).contains('|') {
        let i = choose|i: int| 0 <= i < monitor_text(m).len() && monitor_text(m)[i] == '|';
        let after_left = 2 + left.len() + 1;
        let after_top = after_left + top.len() + 1;
        let after_width = after_top + width.len() + 1;
        if 2 <= i < 2 + left.len() {
            assert(left[i - 2] == '|');
        } else if after_left <= i < after_left + top.len() {
            assert(top[i - after_left] == '|');
        } else if after_top <= i < after_top + width.len() {
            assert(width[i - after_top] == '|');
        } else if after_width <= i {
            assert(height[i - after_width] == '|');
        }
    }
}

proof fn lemma_monitor_text_injective(a: MonitorRect, b: MonitorRect)
    requires
        monitor_text(a) == monitor_text(b),
    ensures
        a == b,
{
    lemma_literals();
    lemma_monitor_text(a);
    lemma_monitor_text(b);
    assert(monitor_text(a)[0] == (if a.primary {
        'P'
    } else {
        'S'
    }));
    assert(monitor_text(b)[0] == (if b.primary {
        'P'
    } else {
        'S'
    }));
    assert(monitor_text(a).skip(2) =~= bounds_text(a));
    assert(monitor_text(b).skip(2) =~= bounds_text(b));
    let size_a = decimal(a.width as nat) + ("x"@ + decimal(a.height as nat));
    let size_b = decimal(b.width as nat) + ("x"@ + decimal(b.height as nat));
    let below_a = decimal_signed(a.top as int) + (","@ + size_a);
    let below_b = decimal_signed(b.top as int) + (","@ + size_b);
    lemma_number_first(a.left as int, below_a, b.left as int, below_b);
    lemma_number_first(a.top as int, size_a, b.top as int, size_b);
    lemma_size_injective(
        a.width as nat,
        a.height as nat,
        b.width as nat,
        b.height as nat,
    );
}

/// A number and what follows it after a comma are told apart.
proof fn lemma_number_first(a: int, rest_a: Seq<char>, b: int, rest_b: Seq<char>)
    requires
        decimal_signed(a) + (","@ + rest_a) == decimal_signed(b) + (","@ + rest_b),
    ensures
        a == b,
        rest_a == rest_b,
{
    lemma_literals();
    lemma_decimal_signed_chars(a, ',');
    lemma_decimal_signed_chars(b, ',');
    assert(decimal_signed(a) + (","@ + rest_a) =~= decimal_signed(a) + seq![','] + rest_a);
    assert(decimal_signed(b) + (","@ + rest_b) =~= decimal_signed(b) + seq![','] + rest_b);
    lemma_split_unique(decimal_signed(a), rest_a, decimal_signed(b), rest_b, ',');
    lemma_decimal_signed_injective(a, b);
}

/// A width and a height are told apart.
proof fn lemma_size_injective(width_a: nat, height_a: nat, width_b: nat, height_b: nat)
    requires
        decimal(width_a) + ("x"@ + decimal(height_a)) == decimal(width_b) + ("x"@ + decimal(
            height_b,
        )),
    ensures
        width_a == width_b,
        height_a == height_b,
{
    lemma_literals();
    lemma_decimal_signed_chars(width_a as int, 'x');
    lemma_decimal_signed_chars(width_b as int, 'x');
    assert(decimal(width_a) + ("x"@ + decimal(height_a)) =~= decimal(width_a) + seq!['x']
        + decimal(height_a));
    assert(decimal(width_b) + ("x"@ + decimal(height_b)) =~= decimal(width_b) + seq!['x']
        + decimal(height_b));
    lemma_split_unique(
        decimal(width_a),
        decimal(height_a),
        decimal(width_b),
        decimal(height_b),
        'x',
    );
    lemma_decimal_injective(width_a, width_b);
    lemma_decimal_injective(height_a, height_b);
}

proof fn lemma_joined_injective(a: Seq<MonitorRect>, b: Seq<MonitorRect>)
    requires
        joined(a) == joined(b),
    ensures
        a == b,
    decreases a.len(),
{
    lemma_literals();
    if a.len() > 0 {
        lemma_monitor_text(a[0]);
    }
    if b.len() > 0 {
        lemma_monitor_text(b[0]);
    }
    if a.len() == 0 || b.len() == 0 {
        assert(a =~= b);
    } else {
        let text_a = monitor_text(a[0]);
        let text_b = monitor_text(b[0]);
        let rest_a = joined(a.drop_first());
        let rest_b = joined(b.drop_first());
        if a.len() == 1 && b.len() == 1 {
            lemma_monitor_text_injective(a[0], b[0]);
            assert(a =~= b);
        } else if a.len() == 1 {
            assert(joined(b)[text_b.len() as int] == '|');
            assert(text_a.contains('|'));
        } else if b.len() == 1 {
            assert(joined(a)[text_a.len() as int] == '|');
            assert(text_b.contains('|'));
        } else {
            lemma_split_unique(text_a, rest_a, text_b, rest_b, '|');
            lemma_monitor_text_injective(a[0], b[0]);
            lemma_joined_injective(a.drop_first(), b.drop_first());
            assert(a =~= seq![a[0]] + a.drop_first());
            assert(b =~= seq![b[0]] + b.drop_first());
        }
    }
}

/// The monitors are listed the primary first, then from left to right and from top to
/// bottom; each is written with its edges and its size.
pub proof fn law_primary_comes_first(a: MonitorRect, b: MonitorRect)
    ensures
        a.primary && !b.primary ==> not_after(a, b) && !not_after(b, a),
        a.primary == b.primary && a.left < b.left ==> not_after(a, b) && !not_after(b, a),
        a.primary == b.primary && a.left == b.left && a.top < b.top ==> not_after(a, b)
            && !not_after(b, a),
        a.primary == b.primary && a.left == b.left && a.top == b.top && a.width < b.width
            ==> not_after(a, b) && !not_after(b, a),
        a.primary == b.primary && a.left == b.left && a.top == b.top && a.width == b.width
            && a.height < b.height ==> not_after(a, b) && !not_after(b, a),
        not_after(a, b) && not_after(b, a) ==> a == b,
{
}

/// Only a change of the arrangement sets the timer, only the timer of the watch leads to a
/// report, and every other message is left to the system but for those that end the
/// window.
pub proof fn law_messages_of_the_watch(message: u32, wparam: usize)
    ensures
        action_on(message, wparam) is ArmTimer <==> message == 0x007E,
        action_on(message, wparam) matches WatchAction::ArmTimer { after_ms } ==> after_ms
            == 1500,
        action_on(message, wparam) is Report <==> message == 0x0113 && wparam == 0x544C,
        action_on(message, wparam) is DestroyWindow <==> message == 0x0010,
        action_on(message, wparam) is Quit <==> message == 0x0002,
{
}

/// A monitor reaches from its one edge to the other: its size takes the first to the
/// second, wherever it stands, and is never below zero.
pub proof fn law_size_reaches_the_other_edge(low: i32, high: i32)
    ensures
        low <= high ==> low + span(low, high) == high,
        low > high ==> span(low, high) == 0,
        0 <= span(low, high) <= u32::MAX,
{
}

} // verus!
