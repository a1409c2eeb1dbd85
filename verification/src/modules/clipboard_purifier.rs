//! The clipboard purifier: when a copy carries rich text beside plain text, the
//! clipboard is reduced to the plain text.

use crate::modules::pump::{
    reports, runs_after, start_failure, stop_failure, thread_by, JoinOutcome, Pump, PumpHandshake,
    PumpLabels,
};
use crate::modules::{ModuleError, ToolModule};
use crate::utf16::bytes_of;
use vstd::prelude::*;

verus! {

/// The clipboard format of plain text.
pub const CF_UNICODETEXT: u32 = 13;

/// How often opening the clipboard is tried.
pub const OPEN_CLIPBOARD_MAX_ATTEMPTS: usize = 5;

/// How long to wait after attempt `retry_index` failed, in milliseconds.
pub open spec fn backoff_ms(retry_index: int) -> Option<u64> {
    if retry_index == 0 {
        Some(15u64)
    } else if retry_index == 1 {
        Some(30u64)
    } else if retry_index == 2 {
        Some(60u64)
    } else if retry_index == 3 {
        Some(120u64)
    } else {
        None
    }
}

/// How long to wait after attempt `retry_index` failed, in milliseconds; nothing
/// where no attempt follows.
pub fn clipboard_retry_backoff(retry_index: usize) -> (r: Option<u64>)
    ensures
        r == backoff_ms(retry_index as int),
{
    match retry_index {
        0 => Some(15),
        1 => Some(30),
        2 => Some(60),
        3 => Some(120),
        _ => None,
    }
}

/// Whether a clipboard with these formats is to be reduced: it holds plain text and rich
/// text too.
pub open spec fn holds_both(plain: bool, html: bool, rich_text: bool) -> bool {
    plain && (html || rich_text)
}

/// Whether the clipboard is to be reduced: it holds plain text and rich text too.
pub fn should_purge(has_unicode_text: bool, has_html: bool, has_rich_text: bool) -> (r: bool)
    ensures
        r == holds_both(has_unicode_text, has_html, has_rich_text),
{
    has_unicode_text && (has_html || has_rich_text)
}

/// Whether a registered format is on the clipboard. A format whose registration
/// failed has the number zero and is never there.
pub fn has_format(format: u32, available: bool) -> (r: bool)
    ensures
        r == (format != 0 && available),
{
    format != 0 && available
}

// ---------------------------------------------------------------------------
// Echoes
// ---------------------------------------------------------------------------

/// Tells the update that a rewrite of the clipboard causes from the others.
#[derive(Debug, Clone, Copy, PartialEq, Eq, Structural)]
pub struct EchoGuard {
    /// Whether the next update is the echo of a rewrite.
    pub armed: bool,
}

impl EchoGuard {
    /// A guard that expects no echo.
    pub fn new() -> (r: Self)
        ensures
            !r.armed,
    {
        EchoGuard { armed: false }
    }

    /// Takes an update and returns whether it is the expected echo.
    pub fn on_clipboard_update(&mut self) -> (r: bool)
        ensures
            r == old(self).armed,
            !final(self).armed,
    {
        if self.armed {
            self.armed = false;
            true
        } else {
            false
        }
    }

    /// Expects the echo of a rewrite.
    pub fn arm_after_rewrite(&mut self)
        ensures
            final(self).armed,
    {
        self.armed = true;
    }

    /// Settles an update that was not an echo: a rewrite makes the next one an echo.
    pub fn settle(&mut self, rewritten: bool)
        ensures
            final(self).armed == (old(self).armed || rewritten),
    {
        if rewritten {
            self.arm_after_rewrite();
        }
    }
}

/// The clipboard has changed.
pub const WM_CLIPBOARDUPDATE: u32 = 0x031D;

/// The message loop is to end.
pub const WM_QUIT: u32 = 0x0012;

/// What the listening thread does about a message.
#[derive(Debug, Clone, Copy, PartialEq, Eq, Structural)]
pub enum PumpAction {
    /// Reduce the clipboard.
    Reduce,
    /// Leave the message loop.
    Quit,
    /// Nothing: an echo, or a message of another kind.
    Skip,
}

/// What the listening thread does about a message while an echo is expected or not.
pub open spec fn action_on(armed: bool, message: u32) -> PumpAction {
    if message == WM_CLIPBOARDUPDATE && !armed {
        PumpAction::Reduce
    } else if message == WM_QUIT {
        PumpAction::Quit
    } else {
        PumpAction::Skip
    }
}

/// Whether an echo is still expected after a message. An update uses it up.
pub open spec fn armed_on(armed: bool, message: u32) -> bool {
    armed && message != WM_CLIPBOARDUPDATE
}

impl EchoGuard {
    /// What the listening thread does about a message. An update that is an echo is used
    /// up.
    pub fn on_message(&mut self, message: u32) -> (r: PumpAction)
        ensures
            r == action_on(old(self).armed, message),
            final(self).armed == armed_on(old(self).armed, message),
    {
        if message == WM_CLIPBOARDUPDATE {
            if self.on_clipboard_update() {
                PumpAction::Skip
            } else {
                PumpAction::Reduce
            }
        } else if message == WM_QUIT {
            PumpAction::Quit
        } else {
            PumpAction::Skip
        }
    }
}

/// How the listening thread came up.
#[derive(Debug, PartialEq, Eq)]
pub enum ListenerSetup {
    /// The thread with this number listens.
    Listening(u32),
    /// Its window was refused, for this reason.
    NoWindow(String),
    /// The window was not made a listener, for this reason.
    NotListening(String),
}

/// What the listening thread reports to the module.
pub fn listener_handshake(setup: ListenerSetup) -> (r: PumpHandshake)
    ensures
        match setup {
            ListenerSetup::Listening(id) => r == PumpHandshake::Ready(id),
            ListenerSetup::NoWindow(reason) => r matches PumpHandshake::Failed(text) && text@
                == "CreateWindowExW 创建纯消息窗口失败（可能处于无桌面会话）: "@ + reason@,
            ListenerSetup::NotListening(reason) => r matches PumpHandshake::Failed(text) && text@
                == "AddClipboardFormatListener 注册剪贴板监听失败: "@ + reason@,
        },
{
    match setup {
        ListenerSetup::Listening(id) => PumpHandshake::Ready(id),
        ListenerSetup::NoWindow(reason) => {
            let mut text = "CreateWindowExW 创建纯消息窗口失败（可能处于无桌面会话）: ".to_owned();
            text.append(reason.as_str());
            PumpHandshake::Failed(text)
        },
        ListenerSetup::NotListening(reason) => {
            let mut text = "AddClipboardFormatListener 注册剪贴板监听失败: ".to_owned();
            text.append(reason.as_str());
            PumpHandshake::Failed(text)
        },
    }
}

/// Whether an echo is expected after `messages`, each with whether reducing the clipboard
/// then rewrites it.
pub open spec fn armed_after(messages: Seq<(u32, bool)>) -> bool
    decreases messages.len(),
{
    if messages.len() == 0 {
        false
    } else {
        let before = armed_after(messages.drop_last());
        let (message, rewrites) = messages.last();
        armed_on(before, message) || (action_on(before, message) is Reduce && rewrites)
    }
}

/// What is done about one of the messages.
pub open spec fn action_at(messages: Seq<(u32, bool)>, i: int) -> PumpAction {
    action_on(armed_after(messages.take(i)), messages[i].0)
}

/// Of two updates with none between them the second is skipped if and only if the first
/// led to a rewrite: a rewrite never leads to another, and nothing else is missed.
pub proof fn law_one_echo_per_rewrite(messages: Seq<(u32, bool)>, i: int, j: int)
    requires
        0 <= i < j < messages.len(),
        messages[i].0 == WM_CLIPBOARDUPDATE,
        messages[j].0 == WM_CLIPBOARDUPDATE,
        forall|k: int| i < k < j ==> (#[trigger] messages[k]).0 != WM_CLIPBOARDUPDATE,
    ensures
        action_at(messages, j) is Skip <==> action_at(messages, i) is Reduce && messages[i].1,
        action_at(messages, j) is Reduce <==> !(action_at(messages, i) is Reduce
            && messages[i].1),
{
    assert(messages.take(i + 1).drop_last() =~= messages.take(i));
    lemma_armed_between_updates(messages, i, j);
}

/// Without an update what is expected stays.
proof fn lemma_armed_between_updates(messages: Seq<(u32, bool)>, i: int, j: int)
    requires
        0 <= i < j <= messages.len(),
        forall|k: int| i < k < j ==> (#[trigger] messages[k]).0 != WM_CLIPBOARDUPDATE,
    ensures
        armed_after(messages.take(j)) == armed_after(messages.take(i + 1)),
    decreases j,
{
    if i + 1 < j {
        lemma_armed_between_updates(messages, i, j - 1);
        assert(messages.take(j).drop_last() =~= messages.take(j - 1));
        assert(messages.take(j).last() == messages[j - 1]);
    }
}

// ---------------------------------------------------------------------------
// The text
// ---------------------------------------------------------------------------

/// The units of `view` before the first zero.
pub open spec fn until_nul(view: Seq<u16>) -> Seq<u16>
    decreases view.len(),
{
    if view.len() == 0 || view[0] == 0 {
        Seq::empty()
    } else {
        seq![view[0]] + until_nul(view.drop_first())
    }
}

/// Cutting after `n` units that are not zero leaves those units and the cut rest.
proof fn lemma_until_nul(view: Seq<u16>, n: int)
    requires
        0 <= n <= view.len(),
        forall|i: int| 0 <= i < n ==> view[i] != 0,
        n == view.len() || view[n] == 0,
    ensures
        until_nul(view) == view.take(n),
    decreases n,
{
    if n > 0 {
        lemma_until_nul(view.drop_first(), n - 1);
        assert(seq![view[0]] + view.drop_first().take(n - 1) =~= view.take(n));
    } else {
        assert(view.take(0) =~= Seq::<u16>::empty());
    }
}

/// The text in a block of the clipboard: its units before the first zero.
pub fn text_units(view: &[u16]) -> (r: Vec<u16>)
    ensures
        r@ == until_nul(view@),
{
    let mut r: Vec<u16> = Vec::new();
    let mut i: usize = 0;
    while i < view.len()
        invariant
            i <= view@.len(),
            r@ == view@.take(i as int),
            forall|k: int| 0 <= k < i ==> view@[k] != 0,
        decreases view@.len() - i,
    {
        if view[i] == 0 {
            proof {
                lemma_until_nul(view@, i as int);
            }
            return r;
        }
        r.push(view[i]);
        i = i + 1;
        assert(view@.take(i as int) =~= view@.take(i - 1).push(view@[i - 1]));
    }
    proof {
        lemma_until_nul(view@, i as int);
    }
    r
}

/// What takes the place of a block of the clipboard: its text and a zero.
pub open spec fn replacement(view: Seq<u16>) -> Seq<u16> {
    until_nul(view).push(0)
}

/// What takes the place of a block of the clipboard.
pub fn replacement_units(view: &[u16]) -> (r: Vec<u16>)
    ensures
        r@ == replacement(view@),
{
    let mut r = text_units(view);
    r.push(0);
    r
}

/// A reduction keeps the text as it is, and so does another one: what takes the place
/// of a block has the same text.
pub proof fn law_text_is_kept(view: Seq<u16>)
    ensures
        until_nul(replacement(view)) == until_nul(view),
        replacement(replacement(view)) == replacement(view),
{
    let text = until_nul(view);
    lemma_text_has_no_nul(view);
    lemma_until_nul(text.push(0), text.len() as int);
    assert(text.push(0).take(text.len() as int) =~= text);
}

proof fn lemma_text_has_no_nul(view: Seq<u16>)
    ensures
        forall|i: int| 0 <= i < until_nul(view).len() ==> until_nul(view)[i] != 0,
    decreases view.len(),
{
    if view.len() > 0 && view[0] != 0 {
        let rest = until_nul(view.drop_first());
        lemma_text_has_no_nul(view.drop_first());
        assert forall|i: int| 0 <= i < until_nul(view).len() implies until_nul(view)[i] != 0 by {
            if i > 0 {
                assert(until_nul(view)[i] == rest[i - 1]);
            }
        }
    }
}

/// The size in bytes of a block for a text of `units` units and the zero after it,
/// where it can be expressed.
pub open spec fn block_bytes(units: nat) -> Option<usize> {
    if (units + 1) * 2 <= usize::MAX {
        Some(((units + 1) * 2) as usize)
    } else {
        None
    }
}

/// The size in bytes of a block for a text of `units` units and the zero after it.
pub fn replacement_bytes(units: usize) -> (r: Option<usize>)
    ensures
        r == block_bytes(units as nat),
{
    match units.checked_add(1) {
        Some(count) => count.checked_mul(2),
        None => None,
    }
}

// ---------------------------------------------------------------------------
// One reduction, step by step
// ---------------------------------------------------------------------------

/// What a reduction has to do next.
#[derive(Debug, Clone, Copy, PartialEq, Eq, Structural)]
pub enum PurgeStep {
    /// Try to open the clipboard.
    Open { attempt: usize },
    /// Wait after a failed attempt.
    Wait { attempt: usize },
    /// See which formats the clipboard holds.
    Inspect,
    /// Read the block of plain text.
    Read,
    /// Allocate a block of this size.
    Allocate { bytes: usize },
    /// Copy the text into the block.
    Fill,
    /// Empty the clipboard.
    Empty,
    /// Hand the block to the clipboard.
    Store,
    /// Free the block.
    Release,
    /// Close the clipboard.
    Close { rewritten: bool },
    /// Nothing any more.
    Done { rewritten: bool },
}

/// What came of a step.
#[derive(Debug, PartialEq, Eq)]
pub enum PurgeEvent {
    Opened(bool),
    Waited,
    Formats { text: bool, html: bool, rich_text: bool },
    /// The units of the block, or nothing where it could not be read.
    Text(Option<Vec<u16>>),
    Allocated(bool),
    Filled(bool),
    Emptied(bool),
    Stored(bool),
    Released,
    Closed,
}

/// The step that follows `step` when `event` came of it. An event of another step
/// changes nothing.
pub open spec fn next_step(step: PurgeStep, event: PurgeEvent) -> PurgeStep {
    match (step, event) {
        (PurgeStep::Open { attempt }, PurgeEvent::Opened(ok)) => if ok {
            PurgeStep::Inspect
        } else if attempt + 1 < OPEN_CLIPBOARD_MAX_ATTEMPTS {
            PurgeStep::Wait { attempt }
        } else {
            PurgeStep::Done { rewritten: false }
        },
        (PurgeStep::Wait { attempt }, PurgeEvent::Waited) => if attempt
            < OPEN_CLIPBOARD_MAX_ATTEMPTS {
            PurgeStep::Open { attempt: (attempt + 1) as usize }
        } else {
            step
        },
        (PurgeStep::Inspect, PurgeEvent::Formats { text, html, rich_text }) => if text && (html
            || rich_text) {
            PurgeStep::Read
        } else {
            PurgeStep::Close { rewritten: false }
        },
        (PurgeStep::Read, PurgeEvent::Text(view)) => match view {
            Some(units) => {
                let text = until_nul(units@);
                match block_bytes(text.len()) {
                    Some(bytes) => if text.len() > 0 {
                        PurgeStep::Allocate { bytes }
                    } else {
                        PurgeStep::Close { rewritten: false }
                    },
                    None => PurgeStep::Close { rewritten: false },
                }
            },
            None => PurgeStep::Close { rewritten: false },
        },
        (PurgeStep::Allocate { bytes }, PurgeEvent::Allocated(ok)) => if ok {
            PurgeStep::Fill
        } else {
            PurgeStep::Close { rewritten: false }
        },
        (PurgeStep::Fill, PurgeEvent::Filled(ok)) => if ok {
            PurgeStep::Empty
        } else {
            PurgeStep::Release
        },
        (PurgeStep::Empty, PurgeEvent::Emptied(ok)) => if ok {
            PurgeStep::Store
        } else {
            PurgeStep::Release
        },
        (PurgeStep::Store, PurgeEvent::Stored(ok)) => if ok {
            PurgeStep::Close { rewritten: true }
        } else {
            PurgeStep::Release
        },
        (PurgeStep::Release, PurgeEvent::Released) => PurgeStep::Close { rewritten: false },
        (PurgeStep::Close { rewritten }, PurgeEvent::Closed) => PurgeStep::Done { rewritten },
        _ => step,
    }
}

/// A block is asked for in answer to a text that was read, and with just as many bytes as
/// the units that take its place need, two for each; so they fill it, and nothing is left
/// over.
pub proof fn law_block_holds_the_replacement(step: PurgeStep, event: PurgeEvent, bytes: usize)
    requires
        !(step is Allocate),
        next_step(step, event) == (PurgeStep::Allocate { bytes }),
    ensures
        step is Read,
        event matches PurgeEvent::Text(Some(view)) && until_nul(view@).len() > 0 && bytes == 2
            * replacement(view@).len() && bytes == bytes_of(replacement(view@)).len(),
{
}

/// A text that is not empty is given a block wherever its size can be expressed at all.
pub proof fn law_block_is_asked_for(view: Vec<u16>)
    requires
        until_nul(view@).len() > 0,
        2 * replacement(view@).len() <= usize::MAX,
    ensures
        next_step(PurgeStep::Read, PurgeEvent::Text(Some(view))) == (PurgeStep::Allocate {
            bytes: (2 * replacement(view@).len()) as usize,
        }),
{
}

impl PurgeStep {
    /// The first step.
    pub fn first() -> (r: Self)
        ensures
            r == (PurgeStep::Open { attempt: 0 }),
    {
        PurgeStep::Open { attempt: 0 }
    }

    /// The step that follows when `event` came of this one.
    pub fn advance(self, event: &PurgeEvent) -> (r: PurgeStep)
        ensures
            r == next_step(self, *event),
    {
        match (self, event) {
            (PurgeStep::Open { attempt }, PurgeEvent::Opened(ok)) => {
                if *ok {
                    PurgeStep::Inspect
                } else if attempt < OPEN_CLIPBOARD_MAX_ATTEMPTS - 1 {
                    PurgeStep::Wait { attempt }
                } else {
                    PurgeStep::Done { rewritten: false }
                }
            },
            (PurgeStep::Wait { attempt }, PurgeEvent::Waited) => {
                if attempt < OPEN_CLIPBOARD_MAX_ATTEMPTS {
                    PurgeStep::Open { attempt: attempt + 1 }
                } else {
                    self
                }
            },
            (PurgeStep::Inspect, PurgeEvent::Formats { text, html, rich_text }) => {
                if should_purge(*text, *html, *rich_text) {
                    PurgeStep::Read
                } else {
                    PurgeStep::Close { rewritten: false }
                }
            },
            (PurgeStep::Read, PurgeEvent::Text(Some(units))) => {
                let text = text_units(units.as_slice());
                if text.len() == 0 {
                    return PurgeStep::Close { rewritten: false };
                }
                match replacement_bytes(text.len()) {
                    Some(bytes) => PurgeStep::Allocate { bytes },
                    None => PurgeStep::Close { rewritten: false },
                }
            },
            (PurgeStep::Read, PurgeEvent::Text(None)) => PurgeStep::Close { rewritten: false },
            (PurgeStep::Allocate { bytes: _ }, PurgeEvent::Allocated(ok)) => {
                if *ok {
                    PurgeStep::Fill
                } else {
                    PurgeStep::Close { rewritten: false }
                }
            },
            (PurgeStep::Fill, PurgeEvent::Filled(ok)) => {
                if *ok {
                    PurgeStep::Empty
                } else {
                    PurgeStep::Release
                }
            },
            (PurgeStep::Empty, PurgeEvent::Emptied(ok)) => {
                if *ok {
                    PurgeStep::Store
                } else {
                    PurgeStep::Release
                }
            },
            (PurgeStep::Store, PurgeEvent::Stored(ok)) => {
                if *ok {
                    PurgeStep::Close { rewritten: true }
                } else {
                    PurgeStep::Release
                }
            },
            (PurgeStep::Release, PurgeEvent::Released) => PurgeStep::Close { rewritten: false },
            (PurgeStep::Close { rewritten }, PurgeEvent::Closed) => PurgeStep::Done { rewritten },
            _ => self,
        }
    }
}

/// The step that a reduction has reached after `events`.
pub open spec fn step_after(events: Seq<PurgeEvent>) -> PurgeStep
    decreases events.len(),
{
    if events.len() == 0 {
        PurgeStep::Open { attempt: 0 }
    } else {
        next_step(step_after(events.drop_last()), events.last())
    }
}

/// Whether the clipboard is open after `events`: it is from a successful attempt to
/// the close.
pub open spec fn clipboard_open(events: Seq<PurgeEvent>) -> bool
    decreases events.len(),
{
    if events.len() == 0 {
        false
    } else {
        let step = step_after(events.drop_last());
        let was = clipboard_open(events.drop_last());
        if step is Open && events.last() == PurgeEvent::Opened(true) {
            true
        } else if step is Close && events.last() is Closed {
            false
        } else {
            was
        }
    }
}

/// Whether an allocated block is still owned after `events`: it is until the
/// clipboard takes it or it is freed.
pub open spec fn block_owned(events: Seq<PurgeEvent>) -> bool
    decreases events.len(),
{
    if events.len() == 0 {
        false
    } else {
        let step = step_after(events.drop_last());
        let was = block_owned(events.drop_last());
        if step is Allocate && events.last() == PurgeEvent::Allocated(true) {
            true
        } else if step is Store && events.last() == PurgeEvent::Stored(true) {
            false
        } else if step is Release && events.last() is Released {
            false
        } else {
            was
        }
    }
}

/// Whether the clipboard took the block.
pub open spec fn block_stored(events: Seq<PurgeEvent>) -> bool
    decreases events.len(),
{
    if events.len() == 0 {
        false
    } else {
        block_stored(events.drop_last()) || (step_after(events.drop_last()) is Store
            && events.last() == PurgeEvent::Stored(true))
    }
}

/// The time spent waiting for the clipboard.
pub open spec fn waited_ms(events: Seq<PurgeEvent>) -> nat
    decreases events.len(),
{
    if events.len() == 0 {
        0
    } else {
        let before = waited_ms(events.drop_last());
        match (step_after(events.drop_last()), events.last()) {
            (PurgeStep::Wait { attempt }, PurgeEvent::Waited) => match backoff_ms(attempt as int) {
                Some(ms) => before + ms as nat,
                None => before,
            },
            _ => before,
        }
    }
}

/// How long the waits before attempt `attempt` are together.
pub open spec fn waits_before(attempt: int) -> nat {
    if attempt <= 0 {
        0
    } else if attempt == 1 {
        15
    } else if attempt == 2 {
        45
    } else if attempt == 3 {
        105
    } else {
        225
    }
}

/// A reduction that is through has closed the clipboard if it opened it and leaves no
/// block behind; and it reports a rewrite if and only if the clipboard took one.
pub proof fn law_nothing_is_left_behind(events: Seq<PurgeEvent>)
    ensures
        step_after(events) matches PurgeStep::Done { rewritten } ==> !clipboard_open(events)
            && !block_owned(events) && rewritten == block_stored(events),
{
    lemma_resources(events);
}

/// The clipboard is emptied only while it is open and a filled block stands ready to
/// take the place of what it holds.
pub proof fn law_empty_only_with_replacement(events: Seq<PurgeEvent>)
    ensures
        step_after(events) is Empty ==> clipboard_open(events) && block_owned(events),
{
    lemma_resources(events);
}

/// Opening the clipboard is tried a bounded number of times, with a bounded wait in
/// all.
pub proof fn law_waiting_is_bounded(events: Seq<PurgeEvent>)
    ensures
        step_after(events) matches PurgeStep::Open { attempt } ==> attempt
            < OPEN_CLIPBOARD_MAX_ATTEMPTS,
        waited_ms(events) <= 225,
{
    lemma_attempts(events);
}

proof fn lemma_resources(events: Seq<PurgeEvent>)
    ensures
        ({
            let step = step_after(events);
            &&& clipboard_open(events) == !(step is Open || step is Wait || step is Done)
            &&& block_owned(events) == (step is Fill || step is Empty || step is Store || step
                is Release)
            &&& block_stored(events) == (step == (PurgeStep::Close { rewritten: true }) || step
                == (PurgeStep::Done { rewritten: true }))
        }),
    decreases events.len(),
{
    if events.len() > 0 {
        lemma_resources(events.drop_last());
    }
}

proof fn lemma_attempts(events: Seq<PurgeEvent>)
    ensures
        match step_after(events) {
            PurgeStep::Open { attempt } => attempt < OPEN_CLIPBOARD_MAX_ATTEMPTS && waited_ms(
                events,
            ) == waits_before(attempt as int),
            PurgeStep::Wait { attempt } => attempt + 1 < OPEN_CLIPBOARD_MAX_ATTEMPTS && waited_ms(
                events,
            ) == waits_before(attempt as int),
            _ => waited_ms(events) <= 225,
        },
    decreases events.len(),
{
    if events.len() > 0 {
        lemma_attempts(events.drop_last());
    }
}

// ---------------------------------------------------------------------------
// The module
// ---------------------------------------------------------------------------

/// The clipboard purifier.
pub struct ClipboardPurifierModule {
    pump: Pump,
}

impl ClipboardPurifierModule {
    /// The pump of the module.
    pub closed spec fn pump_state(&self) -> Pump {
        self.pump
    }

    /// A stopped module.
    pub fn new() -> (r: Self)
        ensures
            !r.pump_state().running(),
    {
        ClipboardPurifierModule { pump: Pump::stopped() }
    }

    /// The pump of the module.
    pub fn pump(&self) -> (r: &Pump)
        ensures
            *r == self.pump_state(),
    {
        &self.pump
    }

    /// The texts in which failures of the pump are reported.
    pub open spec fn labels() -> PumpLabels {
        PumpLabels {
            interrupted: "剪贴板净化模块启动握手被中断",
            panicked: "剪贴板净化泵线程异常终止: ",
            wait_failed: "剪贴板净化 Join 阻塞任务异常终止: ",
        }
    }

    /// Settles a start on the report of the pump thread.
    pub fn settle_start(&mut self, handshake: PumpHandshake) -> (r: Result<(), ModuleError>)
        ensures
            old(self).pump_state().running() ==> r is Ok && *final(self) == *old(self),
            !old(self).pump_state().running() ==> reports(
                r,
                start_failure(Self::labels(), handshake),
            ),
            final(self).pump_state().running() == runs_after(
                old(self).pump_state().running(),
                handshake,
            ),
            !old(self).pump_state().running() ==> final(self).pump_state().thread() == thread_by(
                handshake,
            ),
    {
        let labels = PumpLabels {
            interrupted: "剪贴板净化模块启动握手被中断",
            panicked: "剪贴板净化泵线程异常终止: ",
            wait_failed: "剪贴板净化 Join 阻塞任务异常终止: ",
        };
        self.pump.settle_start(&labels, handshake)
    }

    /// Settles a stop on what came of waiting for the pump thread.
    pub fn settle_stop(&mut self, joined: JoinOutcome) -> (r: Result<(), ModuleError>)
        ensures
            !final(self).pump_state().running(),
            !old(self).pump_state().running() ==> r is Ok && *final(self) == *old(self),
            old(self).pump_state().running() ==> final(self).pump_state().thread() is None,
            old(self).pump_state().running() ==> reports(r, stop_failure(Self::labels(), joined)),
    {
        let labels = PumpLabels {
            interrupted: "剪贴板净化模块启动握手被中断",
            panicked: "剪贴板净化泵线程异常终止: ",
            wait_failed: "剪贴板净化 Join 阻塞任务异常终止: ",
        };
        self.pump.settle_stop(&labels, joined)
    }
}

impl Default for ClipboardPurifierModule {
    fn default() -> (r: Self)
        ensures
            !r.pump_state().running(),
    {
        Self::new()
    }
}

impl ToolModule for ClipboardPurifierModule {
    open spec fn id_text(&self) -> Seq<char> {
        "clipboard_purifier"@
    }

    open spec fn name_text(&self) -> Seq<char> {
        "剪贴板纯文本净化"@
    }

    open spec fn description_text(&self) -> Seq<char> {
        "监听系统剪贴板，自动剥离 HTML 与富文本格式，仅保留纯文本"@
    }

    open spec fn running(&self) -> bool {
        self.pump_state().running()
    }

    open spec fn can_start(before: Self, after: Self, r: Result<(), ModuleError>) -> bool {
        r is Ok && after.pump_state().running()
    }

    open spec fn can_stop(before: Self, after: Self, r: Result<(), ModuleError>) -> bool {
        r is Ok && !after.pump_state().running()
    }

    fn id(&self) -> &'static str {
        "clipboard_purifier"
    }

    fn display_name(&self) -> &'static str {
        "剪贴板纯文本净化"
    }

    fn description(&self) -> &'static str {
        "监听系统剪贴板，自动剥离 HTML 与富文本格式，仅保留纯文本"
    }

    fn is_running(&self) -> bool {
        self.pump.is_running()
    }

    /// Starts the module without a pump, as platforms other than Windows do.
    fn start(&mut self) -> (r: Result<(), ModuleError>) {
        self.settle_start(PumpHandshake::Virtual)
    }

    /// Stops a module without a pump, as platforms other than Windows do.
    fn stop(&mut self) -> (r: Result<(), ModuleError>) {
        self.settle_stop(JoinOutcome::Exited)
    }
}

// ---------------------------------------------------------------------------
// Laws of a whole reduction
// ---------------------------------------------------------------------------

/// A clipboard is reduced where it holds plain text with HTML, with rich text or with both;
/// plain text alone is left as it is, and so is a clipboard without plain text.
pub proof fn law_either_rich_format_is_reduced(any: bool)
    ensures
        holds_both(true, true, any),
        holds_both(true, any, true),
        !holds_both(true, false, false),
        !holds_both(false, any, true),
        !holds_both(false, true, any),
        next_step(
            PurgeStep::Inspect,
            PurgeEvent::Formats { text: true, html: true, rich_text: any },
        ) is Read,
        next_step(
            PurgeStep::Inspect,
            PurgeEvent::Formats { text: true, html: any, rich_text: true },
        ) is Read,
        next_step(
            PurgeStep::Inspect,
            PurgeEvent::Formats { text: true, html: false, rich_text: false },
        ) == (PurgeStep::Close { rewritten: false }),
        next_step(
            PurgeStep::Inspect,
            PurgeEvent::Formats { text: false, html: any, rich_text: true },
        ) == (PurgeStep::Close { rewritten: false }),
        next_step(
            PurgeStep::Inspect,
            PurgeEvent::Formats { text: false, html: true, rich_text: any },
        ) == (PurgeStep::Close { rewritten: false }),
        next_step(
            PurgeStep::Inspect,
            PurgeEvent::Formats { text: false, html: false, rich_text: any },
        ) == (PurgeStep::Close { rewritten: false }),
{
}

/// The text of a block ends before its first zero; without one the whole block is text.
pub proof fn law_text_ends_at_the_first_zero(text: Seq<u16>, rest: Seq<u16>)
    requires
        forall|i: int| 0 <= i < text.len() ==> text[i] != 0,
    ensures
        until_nul(text) == text,
        until_nul(text + seq![0u16] + rest) == text,
        replacement(text + seq![0u16] + rest) == text + seq![0u16],
{
    lemma_until_nul(text, text.len() as int);
    assert(text.take(text.len() as int) =~= text);
    let view = text + seq![0u16] + rest;
    lemma_until_nul(view, text.len() as int);
    assert(view.take(text.len() as int) =~= text);
    assert(text.push(0) =~= text + seq![0u16]);
}

/// The steps that `events` lead to from `step`.
pub open spec fn step_from(step: PurgeStep, events: Seq<PurgeEvent>) -> PurgeStep
    decreases events.len(),
{
    if events.len() == 0 {
        step
    } else {
        step_from(next_step(step, events[0]), events.drop_first())
    }
}

proof fn lemma_step_from(step: PurgeStep, a: Seq<PurgeEvent>, b: Seq<PurgeEvent>)
    ensures
        step_from(step, a + b) == step_from(step_from(step, a), b),
    decreases a.len(),
{
    if a.len() == 0 {
        assert(a + b =~= b);
    } else {
        assert((a + b).drop_first() =~= a.drop_first() + b);
        assert((a + b)[0] == a[0]);
        lemma_step_from(next_step(step, a[0]), a.drop_first(), b);
    }
}

proof fn lemma_step_after(events: Seq<PurgeEvent>)
    ensures
        step_after(events) == step_from(PurgeStep::Open { attempt: 0 }, events),
    decreases events.len(),
{
    if events.len() > 0 {
        let front = events.drop_last();
        let last = seq![events.last()];
        lemma_step_after(front);
        lemma_step_from(PurgeStep::Open { attempt: 0 }, front, last);
        assert(front + last =~= events);
        assert(last.drop_first() =~= Seq::<PurgeEvent>::empty());
        reveal_with_fuel(step_from, 2);
    }
}

/// So many attempts to open the clipboard that failed, each with the wait after it.
pub open spec fn failed_attempts(count: nat) -> Seq<PurgeEvent>
    decreases count,
{
    if count == 0 {
        Seq::empty()
    } else {
        failed_attempts((count - 1) as nat) + seq![PurgeEvent::Opened(false), PurgeEvent::Waited]
    }
}

proof fn lemma_failed_attempts(count: nat)
    requires
        count <= 4,
    ensures
        step_after(failed_attempts(count)) == (PurgeStep::Open { attempt: count as usize }),
    decreases count,
{
    reveal_with_fuel(step_from, 3);
    if count > 0 {
        let before = (count - 1) as nat;
        let more = seq![PurgeEvent::Opened(false), PurgeEvent::Waited];
        lemma_failed_attempts(before);
        lemma_step_after(failed_attempts(before));
        lemma_step_after(failed_attempts(count));
        lemma_step_from(PurgeStep::Open { attempt: 0 }, failed_attempts(before), more);
        assert(more.drop_first() =~= seq![PurgeEvent::Waited]);
        assert(more.drop_first().drop_first() =~= Seq::<PurgeEvent>::empty());
    }
}

/// Opening the clipboard is tried five times: after four failures at most it goes on where
/// the next attempt succeeds, and after the fifth failure the clipboard is left as it is.
pub proof fn law_opening_is_tried_five_times(failures: nat)
    requires
        failures <= 4,
    ensures
        step_after(failed_attempts(failures).push(PurgeEvent::Opened(true))) is Inspect,
        step_after(failed_attempts(4).push(PurgeEvent::Opened(false))) == (PurgeStep::Done {
            rewritten: false,
        }),
        failures < 4 ==> step_after(failed_attempts(failures).push(PurgeEvent::Opened(false)))
            is Wait,
{
    lemma_failed_attempts(failures);
    lemma_failed_attempts(4);
    assert(failed_attempts(failures).push(PurgeEvent::Opened(true)).drop_last()
        =~= failed_attempts(failures));
    assert(failed_attempts(failures).push(PurgeEvent::Opened(false)).drop_last()
        =~= failed_attempts(failures));
    assert(failed_attempts(4).push(PurgeEvent::Opened(false)).drop_last() =~= failed_attempts(4));
}

/// A copy that carries plain text and rich text in either form is reduced to its text: once
/// the clipboard opens, at the fifth attempt at the latest, and every further step
/// succeeds, the reduction ends with a rewrite. It is the same for every text that is not
/// empty.
pub proof fn law_rich_copy_is_rewritten(
    failures: nat,
    html: bool,
    rich_text: bool,
    view: Vec<u16>,
)
    requires
        failures <= 4,
        html || rich_text,
        view@.len() > 0,
        view@[0] != 0,
        2 * (view@.len() + 1) <= usize::MAX,
    ensures
        step_after(
            failed_attempts(failures) + seq![
                PurgeEvent::Opened(true),
                PurgeEvent::Formats { text: true, html, rich_text },
                PurgeEvent::Text(Some(view)),
                PurgeEvent::Allocated(true),
                PurgeEvent::Filled(true),
                PurgeEvent::Emptied(true),
                PurgeEvent::Stored(true),
                PurgeEvent::Closed,
            ],
        ) == (PurgeStep::Done { rewritten: true }),
{
    let rest = seq![
        PurgeEvent::Opened(true),
        PurgeEvent::Formats { text: true, html, rich_text },
        PurgeEvent::Text(Some(view)),
        PurgeEvent::Allocated(true),
        PurgeEvent::Filled(true),
        PurgeEvent::Emptied(true),
        PurgeEvent::Stored(true),
        PurgeEvent::Closed,
    ];
    lemma_failed_attempts(failures);
    lemma_step_after(failed_attempts(failures));
    lemma_step_after(failed_attempts(failures) + rest);
    lemma_step_from(PurgeStep::Open { attempt: 0 }, failed_attempts(failures), rest);
    lemma_text_is_no_longer(view@);
    let start = PurgeStep::Open { attempt: failures as usize };
    let s1 = next_step(start, rest[0]);
    assert(s1 is Inspect);
    let s2 = next_step(s1, rest[1]);
    assert(s2 is Read);
    let s3 = next_step(s2, rest[2]);
    assert(s3 is Allocate);
    let s4 = next_step(s3, rest[3]);
    let s5 = next_step(s4, rest[4]);
    let s6 = next_step(s5, rest[5]);
    let s7 = next_step(s6, rest[6]);
    let s8 = next_step(s7, rest[7]);
    assert(s8 == (PurgeStep::Done { rewritten: true }));
    let r1 = rest.drop_first();
    let r2 = r1.drop_first();
    let r3 = r2.drop_first();
    let r4 = r3.drop_first();
    let r5 = r4.drop_first();
    let r6 = r5.drop_first();
    let r7 = r6.drop_first();
    let r8 = r7.drop_first();
    assert(r1[0] == rest[1] && r2[0] == rest[2] && r3[0] == rest[3] && r4[0] == rest[4]);
    assert(r5[0] == rest[5] && r6[0] == rest[6] && r7[0] == rest[7] && r8.len() == 0);
    assert(step_from(s8, r8) == s8);
    assert(step_from(s7, r7) == s8);
    assert(step_from(s6, r6) == s8);
    assert(step_from(s5, r5) == s8);
    assert(step_from(s4, r4) == s8);
    assert(step_from(s3, r3) == s8);
    assert(step_from(s2, r2) == s8);
    assert(step_from(s1, r1) == s8);
    assert(step_from(start, rest) == s8);
}

proof fn lemma_text_is_no_longer(view: Seq<u16>)
    ensures
        until_nul(view).len() <= view.len(),
        view.len() > 0 && view[0] != 0 ==> until_nul(view).len() > 0,
    decreases view.len(),
{
    if view.len() > 0 {
        lemma_text_is_no_longer(view.drop_first());
    }
}

/// A step that fails leaves the clipboard without a rewrite: what was allocated is freed
/// and the clipboard is closed. A block that could not be read, or that has no text, is
/// left alone.
pub proof fn law_failure_rewrites_nothing(bytes: usize, view: Vec<u16>)
    ensures
        next_step(PurgeStep::Read, PurgeEvent::Text(None)) == (PurgeStep::Close {
            rewritten: false,
        }),
        view@.len() == 0 || view@[0] == 0 ==> next_step(
            PurgeStep::Read,
            PurgeEvent::Text(Some(view)),
        ) == (PurgeStep::Close { rewritten: false }),
        next_step(PurgeStep::Allocate { bytes }, PurgeEvent::Allocated(false)) == (
        PurgeStep::Close { rewritten: false }),
        next_step(PurgeStep::Fill, PurgeEvent::Filled(false)) is Release,
        next_step(PurgeStep::Empty, PurgeEvent::Emptied(false)) is Release,
        next_step(PurgeStep::Store, PurgeEvent::Stored(false)) is Release,
        next_step(PurgeStep::Release, PurgeEvent::Released) == (PurgeStep::Close {
            rewritten: false,
        }),
{
}

/// The waits between the attempts start at fifteen milliseconds and double; after the
/// fifth attempt there is none.
pub proof fn law_waits_double(i: int)
    ensures
        backoff_ms(0) == Some(15u64),
        0 <= i < 3 ==> backoff_ms(i) is Some && backoff_ms(i + 1) is Some && backoff_ms(i + 1)->0
            == 2 * backoff_ms(i)->0,
        i >= 4 ==> backoff_ms(i) is None,
{
}

/// The thread ends on the message that asks for it and on no other, reduces on updates
/// alone, and lets pass what is neither.
pub proof fn law_messages_of_the_thread(armed: bool, message: u32)
    ensures
        action_on(armed, message) is Quit <==> message == 0x0012,
        action_on(armed, message) is Reduce <==> message == 0x031D && !armed,
        message == 0x031D ==> !armed_on(armed, message),
        message != 0x031D ==> armed_on(armed, message) == armed,
{
}

/// A start leaves the module running and a stop leaves it stopped; neither fails.
pub proof fn law_start_runs_and_stop_ends(
    before: ClipboardPurifierModule,
    after: ClipboardPurifierModule,
    r: Result<(), ModuleError>,
)
    ensures
        ClipboardPurifierModule::can_start(before, after, r) ==> r is Ok && after.running(),
        ClipboardPurifierModule::can_stop(before, after, r) ==> r is Ok && !after.running(),
{
}

} // verus!
