//! The popup blocker: closes windows whose title or class name holds a keyword of
//! the blacklist, and keeps a record of what was captured of them.

use crate::modules::pump::{
    reports, runs_after, start_failure, stop_failure, thread_by, JoinOutcome, Pump, PumpHandshake,
    PumpLabels,
};
use crate::modules::{ModuleError, ToolModule};
use crate::paths::{self, kept_in};
use crate::text::{
    blank, contains, decimal_of_padded, decimal_padded, has_substring, is_digit,
    law_found_part_is_there, law_part_is_found, law_trimmed_is_the_middle, lemma_padded_digits,
    lemma_trimmed_twice, lowercase, same_text, to_lowercase, trim, trimmed, white_space,
};
use std::collections::VecDeque;
use std::sync::Arc;
use tokio::sync::watch;
use vstd::prelude::*;

verus! {

// ---------------------------------------------------------------------------
// Rules
// ---------------------------------------------------------------------------

/// One keyword of the blacklist.
#[derive(Debug, PartialEq, Eq)]
pub struct CompiledPattern {
    /// The keyword without white space around it.
    raw: String,
    /// The keyword in lower case.
    needle: String,
}

/// Whether `keywords` has one that is `keyword` but for its case.
pub open spec fn has_keyword(keywords: Seq<Seq<char>>, keyword: Seq<char>) -> bool {
    exists|k: int|
        0 <= k < keywords.len() && lowercase(#[trigger] keywords[k]) == lowercase(keyword)
}

/// The keywords that a list of rules stands for: without white space around them,
/// without blank ones, and of several that differ in case the first.
pub open spec fn compiled(rules: Seq<String>) -> Seq<Seq<char>>
    decreases rules.len(),
{
    if rules.len() == 0 {
        Seq::empty()
    } else {
        let earlier = compiled(rules.drop_last());
        let keyword = trimmed(rules.last()@);
        if keyword.len() == 0 || has_keyword(earlier, keyword) {
            earlier
        } else {
            earlier.push(keyword)
        }
    }
}

/// Whether a window with this title and class name, both in lower case, holds one of
/// the keywords.
pub open spec fn lowered_window_matches(
    keywords: Seq<Seq<char>>,
    lower_title: Seq<char>,
    lower_class: Seq<char>,
) -> bool {
    exists|k: int|
        0 <= k < keywords.len() && (has_substring(lower_title, lowercase(#[trigger] keywords[k]))
            || has_substring(lower_class, lowercase(keywords[k])))
}

/// Whether a window's title or class name holds one of the keywords, in any case.
pub open spec fn window_matches(
    keywords: Seq<Seq<char>>,
    title: Seq<char>,
    class_name: Seq<char>,
) -> bool {
    lowered_window_matches(keywords, lowercase(title), lowercase(class_name))
}

/// A compiled blacklist.
#[derive(Debug, PartialEq, Eq)]
pub struct RuleSet {
    patterns: Vec<CompiledPattern>,
}

impl RuleSet {
    /// The needle of every pattern is its keyword in lower case.
    #[verifier::type_invariant]
    spec fn needles_fit(&self) -> bool {
        forall|i: int|
            0 <= i < self.patterns@.len() ==> (#[trigger] self.patterns@[i]).needle@ == lowercase(
                self.patterns@[i].raw@,
            )
    }

    /// The keywords, in order.
    pub closed spec fn keywords(&self) -> Seq<Seq<char>> {
        Seq::new(self.patterns@.len(), |i: int| self.patterns@[i].raw@)
    }

    /// Compiles a list of rules.
    pub fn compile(rules: &[String]) -> (r: RuleSet)
        ensures
            r.keywords() == compiled(rules@),
    {
        let mut patterns: Vec<CompiledPattern> = Vec::new();
        let mut i: usize = 0;
        while i < rules.len()
            invariant
                i <= rules@.len(),
                forall|k: int|
                    0 <= k < patterns@.len() ==> (#[trigger] patterns@[k]).needle@ == lowercase(
                        patterns@[k].raw@,
                    ),
                Seq::new(patterns@.len(), |k: int| patterns@[k].raw@) == compiled(
                    rules@.take(i as int),
                ),
            decreases rules@.len() - i,
        {
            let ghost before = compiled(rules@.take(i as int));
            proof {
                assert(rules@.take(i + 1).drop_last() =~= rules@.take(i as int));
                assert(rules@.take(i + 1).last() == rules@[i as int]);
                assert forall|k: int| 0 <= k < patterns@.len() implies #[trigger] patterns@[k].raw@
                    == before[k] by {}
            }
            let raw = trim(rules[i].as_str());
            if !raw.as_str().is_empty() {
                let needle = to_lowercase(raw.as_str());
                let mut known = false;
                let mut k: usize = 0;
                while k < patterns.len()
                    invariant
                        k <= patterns@.len(),
                        needle@ == lowercase(raw@),
                        before.len() == patterns@.len(),
                        forall|j: int|
                            0 <= j < patterns@.len() ==> #[trigger] patterns@[j].raw@ == before[j],
                        forall|j: int|
                            0 <= j < patterns@.len() ==> (#[trigger] patterns@[j]).needle@
                                == lowercase(patterns@[j].raw@),
                        known == (exists|j: int|
                            0 <= j < k && lowercase(#[trigger] before[j]) == lowercase(raw@)),
                    decreases patterns@.len() - k,
                {
                    let same = same_text(patterns[k].needle.as_str(), needle.as_str());
                    assert(patterns@[k as int].raw@ == before[k as int]);
                    if same {
                        known = true;
                    }
                    k = k + 1;
                }
                assert(known == has_keyword(before, raw@));
                if !known {
                    patterns.push(CompiledPattern { raw, needle });
                    assert(Seq::new(patterns@.len(), |k: int| patterns@[k].raw@) =~= before.push(
                        raw@,
                    ));
                }
            }
            i = i + 1;
        }
        assert(rules@.take(i as int) =~= rules@);
        RuleSet { patterns }
    }

    /// Whether there is no keyword.
    pub fn is_empty(&self) -> (r: bool)
        ensures
            r == (self.keywords().len() == 0),
    {
        self.patterns.len() == 0
    }

    /// The keywords, in order.
    pub fn raw_keywords(&self) -> (r: Vec<String>)
        ensures
            r@.len() == self.keywords().len(),
            forall|i: int| 0 <= i < r@.len() ==> (#[trigger] r@[i])@ == self.keywords()[i],
    {
        let mut r: Vec<String> = Vec::new();
        let mut i: usize = 0;
        while i < self.patterns.len()
            invariant
                i <= self.patterns@.len(),
                r@.len() == i,
                forall|k: int| 0 <= k < i ==> (#[trigger] r@[k])@ == self.keywords()[k],
            decreases self.patterns@.len() - i,
        {
            r.push(self.patterns[i].raw.clone());
            i = i + 1;
        }
        r
    }

    /// Whether a window with this title and class name, both in lower case, holds one
    /// of the keywords.
    pub fn matches_lowered(&self, lower_title: &str, lower_class: &str) -> (r: bool)
        ensures
            r == lowered_window_matches(self.keywords(), lower_title@, lower_class@),
    {
        proof {
            use_type_invariant(self);
        }
        let mut i: usize = 0;
        while i < self.patterns.len()
            invariant
                i <= self.patterns@.len(),
                self.needles_fit(),
                forall|k: int|
                    0 <= k < i ==> !has_substring(
                        lower_title@,
                        lowercase(#[trigger] self.keywords()[k]),
                    ) && !has_substring(lower_class@, lowercase(self.keywords()[k])),
            decreases self.patterns@.len() - i,
        {
            let pattern = &self.patterns[i];
            assert(self.keywords()[i as int] == pattern.raw@);
            if contains(lower_title, pattern.needle.as_str()) || contains(
                lower_class,
                pattern.needle.as_str(),
            ) {
                return true;
            }
            i = i + 1;
        }
        false
    }

    /// Whether a window's title or class name holds one of the keywords, in any case.
    pub fn matches(&self, title: &str, class_name: &str) -> (r: bool)
        ensures
            r == window_matches(self.keywords(), title@, class_name@),
    {
        if self.is_empty() {
            return false;
        }
        let lower_title = to_lowercase(title);
        let lower_class = to_lowercase(class_name);
        self.matches_lowered(lower_title.as_str(), lower_class.as_str())
    }
}

impl Default for RuleSet {
    fn default() -> (r: Self)
        ensures
            r.keywords() == Seq::<Seq<char>>::empty(),
    {
        let r = RuleSet { patterns: Vec::new() };
        assert(r.keywords() =~= Seq::<Seq<char>>::empty());
        r
    }
}

/// `Arc::clone`: another pointer to the same value.
#[verifier::external_body]
fn share(rules: &Arc<RuleSet>) -> (r: Arc<RuleSet>)
    ensures
        r == *rules,
{
    Arc::clone(rules)
}

/// The blacklist in force. A snapshot that was taken stays what it was when the
/// blacklist is replaced.
#[derive(Debug)]
pub struct RuleStore {
    current: Arc<RuleSet>,
}

impl RuleStore {
    /// The keywords in force.
    pub closed spec fn keywords(&self) -> Seq<Seq<char>> {
        self.current.keywords()
    }

    /// A store with the given rules in force.
    pub fn new(rules: &[String]) -> (r: Self)
        ensures
            r.keywords() == compiled(rules@),
    {
        RuleStore { current: Arc::new(RuleSet::compile(rules)) }
    }

    /// Replaces the rules in force.
    pub fn set(&mut self, rules: &[String])
        ensures
            final(self).keywords() == compiled(rules@),
    {
        self.current = Arc::new(RuleSet::compile(rules));
    }

    /// The rules in force.
    pub fn snapshot(&self) -> (r: Arc<RuleSet>)
        ensures
            r.keywords() == self.keywords(),
    {
        share(&self.current)
    }
}

// ---------------------------------------------------------------------------
// Window events
// ---------------------------------------------------------------------------

/// The event of a window that was created.
pub const EVENT_OBJECT_CREATE: u32 = 0x8000;

/// Whether a window event is the creation of a window itself: not of a part of it,
/// and with a handle.
pub open spec fn window_created(event: u32, hwnd: u64, id_object: i32, id_child: i32) -> bool {
    event == EVENT_OBJECT_CREATE && hwnd != 0 && id_object == 0 && id_child == 0
}

/// Whether a window event is the creation of a window itself: not of a part of it,
/// and with a handle.
pub fn is_window_creation(event: u32, hwnd: u64, id_object: i32, id_child: i32) -> (r: bool)
    ensures
        r == window_created(event, hwnd, id_object, id_child),
{
    event == EVENT_OBJECT_CREATE && hwnd != 0 && id_object == 0 && id_child == 0
}

/// What is done with a window.
#[derive(Debug, Clone, Copy, PartialEq, Eq, Structural)]
pub enum WindowAction {
    Ignore,
    Close,
    /// Hand the window to the capture thread, then close it.
    CaptureAndClose,
}

/// What is done with a new window: it is closed if it matches, after a capture where
/// those are kept.
pub open spec fn window_action(
    keywords: Seq<Seq<char>>,
    title: Seq<char>,
    class_name: Seq<char>,
    captures: bool,
) -> WindowAction {
    if !window_matches(keywords, title, class_name) {
        WindowAction::Ignore
    } else if captures {
        WindowAction::CaptureAndClose
    } else {
        WindowAction::Close
    }
}

/// What is done with a new window.
pub fn decide_window(rules: &RuleSet, title: &str, class_name: &str, captures: bool) -> (r:
    WindowAction)
    ensures
        r == window_action(rules.keywords(), title@, class_name@, captures),
{
    if !rules.matches(title, class_name) {
        return WindowAction::Ignore;
    }
    if captures {
        WindowAction::CaptureAndClose
    } else {
        WindowAction::Close
    }
}

/// What the watching thread reports to the module after it installed its hook; a handle
/// of zero is none.
pub fn hook_handshake(hook: u64, thread_id: u32) -> (r: PumpHandshake)
    ensures
        if hook != 0 {
            r == PumpHandshake::Ready(thread_id)
        } else {
            r matches PumpHandshake::Failed(text) && text@
                == "SetWinEventHook 安装失败：句柄为空（可能缺少必要权限或处于无桌面会话）"@
        },
{
    if hook != 0 {
        return PumpHandshake::Ready(thread_id);
    }
    PumpHandshake::Failed(
        "SetWinEventHook 安装失败：句柄为空（可能缺少必要权限或处于无桌面会话）".to_owned(),
    )
}

// ---------------------------------------------------------------------------
// Captures
// ---------------------------------------------------------------------------

/// How many captures are kept in the list.
pub const MAX_CAPTURE_RECORDS: usize = 50;

/// What is kept of a window that was closed.
#[derive(Debug, PartialEq, Eq)]
pub struct CaptureRecord {
    pub file_name: String,
    pub title: String,
    pub class_name: String,
    /// When it was captured, in local time.
    pub captured_at: String,
    /// The full path of the picture.
    pub path: String,
}

impl Clone for CaptureRecord {
    fn clone(&self) -> (r: Self)
        ensures
            r == *self,
    {
        CaptureRecord {
            file_name: self.file_name.clone(),
            title: self.title.clone(),
            class_name: self.class_name.clone(),
            captured_at: self.captured_at.clone(),
            path: self.path.clone(),
        }
    }
}

/// The file name of the capture with this number at the moment `stamp`.
pub open spec fn capture_name(stamp: Seq<char>, number: u64) -> Seq<char> {
    "popup_"@ + stamp + "_"@ + decimal_padded(number as nat, 6) + ".png"@
}

/// The list after one more capture: it comes first, and the oldest one beyond the
/// limit goes.
pub open spec fn with_capture(records: Seq<CaptureRecord>, record: CaptureRecord) -> Seq<
    CaptureRecord,
> {
    let all = seq![record] + records;
    if all.len() > MAX_CAPTURE_RECORDS {
        all.take(MAX_CAPTURE_RECORDS as int)
    } else {
        all
    }
}

/// The list after the captures `new`, the first of them the earliest.
pub open spec fn with_captures(records: Seq<CaptureRecord>, new: Seq<CaptureRecord>) -> Seq<
    CaptureRecord,
>
    decreases new.len(),
{
    if new.len() == 0 {
        records
    } else {
        with_capture(with_captures(records, new.drop_last()), new.last())
    }
}

/// The list after a job to capture a window, which succeeded or not.
pub open spec fn after_job(
    records: Seq<CaptureRecord>,
    record: CaptureRecord,
    captured: bool,
) -> Seq<CaptureRecord> {
    if captured {
        with_capture(records, record)
    } else {
        records
    }
}

/// The list after the jobs, each with whether it succeeded, the first of them the
/// earliest.
pub open spec fn after_jobs(
    records: Seq<CaptureRecord>,
    jobs: Seq<(CaptureRecord, bool)>,
) -> Seq<CaptureRecord>
    decreases jobs.len(),
{
    if jobs.len() == 0 {
        records
    } else {
        after_job(after_jobs(records, jobs.drop_last()), jobs.last().0, jobs.last().1)
    }
}

/// The captures that the jobs brought, the first of them the earliest.
pub open spec fn captured_by(jobs: Seq<(CaptureRecord, bool)>) -> Seq<CaptureRecord>
    decreases jobs.len(),
{
    if jobs.len() == 0 {
        Seq::empty()
    } else if jobs.last().1 {
        captured_by(jobs.drop_last()).push(jobs.last().0)
    } else {
        captured_by(jobs.drop_last())
    }
}

/// The number after this one; after the largest they start again.
pub open spec fn following(number: u64) -> u64 {
    if number == u64::MAX {
        0
    } else {
        (number + 1) as u64
    }
}

/// The number that is used when `count` have been used since `first`.
pub open spec fn number_used(first: u64, count: nat) -> u64
    decreases count,
{
    if count == 0 {
        first
    } else {
        following(number_used(first, (count - 1) as nat))
    }
}

/// `tokio::sync::watch::Sender`, the sending half of a channel that holds one value.
#[verifier::external_type_specification]
#[verifier::external_body]
#[verifier::reject_recursive_types(T)]
pub struct ExWatchSender<T>(watch::Sender<T>);

/// `tokio::sync::watch::Receiver`, a view of the value in such a channel.
#[verifier::external_type_specification]
#[verifier::external_body]
#[verifier::reject_recursive_types(T)]
pub struct ExWatchReceiver<T>(watch::Receiver<T>);

/// The values that the channel of a `tokio::sync::watch::Sender` holds in all its life.
pub uninterp spec fn announced(sender: watch::Sender<u64>) -> Set<u64>;

/// The values that the channel of a `tokio::sync::watch::Receiver` holds in all its life.
pub uninterp spec fn watched(receiver: watch::Receiver<u64>) -> Set<u64>;

/// `tokio::sync::watch::channel`: a new channel that holds `version`. Nothing is claimed
/// of its first view.
#[verifier::external_body]
fn open_versions(version: u64) -> (r: (watch::Sender<u64>, watch::Receiver<u64>))
    ensures
        announced(r.0).contains(version),
{
    watch::channel(version)
}

/// `tokio::sync::watch::channel`, of which only the view is kept: with the sending half
/// gone, the channel holds `version` and never anything else.
#[verifier::external_body]
fn lone_version(version: u64) -> (r: watch::Receiver<u64>)
    ensures
        watched(r) == set![version],
{
    watch::channel(version).1
}

/// `tokio::sync::watch::Sender::send_replace`: puts `version` into the channel and wakes
/// whoever waits for a change, and gives back what was in it. The channel holds the one
/// and then the other.
#[verifier::external_body]
fn announce_version(sender: &watch::Sender<u64>, version: u64) -> (r: u64)
    ensures
        set![r, version].subset_of(announced(*sender)),
{
    sender.send_replace(version)
}

/// `tokio::sync::watch::Sender::subscribe`: a view of this very channel, which is told of
/// changes from now on. What it shows is decided by when it is looked at, and nothing is
/// claimed of that.
#[verifier::external_body]
fn watch_versions(sender: &watch::Sender<u64>) -> (r: watch::Receiver<u64>)
    ensures
        watched(r) == announced(*sender),
{
    sender.subscribe()
}

/// The captures of a module. They stay when it is stopped and started again.
pub struct ScreenshotState {
    dir: String,
    seq: u64,
    records: VecDeque<CaptureRecord>,
    version: u64,
    /// Where the version is announced.
    announcements: watch::Sender<u64>,
}

impl ScreenshotState {
    /// The list never exceeds its limit, and the version has been announced.
    #[verifier::type_invariant]
    spec fn well_formed(&self) -> bool {
        &&& self.records@.len() <= MAX_CAPTURE_RECORDS
        &&& announced(self.announcements).contains(self.version)
    }

    /// The channel over which the version is announced.
    pub closed spec fn channel(&self) -> watch::Sender<u64> {
        self.announcements
    }

    /// The directory of the pictures.
    pub closed spec fn dir_text(&self) -> Seq<char> {
        self.dir@
    }

    /// The number of the next capture.
    pub closed spec fn next_number(&self) -> u64 {
        self.seq
    }

    /// The captures, the newest first.
    pub closed spec fn list(&self) -> Seq<CaptureRecord> {
        self.records@
    }

    /// How often the list has changed.
    pub closed spec fn changes(&self) -> u64 {
        self.version
    }

    /// No captures yet, with pictures to go into `dir`.
    pub fn new(dir: String) -> (r: Self)
        ensures
            r.dir_text() == dir@,
            r.next_number() == 0,
            r.list() == Seq::<CaptureRecord>::empty(),
            r.changes() == 0,
    {
        let (announcements, _first) = open_versions(0);
        ScreenshotState { dir, seq: 0, records: VecDeque::new(), version: 0, announcements }
    }

    /// The directory of the pictures.
    pub fn dir(&self) -> (r: &str)
        ensures
            r@ == self.dir_text(),
    {
        self.dir.as_str()
    }

    /// How often the list has changed.
    pub fn version(&self) -> (r: u64)
        ensures
            r == self.changes(),
    {
        self.version
    }

    /// A view of how often the list has changed, which is told of every change from now
    /// on: of the channel over which that is announced, and has been.
    pub fn subscribe(&self) -> (r: watch::Receiver<u64>)
        ensures
            watched(r) == announced(self.channel()),
            watched(r).contains(self.changes()),
    {
        proof {
            use_type_invariant(self);
        }
        watch_versions(&self.announcements)
    }

    /// The file name for the next capture, which uses up its number.
    pub fn next_file_name(&mut self, stamp: &str) -> (r: String)
        ensures
            r@ == capture_name(stamp@, old(self).next_number()),
            final(self).next_number() == following(old(self).next_number()),
            final(self).list() == old(self).list(),
            final(self).changes() == old(self).changes(),
            final(self).dir_text() == old(self).dir_text(),
            final(self).channel() == old(self).channel(),
    {
        proof {
            use_type_invariant(&*self);
        }
        let number: u64 = self.seq;
        self.seq = number.wrapping_add(1);
        let mut r = "popup_".to_owned();
        r.append(stamp);
        r.append("_");
        r.append(decimal_of_padded(number, 6).as_str());
        r.append(".png");
        r
    }

    /// Keeps the record of a capture and announces the change.
    pub fn record(&mut self, record: CaptureRecord)
        ensures
            final(self).list() == with_capture(old(self).list(), record),
            final(self).changes() == following(old(self).changes()),
            final(self).next_number() == old(self).next_number(),
            final(self).dir_text() == old(self).dir_text(),
            final(self).channel() == old(self).channel(),
    {
        let mut records = VecDeque::new();
        proof {
            use_type_invariant(&*self);
        }
        std::mem::swap(&mut records, &mut self.records);
        records.push_front(record);
        records.truncate(MAX_CAPTURE_RECORDS);
        assert(records@ =~= with_capture(old(self).list(), record));
        self.records = records;
        let version: u64 = self.version.wrapping_add(1);
        let previous: u64 = announce_version(&self.announcements, version);
        assert(set![previous, version].contains(version));
        self.version = version;
    }

    /// Where the picture with this file name goes.
    pub fn picture_path(&self, file_name: &str) -> (r: String)
        ensures
            kept_in(self.dir_text(), file_name@, r@),
    {
        paths::join(self.dir.as_str(), file_name)
    }

    /// Settles a job to capture a window: its record is kept and announced where the
    /// picture was taken, with the path that [`ScreenshotState::picture_path`] gives, and
    /// nothing changes where it was not.
    pub fn settle_capture(
        &mut self,
        file_name: String,
        title: String,
        class_name: String,
        captured_at: String,
        captured: bool,
    )
        ensures
            exists|path: String| #[trigger]
                kept_in(old(self).dir_text(), file_name@, path@) && final(self).list()
                    == after_job(
                    old(self).list(),
                    (CaptureRecord { file_name, title, class_name, captured_at, path }),
                    captured,
                ),
            captured ==> final(self).changes() == following(old(self).changes()),
            !captured ==> *final(self) == *old(self),
            final(self).next_number() == old(self).next_number(),
            final(self).dir_text() == old(self).dir_text(),
            final(self).channel() == old(self).channel(),
    {
        let path = self.picture_path(file_name.as_str());
        assert(kept_in(old(self).dir_text(), file_name@, path@));
        if captured {
            self.record(CaptureRecord { file_name, title, class_name, captured_at, path });
        }
    }

    /// The captures, the newest first.
    pub fn snapshot(&self) -> (r: Vec<CaptureRecord>)
        ensures
            r@ == self.list(),
            r@.len() <= MAX_CAPTURE_RECORDS,
    {
        proof {
            use_type_invariant(self);
        }
        let mut r: Vec<CaptureRecord> = Vec::new();
        let mut i: usize = 0;
        while i < self.records.len()
            invariant
                i <= self.records@.len(),
                r@ == self.records@.take(i as int),
            decreases self.records@.len() - i,
        {
            r.push(self.records[i].clone());
            i = i + 1;
            assert(self.records@.take(i as int) =~= self.records@.take(i - 1).push(
                self.records@[i - 1],
            ));
        }
        assert(self.records@.take(i as int) =~= self.records@);
        r
    }
}

// ---------------------------------------------------------------------------
// The module
// ---------------------------------------------------------------------------

/// The popup blocker.
pub struct PopupBlockerModule {
    pump: Pump,
    rules: RuleStore,
    screenshots: Option<ScreenshotState>,
}

impl PopupBlockerModule {
    /// The keywords in force.
    pub closed spec fn keywords(&self) -> Seq<Seq<char>> {
        self.rules.keywords()
    }

    /// The captures, where they are kept.
    pub closed spec fn capture_state(&self) -> Option<ScreenshotState> {
        self.screenshots
    }

    /// The pump of the module.
    pub closed spec fn pump_state(&self) -> Pump {
        self.pump
    }

    /// A stopped module that blocks nothing.
    pub fn new() -> (r: Self)
        ensures
            r.keywords() == Seq::<Seq<char>>::empty(),
            r.capture_state() is None,
            !r.pump_state().running(),
    {
        let rules: Vec<String> = Vec::new();
        Self::with_rules(rules.as_slice())
    }

    /// A stopped module with the given rules, which keeps no captures.
    pub fn with_rules(rules: &[String]) -> (r: Self)
        ensures
            r.keywords() == compiled(rules@),
            r.capture_state() is None,
            !r.pump_state().running(),
    {
        Self::with_rules_and_screenshot_dir(rules, None)
    }

    /// A stopped module with the given rules, which keeps captures where a directory
    /// for them is given.
    pub fn with_rules_and_screenshot_dir(rules: &[String], screenshot_dir: Option<String>) -> (r:
        Self)
        ensures
            r.keywords() == compiled(rules@),
            !r.pump_state().running(),
            match screenshot_dir {
                Some(dir) => {
                    &&& r.capture_state() is Some
                    &&& r.capture_state()->0.dir_text() == dir@
                    &&& r.capture_state()->0.list() == Seq::<CaptureRecord>::empty()
                    &&& r.capture_state()->0.changes() == 0
                    &&& r.capture_state()->0.next_number() == 0
                },
                None => r.capture_state() is None,
            },
    {
        let screenshots = match screenshot_dir {
            Some(dir) => Some(ScreenshotState::new(dir)),
            None => None,
        };
        PopupBlockerModule { pump: Pump::stopped(), rules: RuleStore::new(rules), screenshots }
    }

    /// The captures, the newest first; none where they are not kept.
    pub fn captures(&self) -> (r: Vec<CaptureRecord>)
        ensures
            r@ == (match self.capture_state() {
                Some(state) => state.list(),
                None => Seq::empty(),
            }),
    {
        match &self.screenshots {
            Some(state) => state.snapshot(),
            None => Vec::new(),
        }
    }

    /// How often the list of captures has changed; nothing where they are not kept.
    pub fn captures_version(&self) -> (r: Option<u64>)
        ensures
            r == (match self.capture_state() {
                Some(state) => Some(state.changes()),
                None => None::<u64>,
            }),
    {
        match &self.screenshots {
            Some(state) => Some(state.version()),
            None => None,
        }
    }

    /// A view of how often the list of captures has changed, as
    /// [`ScreenshotState::subscribe`] gives it. Where captures are not kept, it shows zero
    /// and never changes.
    pub fn captures_watch(&self) -> (r: watch::Receiver<u64>)
        ensures
            match self.capture_state() {
                Some(state) => watched(r) == announced(state.channel()) && watched(r).contains(
                    state.changes(),
                ),
                None => watched(r) == set![0u64],
            },
    {
        match &self.screenshots {
            Some(state) => state.subscribe(),
            None => lone_version(0),
        }
    }

    /// The directory of the captures, where they are kept.
    pub fn screenshot_dir(&self) -> (r: Option<String>)
        ensures
            match self.capture_state() {
                Some(state) => r is Some && r->0@ == state.dir_text(),
                None => r is None,
            },
    {
        match &self.screenshots {
            Some(state) => Some(state.dir().to_owned()),
            None => None,
        }
    }

    /// The captures, for the thread that takes them.
    pub fn screenshots_mut(&mut self) -> (r: Option<&mut ScreenshotState>)
        ensures
            old(self).capture_state() is Some == (r is Some),
            r matches Some(state) ==> *state == old(self).capture_state()->0
                && final(self).capture_state() == Some(*final(state)),
            r is None ==> final(self).capture_state() is None,
            final(self).keywords() == old(self).keywords(),
            final(self).pump_state() == old(self).pump_state(),
    {
        self.screenshots.as_mut()
    }

    /// Replaces the rules. The pump goes on as it is.
    pub fn update_rules(&mut self, rules: &[String])
        ensures
            final(self).keywords() == compiled(rules@),
            final(self).pump_state() == old(self).pump_state(),
            final(self).capture_state() == old(self).capture_state(),
    {
        self.rules.set(rules);
    }

    /// The keywords in force.
    pub fn current_rules(&self) -> (r: Vec<String>)
        ensures
            r@.len() == self.keywords().len(),
            forall|i: int| 0 <= i < r@.len() ==> (#[trigger] r@[i])@ == self.keywords()[i],
    {
        self.rules.snapshot().raw_keywords()
    }

    /// The rules in force, for the thread that watches windows.
    pub fn rules(&self) -> (r: Arc<RuleSet>)
        ensures
            r.keywords() == self.keywords(),
    {
        self.rules.snapshot()
    }

    /// The pump of the module.
    pub fn pump(&self) -> (r: &Pump)
        ensures
            *r == self.pump_state(),
    {
        &self.pump
    }

    /// The texts in which failures of the pump are reported.
    pub open spec fn labels() -> PumpLabels {
        PumpLabels {
            interrupted: "弹窗拦截模块启动握手被中断",
            panicked: "弹窗拦截泵线程异常终止: ",
            wait_failed: "弹窗拦截 Join 阻塞任务异常终止: ",
        }
    }

    /// Settles a start on the report of the pump thread.
    pub fn settle_start(&mut self, handshake: PumpHandshake) -> (r: Result<(), ModuleError>)
        ensures
            old(self).pump_state().running() ==> r is Ok && *final(self) == *old(self),
            !old(self).pump_state().running() ==> reports(
                r,
                start_failure(Self::labels(), handshake),
            ),
            final(self).pump_state().running() == runs_after(
                old(self).pump_state().running(),
                handshake,
            ),
            !old(self).pump_state().running() ==> final(self).pump_state().thread() == thread_by(
                handshake,
            ),
            final(self).keywords() == old(self).keywords(),
            final(self).capture_state() == old(self).capture_state(),
    {
        let labels = PumpLabels {
            interrupted: "弹窗拦截模块启动握手被中断",
            panicked: "弹窗拦截泵线程异常终止: ",
            wait_failed: "弹窗拦截 Join 阻塞任务异常终止: ",
        };
        self.pump.settle_start(&labels, handshake)
    }

    /// Settles a stop on what came of waiting for the pump thread.
    pub fn settle_stop(&mut self, joined: JoinOutcome) -> (r: Result<(), ModuleError>)
        ensures
            !final(self).pump_state().running(),
            !old(self).pump_state().running() ==> r is Ok && *final(self) == *old(self),
            old(self).pump_state().running() ==> final(self).pump_state().thread() is None,
            old(self).pump_state().running() ==> reports(r, stop_failure(Self::labels(), joined)),
            final(self).keywords() == old(self).keywords(),
            final(self).capture_state() == old(self).capture_state(),
    {
        let labels = PumpLabels {
            interrupted: "弹窗拦截模块启动握手被中断",
            panicked: "弹窗拦截泵线程异常终止: ",
            wait_failed: "弹窗拦截 Join 阻塞任务异常终止: ",
        };
        self.pump.settle_stop(&labels, joined)
    }
}

impl Default for PopupBlockerModule {
    fn default() -> (r: Self)
        ensures
            r.keywords() == Seq::<Seq<char>>::empty(),
            r.capture_state() is None,
            !r.pump_state().running(),
    {
        Self::new()
    }
}

impl ToolModule for PopupBlockerModule {
    open spec fn id_text(&self) -> Seq<char> {
        "popup_blocker"@
    }

    open spec fn name_text(&self) -> Seq<char> {
        "桌面弹窗拦截"@
    }

    open spec fn description_text(&self) -> Seq<char> {
        "通过 Win32 原生事件钩子毫秒级拦截广告弹窗与流氓进程窗口"@
    }

    open spec fn running(&self) -> bool {
        self.pump_state().running()
    }

    open spec fn can_start(before: Self, after: Self, r: Result<(), ModuleError>) -> bool {
        &&& r is Ok
        &&& after.pump_state().running()
        &&& after.keywords() == before.keywords()
        &&& after.capture_state() == before.capture_state()
    }

    open spec fn can_stop(before: Self, after: Self, r: Result<(), ModuleError>) -> bool {
        &&& r is Ok
        &&& !after.pump_state().running()
        &&& after.keywords() == before.keywords()
        &&& after.capture_state() == before.capture_state()
    }

    fn id(&self) -> &'static str {
        "popup_blocker"
    }

    fn display_name(&self) -> &'static str {
        "桌面弹窗拦截"
    }

    fn description(&self) -> &'static str {
        "通过 Win32 原生事件钩子毫秒级拦截广告弹窗与流氓进程窗口"
    }

    fn is_running(&self) -> bool {
        self.pump.is_running()
    }

    /// Starts the module without a pump, as platforms other than Windows do.
    fn start(&mut self) -> (r: Result<(), ModuleError>) {
        self.settle_start(PumpHandshake::Virtual)
    }

    /// Stops a module without a pump, as platforms other than Windows do.
    fn stop(&mut self) -> (r: Result<(), ModuleError>) {
        self.settle_stop(JoinOutcome::Exited)
    }
}

// ---------------------------------------------------------------------------
// Laws
// ---------------------------------------------------------------------------

/// A compiled blacklist has no blank keyword, none with white space around it and no
/// two that differ in case alone.
pub proof fn law_compiled_is_normal(rules: Seq<String>)
    ensures
        compiled(rules).len() <= rules.len(),
        forall|i: int|
            0 <= i < compiled(rules).len() ==> (#[trigger] compiled(rules)[i]).len() > 0 && trimmed(
                compiled(rules)[i],
            ) == compiled(rules)[i],
        forall|i: int, j: int|
            0 <= i < j < compiled(rules).len() ==> lowercase(#[trigger] compiled(rules)[i])
                != lowercase(#[trigger] compiled(rules)[j]),
    decreases rules.len(),
{
    if rules.len() > 0 {
        law_compiled_is_normal(rules.drop_last());
        let earlier = compiled(rules.drop_last());
        let now = compiled(rules);
        lemma_trimmed_twice(rules.last()@);
        assert forall|i: int| 0 <= i < now.len() implies (#[trigger] now[i]).len() > 0 && trimmed(
            now[i],
        ) == now[i] by {
            if i < earlier.len() {
                assert(now[i] == earlier[i]);
            }
        }
        assert forall|i: int, j: int| 0 <= i < j < now.len() implies lowercase(#[trigger] now[i])
            != lowercase(#[trigger] now[j]) by {
            assert(now[i] == earlier[i]);
            if j < earlier.len() {
                assert(now[j] == earlier[j]);
            }
        }
    }
}

/// No rule is lost: the keyword of every rule that is not blank is in force, in some
/// case.
pub proof fn law_every_rule_is_in_force(rules: Seq<String>, i: int)
    requires
        0 <= i < rules.len(),
        trimmed(rules[i]@).len() > 0,
    ensures
        has_keyword(compiled(rules), trimmed(rules[i]@)),
    decreases rules.len(),
{
    let earlier = compiled(rules.drop_last());
    let now = compiled(rules);
    let keyword = trimmed(rules[i]@);
    if i < rules.len() - 1 {
        law_every_rule_is_in_force(rules.drop_last(), i);
        let k = choose|k: int|
            0 <= k < earlier.len() && lowercase(#[trigger] earlier[k]) == lowercase(keyword);
        assert(now[k] == earlier[k]);
    } else if !has_keyword(earlier, keyword) {
        assert(now[now.len() - 1] == keyword);
    }
}

/// Compiling the keywords in force again changes nothing.
pub proof fn law_compile_is_idempotent(rules: Seq<String>, again: Seq<String>)
    requires
        again.len() == compiled(rules).len(),
        forall|i: int| 0 <= i < again.len() ==> (#[trigger] again[i])@ == compiled(rules)[i],
    ensures
        compiled(again) == compiled(rules),
{
    law_compiled_is_normal(rules);
    lemma_compile_normal(again, compiled(rules));
}

proof fn lemma_compile_normal(rules: Seq<String>, keywords: Seq<Seq<char>>)
    requires
        rules.len() == keywords.len(),
        forall|i: int| 0 <= i < rules.len() ==> (#[trigger] rules[i])@ == keywords[i],
        forall|i: int|
            0 <= i < keywords.len() ==> (#[trigger] keywords[i]).len() > 0 && trimmed(keywords[i])
                == keywords[i],
        forall|i: int, j: int|
            0 <= i < j < keywords.len() ==> lowercase(#[trigger] keywords[i]) != lowercase(
                #[trigger] keywords[j],
            ),
    ensures
        compiled(rules) == keywords,
    decreases rules.len(),
{
    if rules.len() > 0 {
        let before = rules.drop_last();
        let kept = keywords.drop_last();
        assert forall|i: int| 0 <= i < before.len() implies (#[trigger] before[i])@ == kept[i] by {
            assert(rules[i]@ == keywords[i]);
        }
        assert forall|i: int, j: int| 0 <= i < j < kept.len() implies lowercase(
            #[trigger] kept[i],
        ) != lowercase(#[trigger] kept[j]) by {
            assert(lowercase(keywords[i]) != lowercase(keywords[j]));
        }
        lemma_compile_normal(before, kept);
        let last = keywords[keywords.len() - 1];
        assert(rules[rules.len() - 1]@ == last);
        assert(!has_keyword(kept, last)) by {
            if has_keyword(kept, last) {
                let k = choose|k: int|
                    0 <= k < kept.len() && lowercase(#[trigger] kept[k]) == lowercase(last);
                assert(lowercase(keywords[k]) != lowercase(keywords[keywords.len() - 1]));
            }
        }
        assert(kept.push(last) =~= keywords);
    } else {
        assert(compiled(rules) =~= keywords);
    }
}

/// Without keywords no window is touched.
pub proof fn law_empty_blacklist_blocks_nothing(
    title: Seq<char>,
    class_name: Seq<char>,
    captures: bool,
)
    ensures
        window_action(Seq::empty(), title, class_name, captures) is Ignore,
{
}

/// Whether a window is blocked does not depend on the case of its title and class
/// name.
pub proof fn law_matching_ignores_case(
    keywords: Seq<Seq<char>>,
    title: Seq<char>,
    other_title: Seq<char>,
    class_name: Seq<char>,
    other_class: Seq<char>,
)
    requires
        lowercase(title) == lowercase(other_title),
        lowercase(class_name) == lowercase(other_class),
    ensures
        window_matches(keywords, title, class_name) == window_matches(
            keywords,
            other_title,
            other_class,
        ),
{
}

/// A window that matches keeps matching when keywords are added.
pub proof fn law_more_keywords_block_more(
    keywords: Seq<Seq<char>>,
    more: Seq<Seq<char>>,
    title: Seq<char>,
    class_name: Seq<char>,
)
    requires
        window_matches(keywords, title, class_name),
    ensures
        window_matches(keywords + more, title, class_name),
        window_matches(more + keywords, title, class_name),
{
    let k = choose|k: int|
        0 <= k < keywords.len() && (has_substring(
            lowercase(title),
            lowercase(#[trigger] keywords[k]),
        ) || has_substring(lowercase(class_name), lowercase(keywords[k])));
    assert((keywords + more)[k] == keywords[k]);
    assert((more + keywords)[more.len() + k] == keywords[k]);
}

/// However many captures come, the list holds the newest of them, newest first, and then
/// what it held before, up to its limit.
pub proof fn law_newest_captures_are_kept(records: Seq<CaptureRecord>, new: Seq<CaptureRecord>)
    requires
        records.len() <= MAX_CAPTURE_RECORDS,
    ensures
        with_captures(records, new).len() == (if new.len() + records.len()
            <= MAX_CAPTURE_RECORDS {
            new.len() + records.len()
        } else {
            MAX_CAPTURE_RECORDS as nat
        }),
        forall|i: int|
            0 <= i < with_captures(records, new).len()
                ==> #[trigger] with_captures(records, new)[i] == (if i < new.len() {
                new[new.len() - 1 - i]
            } else {
                records[i - new.len()]
            }),
    decreases new.len(),
{
    if new.len() > 0 {
        let before = with_captures(records, new.drop_last());
        law_newest_captures_are_kept(records, new.drop_last());
        assert forall|i: int|
            0 <= i < with_captures(records, new).len() implies #[trigger] with_captures(
            records,
            new,
        )[i] == (if i < new.len() {
            new[new.len() - 1 - i]
        } else {
            records[i - new.len()]
        }) by {
            if i > 0 {
                assert(with_captures(records, new)[i] == before[i - 1]);
            }
        }
    }
}

/// A job that fails adds nothing: the list is as if it had never come.
pub proof fn law_failed_captures_add_nothing(
    records: Seq<CaptureRecord>,
    jobs: Seq<(CaptureRecord, bool)>,
)
    ensures
        after_jobs(records, jobs) == with_captures(records, captured_by(jobs)),
        captured_by(jobs).len() <= jobs.len(),
    decreases jobs.len(),
{
    if jobs.len() > 0 {
        law_failed_captures_add_nothing(records, jobs.drop_last());
        if jobs.last().1 {
            let earlier = captured_by(jobs.drop_last());
            assert(earlier.push(jobs.last().0).drop_last() =~= earlier);
        }
    }
}

/// The pictures of one run have different file names, whatever the time stamps, until the
/// numbers start again.
pub proof fn law_file_names_differ(
    first: u64,
    i: nat,
    j: nat,
    stamp_i: Seq<char>,
    stamp_j: Seq<char>,
)
    requires
        i < j <= i + u64::MAX,
    ensures
        capture_name(stamp_i, number_used(first, i)) != capture_name(
            stamp_j,
            number_used(first, j),
        ),
{
    lemma_number_used(first, i);
    lemma_number_used(first, j);
    let (a, b) = (first + i, first + j);
    let all = 0x1_0000_0000_0000_0000int;
    if number_used(first, i) == number_used(first, j) {
        assert(a % all != b % all) by (nonlinear_arith)
            requires
                a < b < a + all,
                all == 0x1_0000_0000_0000_0000int,
        ;
    }
    if capture_name(stamp_i, number_used(first, i)) == capture_name(
        stamp_j,
        number_used(first, j),
    ) {
        lemma_name_gives_number(stamp_i, number_used(first, i), stamp_j, number_used(first, j));
    }
}

/// Numbers count on from the first and start again after the largest.
proof fn lemma_number_used(first: u64, count: nat)
    ensures
        number_used(first, count) == (first + count) % 0x1_0000_0000_0000_0000,
    decreases count,
{
    if count > 0 {
        lemma_number_used(first, (count - 1) as nat);
    }
}

/// Equal file names have equal numbers: digits stand between the last underscore and the
/// extension.
proof fn lemma_name_gives_number(stamp_a: Seq<char>, a: u64, stamp_b: Seq<char>, b: u64)
    requires
        capture_name(stamp_a, a) == capture_name(stamp_b, b),
    ensures
        a == b,
{
    reveal_strlit("popup_");
    reveal_strlit("_");
    reveal_strlit(".png");
    let digits_a = decimal_padded(a as nat, 6);
    let digits_b = decimal_padded(b as nat, 6);
    lemma_padded_digits(a as nat, 6);
    lemma_padded_digits(b as nat, 6);
    let name = capture_name(stamp_a, a);
    let end = name.len() - 4;
    let other = capture_name(stamp_b, b);
    assert(name[end - digits_a.len() - 1] == '_');
    assert(other[end - digits_b.len() - 1] == '_');
    assert(name.subrange(end - digits_a.len(), end) =~= digits_a);
    assert(other.subrange(end - digits_b.len(), end) =~= digits_b);
    if digits_a.len() < digits_b.len() {
        let k = digits_b.len() - digits_a.len() - 1;
        assert(digits_b[k] == other[end - digits_a.len() - 1]);
        assert(is_digit(digits_b[k]));
    } else if digits_b.len() < digits_a.len() {
        let k = digits_a.len() - digits_b.len() - 1;
        assert(digits_a[k] == name[end - digits_b.len() - 1]);
        assert(is_digit(digits_a[k]));
    }
    assert(digits_a == digits_b);
}

/// A window is closed wherever a keyword stands in its title or in its class name, be it at
/// the front, at the end or between, and whatever the other of the two is; a picture of it
/// is taken before where captures are kept.
pub proof fn law_window_with_keyword_is_closed(
    keywords: Seq<Seq<char>>,
    k: int,
    title: Seq<char>,
    class_name: Seq<char>,
    captures: bool,
    before: Seq<char>,
    after: Seq<char>,
)
    requires
        0 <= k < keywords.len(),
        lowercase(title) == before + lowercase(keywords[k]) + after || lowercase(class_name)
            == before + lowercase(keywords[k]) + after,
    ensures
        captures ==> window_action(keywords, title, class_name, captures) is CaptureAndClose,
        !captures ==> window_action(keywords, title, class_name, captures) is Close,
{
    law_part_is_found(before, lowercase(keywords[k]), after);
}

/// A window that is not left alone has a keyword in its title or in its class name.
pub proof fn law_closed_window_holds_a_keyword(
    keywords: Seq<Seq<char>>,
    title: Seq<char>,
    class_name: Seq<char>,
    captures: bool,
) -> (found: (int, Seq<char>, Seq<char>))
    requires
        !(window_action(keywords, title, class_name, captures) is Ignore),
    ensures
        0 <= found.0 < keywords.len(),
        lowercase(title) == found.1 + lowercase(keywords[found.0]) + found.2 || lowercase(
            class_name,
        ) == found.1 + lowercase(keywords[found.0]) + found.2,
{
    let k = choose|k: int|
        0 <= k < keywords.len() && (has_substring(
            lowercase(title),
            lowercase(#[trigger] keywords[k]),
        ) || has_substring(lowercase(class_name), lowercase(keywords[k])));
    let needle = lowercase(keywords[k]);
    let ends = if has_substring(lowercase(title), needle) {
        law_found_part_is_there(lowercase(title), needle)
    } else {
        law_found_part_is_there(lowercase(class_name), needle)
    };
    (k, ends.0, ends.1)
}

/// Every rule of the blacklist that is not blank closes the windows that hold its text in
/// any case; white space around the rule does not matter, nor do the other rules.
pub proof fn law_every_rule_closes_its_windows(
    rules: Seq<String>,
    i: int,
    left: Seq<char>,
    keyword: Seq<char>,
    right: Seq<char>,
    title: Seq<char>,
    class_name: Seq<char>,
    captures: bool,
    before: Seq<char>,
    after: Seq<char>,
)
    requires
        0 <= i < rules.len(),
        rules[i]@ == left + keyword + right,
        blank(left),
        blank(right),
        keyword.len() > 0,
        !white_space(keyword[0]),
        !white_space(keyword.last()),
        lowercase(title) == before + lowercase(keyword) + after || lowercase(class_name)
            == before + lowercase(keyword) + after,
    ensures
        captures ==> window_action(compiled(rules), title, class_name, captures)
            is CaptureAndClose,
        !captures ==> window_action(compiled(rules), title, class_name, captures) is Close,
{
    law_trimmed_is_the_middle(left, keyword, right);
    law_every_rule_is_in_force(rules, i);
    let k = choose|k: int|
        0 <= k < compiled(rules).len() && lowercase(#[trigger] compiled(rules)[k]) == lowercase(
            keyword,
        );
    law_window_with_keyword_is_closed(
        compiled(rules),
        k,
        title,
        class_name,
        captures,
        before,
        after,
    );
}

/// A window is closed only because of a rule: one that is not blank, whose text without the
/// white space around it stands in the title or in the class name.
pub proof fn law_only_rules_close_windows(
    rules: Seq<String>,
    title: Seq<char>,
    class_name: Seq<char>,
    captures: bool,
) -> (found: (int, Seq<char>, Seq<char>))
    requires
        !(window_action(compiled(rules), title, class_name, captures) is Ignore),
    ensures
        0 <= found.0 < rules.len(),
        ({
            let keyword = trimmed(rules[found.0]@);
            &&& keyword.len() > 0
            &&& lowercase(title) == found.1 + lowercase(keyword) + found.2 || lowercase(class_name)
                == found.1 + lowercase(keyword) + found.2
        }),
{
    let held = law_closed_window_holds_a_keyword(compiled(rules), title, class_name, captures);
    let i = lemma_keyword_of_rule(rules, held.0);
    (i, held.1, held.2)
}

/// Every keyword in force is the text of a rule.
proof fn lemma_keyword_of_rule(rules: Seq<String>, k: int) -> (i: int)
    requires
        0 <= k < compiled(rules).len(),
    ensures
        0 <= i < rules.len(),
        compiled(rules)[k] == trimmed(rules[i]@),
        compiled(rules)[k].len() > 0,
    decreases rules.len(),
{
    let earlier = rules.drop_last();
    if k < compiled(earlier).len() {
        let i = lemma_keyword_of_rule(earlier, k);
        assert(earlier[i] == rules[i]);
        i
    } else {
        rules.len() - 1
    }
}

/// Of rules that differ in case alone the first is kept as it is written, and the keywords
/// stand in the order of their rules.
pub proof fn law_first_spelling_is_kept(earlier: Seq<String>, rule: String, later: Seq<String>)
    requires
        trimmed(rule@).len() > 0,
        forall|j: int|
            0 <= j < earlier.len() ==> lowercase(trimmed((#[trigger] earlier[j])@)) != lowercase(
                trimmed(rule@),
            ),
    ensures
        ({
            let all = compiled(earlier.push(rule) + later);
            let place = compiled(earlier).len() as int;
            &&& compiled(earlier).is_prefix_of(all)
            &&& place < all.len()
            &&& all[place] == trimmed(rule@)
        }),
    decreases later.len(),
{
    let front = earlier.push(rule);
    if later.len() == 0 {
        assert(front + later =~= front);
        assert(front.drop_last() =~= earlier);
        if has_keyword(compiled(earlier), trimmed(rule@)) {
            let k = choose|k: int|
                0 <= k < compiled(earlier).len() && lowercase(#[trigger] compiled(earlier)[k])
                    == lowercase(trimmed(rule@));
            let j = lemma_keyword_of_rule(earlier, k);
            assert(lowercase(trimmed(earlier[j]@)) != lowercase(trimmed(rule@)));
        }
    } else {
        law_first_spelling_is_kept(earlier, rule, later.drop_last());
        assert((front + later).drop_last() =~= front + later.drop_last());
    }
}

/// A start leaves the module running and a stop leaves it stopped; neither fails.
pub proof fn law_start_runs_and_stop_ends(
    before: PopupBlockerModule,
    after: PopupBlockerModule,
    r: Result<(), ModuleError>,
)
    ensures
        PopupBlockerModule::can_start(before, after, r) ==> r is Ok && after.running(),
        PopupBlockerModule::can_stop(before, after, r) ==> r is Ok && !after.running(),
        PopupBlockerModule::can_start(before, after, r) || PopupBlockerModule::can_stop(
            before,
            after,
            r,
        ) ==> after.keywords() == before.keywords() && after.capture_state()
            == before.capture_state(),
{
}

/// Every window with a handle is seen when it is created, whichever handle it has; parts
/// of windows are not, nor is any other event.
pub proof fn law_every_new_window_is_seen(event: u32, hwnd: u64, id_object: i32, id_child: i32)
    ensures
        hwnd > 0 ==> window_created(0x8000, hwnd, 0, 0),
        window_created(event, hwnd, id_object, id_child) ==> event == 0x8000 && hwnd > 0
            && id_object == 0 && id_child == 0,
{
}

/// One more capture stands first in the list, the others move one place back, and only the
/// fifty-first goes.
pub proof fn law_capture_comes_first(records: Seq<CaptureRecord>, record: CaptureRecord, i: int)
    ensures
        with_capture(records, record).len() >= 1,
        with_capture(records, record)[0] == record,
        records.len() < 50 ==> with_capture(records, record).len() == records.len() + 1,
        records.len() >= 50 ==> with_capture(records, record).len() == 50,
        0 <= i < records.len() && i < 49 ==> with_capture(records, record)[i + 1] == records[i],
        after_job(records, record, true) == with_capture(records, record),
        after_job(records, record, false) == records,
{
}

} // verus!
