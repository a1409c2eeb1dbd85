//! The life cycle of a module that runs a native message pump on a thread of its own.

use crate::modules::ModuleError;
use vstd::prelude::*;

verus! {

/// What the pump thread reports once it is set up.
#[derive(Debug, PartialEq, Eq)]
pub enum PumpHandshake {
    /// The pump runs on the thread with this number.
    Ready(u32),
    /// The platform has no message pump; the module only counts as running.
    Virtual,
    /// The pump could not be set up, for this reason.
    Failed(String),
    /// The thread ended without a report.
    Interrupted,
}

/// What came of waiting for the pump thread to end.
#[derive(Debug, PartialEq, Eq)]
pub enum JoinOutcome {
    /// It ended.
    Exited,
    /// It panicked with this message.
    Panicked(String),
    /// The task that waited failed for this reason.
    WaitFailed(String),
    /// It did not end in time; it will end on its own.
    TimedOut,
}

/// The message of a panic, or what stands for one that is no text.
pub fn panic_text(payload: Option<String>) -> (r: String)
    ensures
        r@ == (match payload {
            Some(text) => text@,
            None => "未知 panic 载荷"@,
        }),
{
    match payload {
        Some(text) => text,
        None => "未知 panic 载荷".to_owned(),
    }
}

/// The texts in which a module reports failures of its pump.
#[derive(Debug, Clone, Copy)]
pub struct PumpLabels {
    pub interrupted: &'static str,
    pub panicked: &'static str,
    pub wait_failed: &'static str,
}

/// The pump of a module: whether it runs, and on which thread.
#[derive(Debug, Clone, Copy, PartialEq, Eq, Structural)]
pub struct Pump {
    running: bool,
    thread_id: Option<u32>,
}

/// What a start reports.
pub open spec fn start_failure(labels: PumpLabels, handshake: PumpHandshake) -> Option<Seq<char>> {
    match handshake {
        PumpHandshake::Ready(_) => None,
        PumpHandshake::Virtual => None,
        PumpHandshake::Failed(reason) => Some(reason@),
        PumpHandshake::Interrupted => Some(labels.interrupted@),
    }
}

/// Whether a pump runs after a start that found it running or not.
pub open spec fn runs_after(running: bool, handshake: PumpHandshake) -> bool {
    running || handshake is Ready || handshake is Virtual
}

/// The thread that a pump runs on after a start that set it up.
pub open spec fn thread_by(handshake: PumpHandshake) -> Option<u32> {
    match handshake {
        PumpHandshake::Ready(id) => Some(id),
        _ => None,
    }
}

/// What a stop reports. A pump that is late is left to end on its own, which is no
/// failure.
pub open spec fn stop_failure(labels: PumpLabels, joined: JoinOutcome) -> Option<Seq<char>> {
    match joined {
        JoinOutcome::Exited => None,
        JoinOutcome::TimedOut => None,
        JoinOutcome::Panicked(message) => Some(labels.panicked@ + message@),
        JoinOutcome::WaitFailed(reason) => Some(labels.wait_failed@ + reason@),
    }
}

/// Whether `r` reports `failure`, or success where there is none.
pub open spec fn reports(r: Result<(), ModuleError>, failure: Option<Seq<char>>) -> bool {
    match failure {
        Some(text) => r is Err && r->Err_0@ == text,
        None => r is Ok,
    }
}

impl Pump {
    /// Whether the pump runs.
    pub closed spec fn running(&self) -> bool {
        self.running
    }

    /// The thread that the pump runs on.
    pub closed spec fn thread(&self) -> Option<u32> {
        self.thread_id
    }

    /// A pump that does not run.
    pub fn stopped() -> (r: Self)
        ensures
            !r.running(),
            r.thread() is None,
    {
        Pump { running: false, thread_id: None }
    }

    /// Whether the pump runs.
    pub fn is_running(&self) -> (r: bool)
        ensures
            r == self.running(),
    {
        self.running
    }

    /// The thread to which a request to end is posted.
    pub fn thread_id(&self) -> (r: Option<u32>)
        ensures
            r == self.thread(),
    {
        self.thread_id
    }

    /// Settles a start: the pump runs if it was set up. A running pump is left alone,
    /// whatever is reported.
    pub fn settle_start(&mut self, labels: &PumpLabels, handshake: PumpHandshake) -> (r: Result<
        (),
        ModuleError,
    >)
        ensures
            old(self).running() ==> r is Ok && *final(self) == *old(self),
            !old(self).running() ==> reports(r, start_failure(*labels, handshake))
                && final(self).thread() == thread_by(handshake),
            final(self).running() == runs_after(old(self).running(), handshake),
    {
        if self.running {
            return Ok(());
        }
        self.thread_id = None;
        match handshake {
            PumpHandshake::Ready(id) => {
                self.running = true;
                self.thread_id = Some(id);
                Ok(())
            },
            PumpHandshake::Virtual => {
                self.running = true;
                Ok(())
            },
            PumpHandshake::Failed(reason) => Err(reason),
            PumpHandshake::Interrupted => Err(labels.interrupted.to_owned()),
        }
    }

    /// Settles a stop: whatever came of it, the pump does not run any more.
    pub fn settle_stop(&mut self, labels: &PumpLabels, joined: JoinOutcome) -> (r: Result<
        (),
        ModuleError,
    >)
        ensures
            !final(self).running(),
            final(self).thread() is None || !old(self).running(),
            !old(self).running() ==> r is Ok && *final(self) == *old(self),
            old(self).running() ==> reports(r, stop_failure(*labels, joined)),
    {
        if !self.running {
            return Ok(());
        }
        self.running = false;
        self.thread_id = None;
        match joined {
            JoinOutcome::Exited => Ok(()),
            JoinOutcome::TimedOut => Ok(()),
            JoinOutcome::Panicked(message) => {
                let mut text = labels.panicked.to_owned();
                text.append(message.as_str());
                Err(text)
            },
            JoinOutcome::WaitFailed(reason) => {
                let mut text = labels.wait_failed.to_owned();
                text.append(reason.as_str());
                Err(text)
            },
        }
    }
}

/// A start fails where the pump could not be set up or ended without a word, and only
/// there; a stop where the thread panicked or could not be waited for, and not where it is
/// merely late.
pub proof fn law_what_counts_as_a_failure(
    labels: PumpLabels,
    handshake: PumpHandshake,
    joined: JoinOutcome,
    started: Result<(), ModuleError>,
    stopped: Result<(), ModuleError>,
)
    requires
        reports(started, start_failure(labels, handshake)),
        reports(stopped, stop_failure(labels, joined)),
    ensures
        started is Err <==> handshake is Failed || handshake is Interrupted,
        handshake matches PumpHandshake::Failed(reason) ==> started->Err_0@ == reason@,
        stopped is Err <==> joined is Panicked || joined is WaitFailed,
        joined matches JoinOutcome::Panicked(message) ==> stopped->Err_0@ == labels.panicked@
            + message@,
        joined matches JoinOutcome::WaitFailed(reason) ==> stopped->Err_0@ == labels.wait_failed@
            + reason@,
{
}

/// A pump runs after a start where it was set up or ran before, on the thread that it was
/// set up on; a start that failed leaves a stopped pump stopped and a running one running.
pub proof fn law_pump_runs_where_it_was_set_up(id: u32, reason: String, handshake: PumpHandshake)
    ensures
        runs_after(false, PumpHandshake::Ready(id)),
        runs_after(false, PumpHandshake::Virtual),
        !runs_after(false, PumpHandshake::Failed(reason)),
        !runs_after(false, PumpHandshake::Interrupted),
        runs_after(true, handshake),
        thread_by(PumpHandshake::Ready(id)) == Some(id),
        !(handshake is Ready) ==> thread_by(handshake) is None,
{
}

} // verus!
