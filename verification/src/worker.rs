//! What a sender worker does next, given what it last saw of the stop signal
//! and of the clock.
//!
//! A connector only repeats its attempt. A blaster first sets up its one
//! endpoint and, should that fail, exits alone. Either kind goes on while the
//! signal reads active and the deadline has not passed, and a failed attempt
//! never ends it.

use crate::error::TrafficError;
use crate::run::{deadline_nanos, deadline_reached, next, Event, Phase, RunModel};
use crate::signal::StopSignal;
use vstd::prelude::*;

verus! {

/// How long one connection attempt may take, in milliseconds.
pub const CONNECT_TIMEOUT_MILLIS: u64 = 100;

/// The size of the payload that a blaster sends, in bytes.
pub const PAYLOAD_BYTES: usize = 1024;

/// The two kinds of sender.
#[derive(Clone, Copy, Debug, PartialEq, Eq, Structural)]
pub enum WorkerKind {
    /// Connects again and again, keeping no connection.
    Connector,
    /// Sends one payload after another from one endpoint.
    Blaster,
}

/// Where a worker stands.
#[derive(Clone, Copy, Debug, PartialEq, Eq, Structural)]
pub enum WorkerPhase {
    /// Spawned; nothing done yet.
    Fresh,
    /// Setting up its endpoint.
    Binding,
    /// In its loop, one attempt under way.
    Looping,
    /// Out of its loop for good.
    Done,
}

/// What a worker is told.
#[derive(Clone, Copy, Debug, PartialEq, Eq, Structural)]
pub enum WorkerEvent {
    /// The worker has been spawned.
    Spawned,
    /// The endpoint was set up, or could not be.
    SetupDone { ok: bool },
    /// The attempt has ended, well or not.
    AttemptDone { ok: bool },
}

/// What a worker does next.
#[derive(Clone, Copy, Debug, PartialEq, Eq, Structural)]
pub enum WorkerAction {
    /// Set up the endpoint.
    Bind,
    /// Try to connect, for this long at most, and drop the connection.
    Connect { timeout_millis: u64 },
    /// Send a payload of this size, waiting for nothing.
    Send { payload_bytes: usize },
    /// Release the endpoint and return.
    Exit,
}

/// A worker's answer: its next phase, what to do, and the failure to report, if any.
#[derive(Clone, Copy, Debug, PartialEq, Eq, Structural)]
pub struct WorkerReply {
    pub phase: WorkerPhase,
    pub action: WorkerAction,
    pub report: Option<TrafficError>,
}

/// Whether a worker may begin another attempt: the signal reads active and
/// the deadline has not passed.
pub open spec fn may_continue(active: bool, elapsed: u128, duration: u64) -> bool {
    active && elapsed < deadline_nanos(duration)
}

/// One attempt of a worker of this kind.
pub open spec fn attempt(kind: WorkerKind) -> WorkerAction {
    match kind {
        WorkerKind::Connector => WorkerAction::Connect { timeout_millis: CONNECT_TIMEOUT_MILLIS },
        WorkerKind::Blaster => WorkerAction::Send { payload_bytes: PAYLOAD_BYTES },
    }
}

/// The head of the loop: another attempt if the worker may continue, else the exit.
pub open spec fn loop_head(
    kind: WorkerKind,
    active: bool,
    elapsed: u128,
    duration: u64,
    report: Option<TrafficError>,
) -> WorkerReply {
    if may_continue(active, elapsed, duration) {
        WorkerReply { phase: WorkerPhase::Looping, action: attempt(kind), report }
    } else {
        WorkerReply { phase: WorkerPhase::Done, action: WorkerAction::Exit, report }
    }
}

/// A worker's answer to `event`, having just read `active` from the signal
/// and `elapsed` nanoseconds from the clock. An event that does not belong
/// to the phase ends the worker.
pub open spec fn worker_next(
    kind: WorkerKind,
    phase: WorkerPhase,
    event: WorkerEvent,
    active: bool,
    elapsed: u128,
    duration: u64,
) -> WorkerReply {
    match (phase, event) {
        (WorkerPhase::Fresh, WorkerEvent::Spawned) => match kind {
            WorkerKind::Connector => loop_head(kind, active, elapsed, duration, None),
            WorkerKind::Blaster => WorkerReply {
                phase: WorkerPhase::Binding,
                action: WorkerAction::Bind,
                report: None,
            },
        },
        (WorkerPhase::Binding, WorkerEvent::SetupDone { ok }) => if ok {
            loop_head(kind, active, elapsed, duration, None)
        } else {
            WorkerReply {
                phase: WorkerPhase::Done,
                action: WorkerAction::Exit,
                report: Some(TrafficError::SocketSetupFailure),
            }
        },
        (WorkerPhase::Looping, WorkerEvent::AttemptDone { ok }) => loop_head(
            kind,
            active,
            elapsed,
            duration,
            if ok {
                None
            } else {
                Some(TrafficError::TransientSendFailure)
            },
        ),
        _ => WorkerReply { phase: WorkerPhase::Done, action: WorkerAction::Exit, report: None },
    }
}

impl WorkerKind {
    /// The notice that introduces a failed attempt of a worker of this kind.
    pub fn failure_notice(&self) -> (text: &'static str)
        ensures
            text@ == match *self {
                WorkerKind::Connector => "TCP connection error"@,
                WorkerKind::Blaster => "UDP send error"@,
            },
    {
        match self {
            WorkerKind::Connector => "TCP connection error",
            WorkerKind::Blaster => "UDP send error",
        }
    }
}

/// Whether a worker may begin another attempt.
pub fn should_continue(active: bool, elapsed: u128, duration: u64) -> (go_on: bool)
    ensures
        go_on == may_continue(active, elapsed, duration),
{
    active && !deadline_reached(elapsed, duration)
}

/// One sender worker of a run of `duration` seconds.
#[derive(Clone, Copy, Debug, PartialEq, Eq)]
pub struct Worker {
    kind: WorkerKind,
    phase: WorkerPhase,
    duration: u64,
}

impl Worker {
    /// The worker's kind.
    pub closed spec fn kind_spec(self) -> WorkerKind {
        self.kind
    }

    /// Where the worker stands.
    pub closed spec fn phase_spec(self) -> WorkerPhase {
        self.phase
    }

    /// The duration of the worker's run, in seconds.
    pub closed spec fn duration_spec(self) -> u64 {
        self.duration
    }

    /// A fresh worker of `kind` for a run of `duration` seconds.
    pub fn new(kind: WorkerKind, duration: u64) -> (worker: Worker)
        ensures
            worker.kind_spec() == kind,
            worker.phase_spec() == WorkerPhase::Fresh,
            worker.duration_spec() == duration,
    {
        Worker { kind, phase: WorkerPhase::Fresh, duration }
    }

    /// The worker's kind.
    pub fn kind(&self) -> (kind: WorkerKind)
        ensures
            kind == self.kind_spec(),
    {
        self.kind
    }

    /// Where the worker stands.
    pub fn phase(&self) -> (phase: WorkerPhase)
        ensures
            phase == self.phase_spec(),
    {
        self.phase
    }

    /// Takes in one event, together with what the worker has just read of
    /// the signal and of the clock, and answers what to do next.
    pub fn step(&mut self, event: WorkerEvent, active: bool, elapsed: u128) -> (reply: WorkerReply)
        ensures
            reply == worker_next(
                old(self).kind_spec(),
                old(self).phase_spec(),
                event,
                active,
                elapsed,
                old(self).duration_spec(),
            ),
            final(self).phase_spec() == reply.phase,
            final(self).kind_spec() == old(self).kind_spec(),
            final(self).duration_spec() == old(self).duration_spec(),
    {
        let go_on = should_continue(active, elapsed, self.duration);
        let looping = if go_on {
            WorkerPhase::Looping
        } else {
            WorkerPhase::Done
        };
        let again = if !go_on {
            WorkerAction::Exit
        } else {
            match self.kind {
                WorkerKind::Connector => WorkerAction::Connect {
                    timeout_millis: CONNECT_TIMEOUT_MILLIS,
                },
                WorkerKind::Blaster => WorkerAction::Send { payload_bytes: PAYLOAD_BYTES },
            }
        };
        let reply = match (self.phase, event) {
            (WorkerPhase::Fresh, WorkerEvent::Spawned) => match self.kind {
                WorkerKind::Connector => WorkerReply { phase: looping, action: again, report: None },
                WorkerKind::Blaster => WorkerReply {
                    phase: WorkerPhase::Binding,
                    action: WorkerAction::Bind,
                    report: None,
                },
            },
            (WorkerPhase::Binding, WorkerEvent::SetupDone { ok }) => if ok {
                WorkerReply { phase: looping, action: again, report: None }
            } else {
                WorkerReply {
                    phase: WorkerPhase::Done,
                    action: WorkerAction::Exit,
                    report: Some(TrafficError::SocketSetupFailure),
                }
            },
            (WorkerPhase::Looping, WorkerEvent::AttemptDone { ok }) => WorkerReply {
                phase: looping,
                action: again,
                report: if ok {
                    None
                } else {
                    Some(TrafficError::TransientSendFailure)
                },
            },
            _ => WorkerReply { phase: WorkerPhase::Done, action: WorkerAction::Exit, report: None },
        };
        self.phase = reply.phase;
        reply
    }
}

/// A worker begins an attempt only after it has read the signal as active
/// and the clock as short of the deadline.
pub proof fn lemma_attempt_only_while_running(
    kind: WorkerKind,
    phase: WorkerPhase,
    event: WorkerEvent,
    active: bool,
    elapsed: u128,
    duration: u64,
)
    ensures
        worker_next(kind, phase, event, active, elapsed, duration).action is Connect
            || worker_next(kind, phase, event, active, elapsed, duration).action is Send
            ==> may_continue(active, elapsed, duration),
{
}

/// Once a worker in its loop reads the signal as cleared or the clock as
/// past the deadline, it exits on that very step, whatever its last attempt
/// came to.
pub proof fn lemma_exit_within_one_step(
    kind: WorkerKind,
    ok: bool,
    active: bool,
    elapsed: u128,
    duration: u64,
)
    requires
        !may_continue(active, elapsed, duration),
    ensures
        worker_next(
            kind,
            WorkerPhase::Looping,
            WorkerEvent::AttemptDone { ok },
            active,
            elapsed,
            duration,
        ).action == WorkerAction::Exit,
        worker_next(
            kind,
            WorkerPhase::Looping,
            WorkerEvent::AttemptDone { ok },
            active,
            elapsed,
            duration,
        ).phase == WorkerPhase::Done,
{
}

/// A failed attempt is reported and never ends the worker: while the worker
/// may continue, its next step is another attempt.
pub proof fn lemma_failed_attempt_is_transient(
    kind: WorkerKind,
    active: bool,
    elapsed: u128,
    duration: u64,
)
    requires
        may_continue(active, elapsed, duration),
    ensures
        worker_next(
            kind,
            WorkerPhase::Looping,
            WorkerEvent::AttemptDone { ok: false },
            active,
            elapsed,
            duration,
        ) == (WorkerReply {
            phase: WorkerPhase::Looping,
            action: attempt(kind),
            report: Some(TrafficError::TransientSendFailure),
        }),
{
}

/// No worker reports a failure that would abort the run, and a worker that
/// is done stays done.
pub proof fn lemma_worker_failures_stay_local(
    kind: WorkerKind,
    phase: WorkerPhase,
    event: WorkerEvent,
    active: bool,
    elapsed: u128,
    duration: u64,
)
    ensures
        worker_next(kind, phase, event, active, elapsed, duration).report
            != Some(TrafficError::InvalidAddress),
        phase == WorkerPhase::Done ==> worker_next(
            kind,
            phase,
            event,
            active,
            elapsed,
            duration,
        ) == (WorkerReply { phase: WorkerPhase::Done, action: WorkerAction::Exit, report: None }),
{
}

/// Once the orchestrator has stopped a run, a worker that reads the run's
/// signal begins no further attempt: it exits on its next step, whatever its
/// kind, its clock and the outcome of its last attempt.
pub proof fn lemma_workers_exit_after_stop(
    m: RunModel,
    polled: u128,
    kind: WorkerKind,
    ok: bool,
    elapsed: u128,
)
    requires
        m.phase == Phase::Active,
        next(m, Event::Poll { elapsed: polled }).0.phase == Phase::Stopping,
    ensures
        !next(m, Event::Poll { elapsed: polled }).0.signal.active(),
        worker_next(
            kind,
            WorkerPhase::Looping,
            WorkerEvent::AttemptDone { ok },
            next(m, Event::Poll { elapsed: polled }).0.signal.active(),
            elapsed,
            m.duration,
        ).action == WorkerAction::Exit,
{
    StopSignal::lemma_with_state(false);
}

} // verus!
