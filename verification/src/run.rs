//! The orchestrator of one traffic run, as a machine that is told what
//! happened and answers what to do next.
//!
//! A run goes from `Idle` to `Active` when it starts, to `Stopping` when the
//! deadline has passed or an interrupt was seen, to `Joined` when the last
//! worker has been joined, and back to `Idle` when completion was reported.
//! Runs on one orchestrator never overlap: a start is refused until the
//! machine is idle again.

use crate::address::{is_host, resolve, TargetAddress};
use crate::error::TrafficError;
use crate::signal::StopSignal;
use vstd::prelude::*;

verus! {

/// How many workers of each kind a run spawns.
pub const WORKERS_PER_KIND: usize = 10;

/// How long the orchestrator waits between two looks at the clock, in milliseconds.
pub const POLL_INTERVAL_MILLIS: u64 = 100;

/// Nanoseconds in a second.
pub const NANOS_PER_SECOND: u128 = 1_000_000_000;

/// The nanoseconds after which a run of `duration` seconds is over.
pub open spec fn deadline_nanos(duration: u64) -> nat {
    (duration * NANOS_PER_SECOND) as nat
}

/// Whether a run of `duration` seconds is over `elapsed` nanoseconds after it began.
pub fn deadline_reached(elapsed: u128, duration: u64) -> (reached: bool)
    ensures
        reached == (elapsed >= deadline_nanos(duration)),
{
    assert(duration * NANOS_PER_SECOND <= u64::MAX * NANOS_PER_SECOND) by (nonlinear_arith)
        requires
            duration <= u64::MAX,
    ;
    let wide: u128 = duration as u128;
    elapsed >= wide * NANOS_PER_SECOND
}

/// What one run needs: a resolved target and a duration in seconds.
#[derive(Clone, Copy, Debug, PartialEq, Eq)]
pub struct RunParameters {
    target: TargetAddress,
    duration: u64,
}

impl RunParameters {
    /// The target of the run.
    pub closed spec fn target_spec(self) -> TargetAddress {
        self.target
    }

    /// The duration of the run, in seconds.
    pub closed spec fn duration_spec(self) -> u64 {
        self.duration
    }

    /// The parameters of a run against `target` for `duration` seconds.
    pub fn new(target: TargetAddress, duration: u64) -> (params: RunParameters)
        ensures
            params.target_spec() == target,
            params.duration_spec() == duration,
    {
        RunParameters { target, duration }
    }

    /// The target of the run.
    pub fn target(&self) -> (target: TargetAddress)
        ensures
            target == self.target_spec(),
    {
        self.target
    }

    /// The duration of the run, in seconds.
    pub fn duration(&self) -> (duration: u64)
        ensures
            duration == self.duration_spec(),
    {
        self.duration
    }
}

/// Checks a request for traffic and makes the parameters of its run. The
/// request is refused as an invalid address, before anything is spawned,
/// exactly when the target does not resolve.
pub fn plan_run(target: &str, port: u16, duration: u64) -> (plan: Result<
    RunParameters,
    TrafficError,
>)
    ensures
        plan is Ok <==> is_host(target@),
        plan matches Ok(p) ==> p.duration_spec() == duration && p.target_spec().port_spec() == port
            && p.target_spec().host_spec().names(target@),
        plan matches Err(e) ==> e == TrafficError::InvalidAddress,
{
    match resolve(target, port as i64) {
        Ok(address) => Ok(RunParameters::new(address, duration)),
        Err(e) => Err(e),
    }
}

/// Where a run stands.
#[derive(Clone, Copy, Debug, PartialEq, Eq, Structural)]
pub enum Phase {
    /// No run is under way.
    Idle,
    /// Workers are spawned and the deadline is running.
    Active,
    /// The stop was requested; workers are being joined.
    Stopping,
    /// Every worker has been joined; completion is not yet reported.
    Joined,
}

/// What the orchestrator is told.
#[derive(Clone, Copy, Debug, PartialEq, Eq, Structural)]
pub enum Event {
    /// A run of `duration` seconds is asked for.
    Start { duration: u64 },
    /// The orchestrator looked at the clock, `elapsed` nanoseconds after the run began.
    Poll { elapsed: u128 },
    /// An interrupt arrived from outside.
    Interrupt,
    /// One worker has been joined.
    WorkerJoined,
    /// Completion has been reported.
    Reported,
}

/// What the orchestrator answers.
#[derive(Clone, Copy, Debug, PartialEq, Eq, Structural)]
pub enum Action {
    /// Spawn this many workers of each kind, all sharing the activated signal.
    Spawn { connectors: usize, blasters: usize },
    /// Wait this long, then poll again.
    Wait { millis: u64 },
    /// Clear the shared signal and begin to join the workers.
    Stop,
    /// Join the next worker.
    Join,
    /// Report that the run is complete.
    Report,
    /// Nothing is to be done.
    Nothing,
    /// The event does not belong to this phase; nothing has changed.
    Refuse,
}

/// The state of an orchestrator.
pub struct RunModel {
    /// Where the run stands.
    pub phase: Phase,
    /// The run's stop signal.
    pub signal: StopSignal,
    /// The duration of the run, in seconds.
    pub duration: u64,
    /// How many spawned workers have not been joined yet.
    pub outstanding: nat,
}

/// The states that an orchestrator can be in: workers are outstanding only
/// during a run, and once the stop is requested the signal stays cleared.
pub open spec fn well_formed(m: RunModel) -> bool {
    match m.phase {
        Phase::Idle => m.outstanding == 0,
        Phase::Active => m.outstanding == 2 * WORKERS_PER_KIND,
        Phase::Stopping => !m.signal.active() && 1 <= m.outstanding <= 2 * WORKERS_PER_KIND,
        Phase::Joined => !m.signal.active() && m.outstanding == 0,
    }
}

/// The state after `event`, and the answer to it.
pub open spec fn next(m: RunModel, event: Event) -> (RunModel, Action) {
    match (m.phase, event) {
        (Phase::Idle, Event::Start { duration }) => (
            RunModel {
                phase: Phase::Active,
                signal: m.signal.activated(),
                duration,
                outstanding: (2 * WORKERS_PER_KIND) as nat,
            },
            Action::Spawn { connectors: WORKERS_PER_KIND, blasters: WORKERS_PER_KIND },
        ),
        (Phase::Active, Event::Poll { elapsed }) => if !m.signal.active() || elapsed
            >= deadline_nanos(m.duration) {
            (RunModel { phase: Phase::Stopping, signal: m.signal.stopped(), ..m }, Action::Stop)
        } else {
            (m, Action::Wait { millis: POLL_INTERVAL_MILLIS })
        },
        (Phase::Active, Event::Interrupt) => (
            RunModel { signal: m.signal.stopped(), ..m },
            Action::Nothing,
        ),
        (_, Event::Interrupt) => (m, Action::Nothing),
        (Phase::Stopping, Event::WorkerJoined) => if m.outstanding <= 1 {
            (RunModel { phase: Phase::Joined, outstanding: 0, ..m }, Action::Report)
        } else {
            (RunModel { outstanding: (m.outstanding - 1) as nat, ..m }, Action::Join)
        },
        (Phase::Joined, Event::Reported) => (RunModel { phase: Phase::Idle, ..m }, Action::Nothing),
        _ => (m, Action::Refuse),
    }
}

/// The orchestrator of traffic runs, one run at a time.
pub struct Orchestrator {
    phase: Phase,
    signal: StopSignal,
    duration: u64,
    outstanding: usize,
}

impl View for Orchestrator {
    type V = RunModel;

    closed spec fn view(&self) -> RunModel {
        RunModel {
            phase: self.phase,
            signal: self.signal,
            duration: self.duration,
            outstanding: self.outstanding as nat,
        }
    }
}

impl Orchestrator {
    #[verifier::type_invariant]
    spec fn inv(self) -> bool {
        well_formed(self@)
    }

    /// An idle orchestrator with a fresh signal.
    pub fn new() -> (orchestrator: Orchestrator)
        ensures
            orchestrator@ == (RunModel {
                phase: Phase::Idle,
                signal: StopSignal::with_state(true),
                duration: 0,
                outstanding: 0,
            }),
            well_formed(orchestrator@),
    {
        Orchestrator { phase: Phase::Idle, signal: StopSignal::new(), duration: 0, outstanding: 0 }
    }

    /// Takes in one event: moves to the next state and answers what to do.
    pub fn step(&mut self, event: Event) -> (action: Action)
        ensures
            (final(self)@, action) == next(old(self)@, event),
            well_formed(final(self)@),
    {
        proof {
            use_type_invariant(&*self);
            lemma_next_keeps_well_formed(self@, event);
        }
        let mut signal = self.signal;
        match (self.phase, event) {
            (Phase::Idle, Event::Start { duration }) => {
                signal.activate();
                *self = Orchestrator {
                    phase: Phase::Active,
                    signal,
                    duration,
                    outstanding: 2 * WORKERS_PER_KIND,
                };
                Action::Spawn { connectors: WORKERS_PER_KIND, blasters: WORKERS_PER_KIND }
            },
            (Phase::Active, Event::Poll { elapsed }) => {
                if !signal.is_active() || deadline_reached(elapsed, self.duration) {
                    signal.request_stop();
                    *self = Orchestrator {
                        phase: Phase::Stopping,
                        signal,
                        duration: self.duration,
                        outstanding: self.outstanding,
                    };
                    Action::Stop
                } else {
                    Action::Wait { millis: POLL_INTERVAL_MILLIS }
                }
            },
            (Phase::Active, Event::Interrupt) => {
                signal.request_stop();
                *self = Orchestrator {
                    phase: Phase::Active,
                    signal,
                    duration: self.duration,
                    outstanding: self.outstanding,
                };
                Action::Nothing
            },
            (_, Event::Interrupt) => Action::Nothing,
            (Phase::Stopping, Event::WorkerJoined) => {
                if self.outstanding <= 1 {
                    *self = Orchestrator {
                        phase: Phase::Joined,
                        signal,
                        duration: self.duration,
                        outstanding: 0,
                    };
                    Action::Report
                } else {
                    *self = Orchestrator {
                        phase: Phase::Stopping,
                        signal,
                        duration: self.duration,
                        outstanding: self.outstanding - 1,
                    };
                    Action::Join
                }
            },
            (Phase::Joined, Event::Reported) => {
                *self = Orchestrator {
                    phase: Phase::Idle,
                    signal,
                    duration: self.duration,
                    outstanding: 0,
                };
                Action::Nothing
            },
            _ => Action::Refuse,
        }
    }

    /// Begins the run that `params` describes, if no run is under way:
    /// the same as taking in a start of its duration.
    pub fn begin(&mut self, params: &RunParameters) -> (action: Action)
        ensures
            (final(self)@, action) == next(
                old(self)@,
                Event::Start { duration: params.duration_spec() },
            ),
            well_formed(final(self)@),
    {
        self.step(Event::Start { duration: params.duration() })
    }

    /// Where the run stands. An orchestrator is well formed at all times.
    pub fn phase(&self) -> (phase: Phase)
        ensures
            phase == self@.phase,
            well_formed(self@),
    {
        proof {
            use_type_invariant(self);
        }
        self.phase
    }

    /// Whether the run's signal still reads active.
    pub fn is_active(&self) -> (active: bool)
        ensures
            active == self@.signal.active(),
    {
        self.signal.is_active()
    }

    /// How many spawned workers have not been joined yet.
    pub fn outstanding(&self) -> (outstanding: usize)
        ensures
            outstanding == self@.outstanding,
    {
        self.outstanding
    }

    /// The duration of the latest run, in seconds.
    pub fn duration(&self) -> (duration: u64)
        ensures
            duration == self@.duration,
    {
        self.duration
    }
}

/// No event leads out of the well-formed states.
pub proof fn lemma_next_keeps_well_formed(m: RunModel, event: Event)
    requires
        well_formed(m),
    ensures
        well_formed(next(m, event).0),
{
    StopSignal::lemma_with_state(true);
    StopSignal::lemma_with_state(false);
}

/// The state after a sequence of events, taken in order.
pub open spec fn after(m: RunModel, events: Seq<Event>) -> RunModel
    decreases events.len(),
{
    if events.len() == 0 {
        m
    } else {
        next(after(m, events.drop_last()), events.last()).0
    }
}

/// How many of the events were answered with `action`.
pub open spec fn answers(m: RunModel, events: Seq<Event>, action: Action) -> nat
    decreases events.len(),
{
    if events.len() == 0 {
        0
    } else {
        let earlier = answers(m, events.drop_last(), action);
        if next(after(m, events.drop_last()), events.last()).1 == action {
            earlier + 1
        } else {
            earlier
        }
    }
}

/// 1 while a run is active, else 0.
pub open spec fn active_runs(m: RunModel) -> nat {
    if m.phase == Phase::Active {
        1
    } else {
        0
    }
}

/// `n` times the event that a worker has been joined.
pub open spec fn joins(n: nat) -> Seq<Event> {
    Seq::new(n, |i: int| Event::WorkerJoined)
}

/// No sequence of events leads out of the well-formed states. So whenever a
/// run is joined or the orchestrator is idle, no worker is outstanding.
pub proof fn lemma_after_keeps_well_formed(m: RunModel, events: Seq<Event>)
    requires
        well_formed(m),
    ensures
        well_formed(after(m, events)),
        after(m, events).phase == Phase::Joined || after(m, events).phase == Phase::Idle
            ==> after(m, events).outstanding == 0,
    decreases events.len(),
{
    if events.len() > 0 {
        lemma_after_keeps_well_formed(m, events.drop_last());
        lemma_next_keeps_well_formed(after(m, events.drop_last()), events.last());
    }
}

/// Whether `event` is neither an interrupt nor a look at the clock at or
/// after the deadline of a run of `duration` seconds.
pub open spec fn leaves_running(event: Event, duration: u64) -> bool {
    match event {
        Event::Interrupt => false,
        Event::Poll { elapsed } => elapsed < deadline_nanos(duration),
        _ => true,
    }
}

/// While the signal is active, nothing but an interrupt or a look at the
/// clock at or after the deadline ends an active run: whatever else
/// happens, and in whatever order, the state stays as it is.
pub proof fn lemma_no_stop_before_deadline(m: RunModel, events: Seq<Event>)
    requires
        m.phase == Phase::Active,
        m.signal.active(),
        forall|i: int| 0 <= i < events.len() ==> leaves_running(#[trigger] events[i], m.duration),
    ensures
        after(m, events) == m,
        answers(m, events, Action::Stop) == 0,
    decreases events.len(),
{
    if events.len() > 0 {
        let earlier = events.drop_last();
        assert forall|i: int| 0 <= i < earlier.len() implies leaves_running(
            #[trigger] earlier[i],
            m.duration,
        ) by {
            assert(earlier[i] == events[i]);
        }
        lemma_no_stop_before_deadline(m, earlier);
        assert(leaves_running(events[events.len() - 1], m.duration));
    }
}

/// A look at the clock at or after the deadline stops an active run at once,
/// and so does any look at the clock once the signal is cleared.
pub proof fn lemma_poll_stops(m: RunModel, elapsed: u128)
    requires
        m.phase == Phase::Active,
        elapsed >= deadline_nanos(m.duration) || !m.signal.active(),
    ensures
        next(m, Event::Poll { elapsed }).1 == Action::Stop,
        next(m, Event::Poll { elapsed }).0.phase == Phase::Stopping,
        !next(m, Event::Poll { elapsed }).0.signal.active(),
{
    StopSignal::lemma_with_state(false);
}

/// After an interrupt, the next look at the clock stops an active run,
/// however much of its duration is left.
pub proof fn lemma_interrupt_stops_at_next_poll(m: RunModel, elapsed: u128)
    requires
        m.phase == Phase::Active,
    ensures
        next(next(m, Event::Interrupt).0, Event::Poll { elapsed }).1 == Action::Stop,
        next(next(m, Event::Interrupt).0, Event::Poll { elapsed }).0.phase == Phase::Stopping,
{
    StopSignal::lemma_with_state(false);
}

/// An interrupt changes nothing unless a run is active, and a second
/// interrupt changes nothing that the first has not changed.
pub proof fn lemma_interrupt_idempotent(m: RunModel)
    ensures
        m.phase != Phase::Active ==> next(m, Event::Interrupt).0 == m,
        next(next(m, Event::Interrupt).0, Event::Interrupt).0 == next(m, Event::Interrupt).0,
        next(m, Event::Interrupt).0.phase == m.phase,
        next(m, Event::Interrupt).0.outstanding == m.outstanding,
{
}

/// Completion is reported only when no worker is outstanding.
pub proof fn lemma_report_after_last_join(m: RunModel, event: Event)
    ensures
        next(m, event).1 == Action::Report ==> next(m, event).0.outstanding == 0 && next(
            m,
            event,
        ).0.phase == Phase::Joined,
{
}

/// A stopping run is joined when as many workers have been joined as were
/// outstanding, and not before.
pub proof fn lemma_join_all(m: RunModel, n: nat)
    requires
        well_formed(m),
        m.phase == Phase::Stopping,
        n <= m.outstanding,
    ensures
        n < m.outstanding ==> after(m, joins(n)).phase == Phase::Stopping,
        n == m.outstanding ==> after(m, joins(n)).phase == Phase::Joined,
        after(m, joins(n)).outstanding == m.outstanding - n,
        answers(m, joins(n), Action::Report) == if n == m.outstanding {
            1nat
        } else {
            0nat
        },
    decreases n,
{
    if n > 0 {
        lemma_join_all(m, (n - 1) as nat);
        assert(joins(n).drop_last() =~= joins((n - 1) as nat));
        assert(joins(n).last() == Event::WorkerJoined);
    }
}

/// Every run that was started is stopped exactly once: over any sequence of
/// events, as many stops are answered as runs were spawned, give or take the
/// run that is active at either end.
pub proof fn lemma_one_stop_per_run(m: RunModel, events: Seq<Event>)
    ensures
        answers(m, events, Action::Spawn { connectors: WORKERS_PER_KIND, blasters: WORKERS_PER_KIND })
            + active_runs(m) == answers(m, events, Action::Stop) + active_runs(
            after(m, events),
        ),
    decreases events.len(),
{
    if events.len() > 0 {
        lemma_one_stop_per_run(m, events.drop_last());
    }
}

/// A look at the clock that comes no more than `gap` nanoseconds after one
/// that was answered with a wait, and at or after the deadline, stops the
/// run less than `gap` nanoseconds after the deadline.
pub proof fn lemma_stop_within_one_gap(m: RunModel, earlier: u128, later: u128, gap: nat)
    requires
        m.phase == Phase::Active,
        next(m, Event::Poll { elapsed: earlier }).1 == (Action::Wait { millis: POLL_INTERVAL_MILLIS }),
        later <= earlier + gap,
        later >= deadline_nanos(m.duration),
    ensures
        next(m, Event::Poll { elapsed: later }).1 == Action::Stop,
        later < deadline_nanos(m.duration) + gap,
{
}

} // verus!
