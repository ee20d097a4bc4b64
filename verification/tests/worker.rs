use traffic_engine::error::{Reach, TrafficError};
use traffic_engine::run::{Action, Event, Orchestrator, Phase};
use traffic_engine::worker::{
    should_continue, Worker, WorkerAction, WorkerEvent, WorkerKind, WorkerPhase, WorkerReply,
    CONNECT_TIMEOUT_MILLIS, PAYLOAD_BYTES,
};

const SECOND: u128 = 1_000_000_000;

const EXIT: WorkerReply =
    WorkerReply { phase: WorkerPhase::Done, action: WorkerAction::Exit, report: None };

#[test]
fn worker_constants_have_their_values() {
    assert_eq!(CONNECT_TIMEOUT_MILLIS, 100);
    assert_eq!(PAYLOAD_BYTES, 1024);
}

#[test]
fn continues_only_while_active_and_before_the_deadline() {
    assert!(should_continue(true, 0, 1));
    assert!(should_continue(true, SECOND - 1, 1));
    assert!(!should_continue(true, SECOND, 1));
    assert!(!should_continue(false, 0, 1));
    assert!(!should_continue(false, SECOND, 1));
    assert!(!should_continue(true, 0, 0));
    assert!(should_continue(true, u64::MAX as u128 * SECOND - 1, u64::MAX));
}

#[test]
fn connector_loops_without_setup() {
    let mut worker = Worker::new(WorkerKind::Connector, 2);
    assert_eq!(worker.kind(), WorkerKind::Connector);
    assert_eq!(worker.phase(), WorkerPhase::Fresh);
    let reply = worker.step(WorkerEvent::Spawned, true, 0);
    assert_eq!(
        reply,
        WorkerReply {
            phase: WorkerPhase::Looping,
            action: WorkerAction::Connect { timeout_millis: 100 },
            report: None
        }
    );
    assert_eq!(worker.phase(), WorkerPhase::Looping);
    let reply = worker.step(WorkerEvent::AttemptDone { ok: true }, true, SECOND);
    assert_eq!(reply.action, WorkerAction::Connect { timeout_millis: 100 });
    assert_eq!(reply.report, None);
    let reply = worker.step(WorkerEvent::AttemptDone { ok: true }, true, 2 * SECOND);
    assert_eq!(reply, EXIT);
    assert_eq!(worker.phase(), WorkerPhase::Done);
}

#[test]
fn blaster_binds_first() {
    let mut worker = Worker::new(WorkerKind::Blaster, 2);
    let reply = worker.step(WorkerEvent::Spawned, true, 0);
    assert_eq!(
        reply,
        WorkerReply { phase: WorkerPhase::Binding, action: WorkerAction::Bind, report: None }
    );
    let reply = worker.step(WorkerEvent::SetupDone { ok: true }, true, 5);
    assert_eq!(
        reply,
        WorkerReply {
            phase: WorkerPhase::Looping,
            action: WorkerAction::Send { payload_bytes: 1024 },
            report: None
        }
    );
    let reply = worker.step(WorkerEvent::AttemptDone { ok: true }, false, 6);
    assert_eq!(reply, EXIT);
}

#[test]
fn blaster_binds_even_when_the_run_is_over() {
    let mut worker = Worker::new(WorkerKind::Blaster, 2);
    assert_eq!(worker.step(WorkerEvent::Spawned, false, 3 * SECOND).action, WorkerAction::Bind);
    assert_eq!(worker.step(WorkerEvent::SetupDone { ok: true }, false, 3 * SECOND), EXIT);
}

#[test]
fn setup_failure_ends_only_that_worker() {
    let mut failed = Worker::new(WorkerKind::Blaster, 2);
    let mut sibling = Worker::new(WorkerKind::Blaster, 2);
    failed.step(WorkerEvent::Spawned, true, 0);
    sibling.step(WorkerEvent::Spawned, true, 0);
    let reply = failed.step(WorkerEvent::SetupDone { ok: false }, true, 1);
    assert_eq!(
        reply,
        WorkerReply {
            phase: WorkerPhase::Done,
            action: WorkerAction::Exit,
            report: Some(TrafficError::SocketSetupFailure)
        }
    );
    assert_eq!(failed.phase(), WorkerPhase::Done);
    assert_eq!(
        sibling.step(WorkerEvent::SetupDone { ok: true }, true, 1).action,
        WorkerAction::Send { payload_bytes: 1024 }
    );
    assert_eq!(sibling.phase(), WorkerPhase::Looping);
}

#[test]
fn failed_attempt_is_reported_and_the_loop_goes_on() {
    for kind in [WorkerKind::Connector, WorkerKind::Blaster] {
        let mut worker = Worker::new(kind, 2);
        if worker.step(WorkerEvent::Spawned, true, 0).action == WorkerAction::Bind {
            worker.step(WorkerEvent::SetupDone { ok: true }, true, 0);
        }
        for i in 0..50u128 {
            let reply = worker.step(WorkerEvent::AttemptDone { ok: false }, true, i);
            assert_eq!(reply.phase, WorkerPhase::Looping);
            assert_eq!(reply.report, Some(TrafficError::TransientSendFailure));
            assert_ne!(reply.action, WorkerAction::Exit);
        }
        let reply = worker.step(WorkerEvent::AttemptDone { ok: false }, false, 50);
        assert_eq!(reply.action, WorkerAction::Exit);
        assert_eq!(reply.report, Some(TrafficError::TransientSendFailure));
        assert_eq!(worker.phase(), WorkerPhase::Done);
    }
}

#[test]
fn done_worker_stays_done() {
    let mut worker = Worker::new(WorkerKind::Connector, 2);
    worker.step(WorkerEvent::Spawned, false, 0);
    assert_eq!(worker.phase(), WorkerPhase::Done);
    for event in [
        WorkerEvent::Spawned,
        WorkerEvent::SetupDone { ok: true },
        WorkerEvent::AttemptDone { ok: false },
    ] {
        assert_eq!(worker.step(event, true, 0), EXIT);
        assert_eq!(worker.phase(), WorkerPhase::Done);
    }
}

#[test]
fn event_out_of_place_ends_the_worker() {
    let mut worker = Worker::new(WorkerKind::Connector, 2);
    assert_eq!(worker.step(WorkerEvent::AttemptDone { ok: true }, true, 0), EXIT);
    let mut worker = Worker::new(WorkerKind::Blaster, 2);
    worker.step(WorkerEvent::Spawned, true, 0);
    assert_eq!(worker.step(WorkerEvent::AttemptDone { ok: true }, true, 0), EXIT);
    let mut worker = Worker::new(WorkerKind::Connector, 2);
    worker.step(WorkerEvent::Spawned, true, 0);
    assert_eq!(worker.step(WorkerEvent::SetupDone { ok: true }, true, 0), EXIT);
}

#[test]
fn each_failure_has_its_reach() {
    assert_eq!(TrafficError::InvalidAddress.reach(), Reach::Run);
    assert_eq!(TrafficError::SocketSetupFailure.reach(), Reach::Worker);
    assert_eq!(TrafficError::TransientSendFailure.reach(), Reach::Attempt);
    assert!(TrafficError::InvalidAddress.aborts_run());
    assert!(!TrafficError::SocketSetupFailure.aborts_run());
    assert!(!TrafficError::TransientSendFailure.aborts_run());
}

#[test]
fn failures_have_notices() {
    assert_eq!(TrafficError::InvalidAddress.notice(), "Invalid target address");
    assert_eq!(TrafficError::SocketSetupFailure.notice(), "Failed to create UDP socket");
    assert_eq!(TrafficError::TransientSendFailure.notice(), "Send error");
    assert_eq!(WorkerKind::Connector.failure_notice(), "TCP connection error");
    assert_eq!(WorkerKind::Blaster.failure_notice(), "UDP send error");
}

#[test]
fn run_against_a_closed_port_completes_at_its_deadline() {
    let duration = 2;
    let mut orchestrator = Orchestrator::new();
    let (connectors, blasters) = match orchestrator.step(Event::Start { duration }) {
        Action::Spawn { connectors, blasters } => (connectors, blasters),
        other => panic!("unexpected answer {:?}", other),
    };
    let mut workers: Vec<Worker> = Vec::new();
    for _ in 0..connectors {
        workers.push(Worker::new(WorkerKind::Connector, duration));
    }
    for _ in 0..blasters {
        workers.push(Worker::new(WorkerKind::Blaster, duration));
    }
    let mut reports = 0;
    let mut attempts = 0;
    let mut elapsed: u128 = 0;
    for worker in workers.iter_mut() {
        if worker.step(WorkerEvent::Spawned, orchestrator.is_active(), elapsed).action
            == WorkerAction::Bind
        {
            worker.step(WorkerEvent::SetupDone { ok: true }, orchestrator.is_active(), elapsed);
        }
    }
    loop {
        for worker in workers.iter_mut() {
            if worker.phase() == WorkerPhase::Looping {
                attempts += 1;
                let reply = worker.step(
                    WorkerEvent::AttemptDone { ok: false },
                    orchestrator.is_active(),
                    elapsed,
                );
                assert_eq!(reply.report, Some(TrafficError::TransientSendFailure));
                if reply.report.is_some() {
                    reports += 1;
                }
            }
        }
        match orchestrator.step(Event::Poll { elapsed }) {
            Action::Wait { millis } => elapsed += millis as u128 * 1_000_000,
            Action::Stop => break,
            other => panic!("unexpected answer {:?}", other),
        }
    }
    assert_eq!(elapsed, 2 * SECOND);
    for worker in workers.iter_mut() {
        if worker.phase() == WorkerPhase::Looping {
            let reply =
                worker.step(WorkerEvent::AttemptDone { ok: false }, orchestrator.is_active(), elapsed);
            assert_eq!(reply.action, WorkerAction::Exit);
        }
        assert_eq!(worker.phase(), WorkerPhase::Done);
        orchestrator.step(Event::WorkerJoined);
    }
    assert_eq!(orchestrator.phase(), Phase::Joined);
    assert_eq!(orchestrator.outstanding(), 0);
    assert_eq!(attempts, 21 * 20);
    assert_eq!(reports, attempts);
    assert_eq!(orchestrator.step(Event::Reported), Action::Nothing);
    assert_eq!(orchestrator.phase(), Phase::Idle);
}
