//! The broker, driven with real guests.

use std::cell::RefCell;
use std::rc::Rc;

use wasmtime::component::{Component, Linker, ResourceTable};
use wasmtime::{Engine, Store, StoreLimits};
use wasmtime_wasi::p2::bindings::sync::Command;
use wasmtime_wasi::{WasiCtx, WasiCtxView, WasiView};

use wasi_runtime::broker::{
    record, terminal_message, ActionBroker, Approval, ApprovalDecision, AuditEntry, AuditOutcome,
    BrokerError, BrokerOutcome, JobSink, JobStep, SinkMessage, Terminal,
    DEFAULT_APPROVAL_TIMEOUT, DEFAULT_MAX_AUDIT_ENTRIES, DEFAULT_MAX_OUTSTANDING_SESSIONS,
};
use wasi_runtime::cancel::CancelHandle;
use wasi_runtime::capability::{CapabilityGrant, FilesystemAccess, ResourceLimits};
use wasi_runtime::command::{
    Actor, ApprovalReason, CommandError, CommandRequest, ExecutionMode, SessionEvent, Stream,
};
use wasi_runtime::path::{HostPath, Separator};
use wasi_runtime::runtime::{build_store, run_outcome, RuntimeError, WasiOutput, WasiRuntime};
use wasi_runtime::watch::{WatchStep, Watchdog};

/// Minimal WASI command that returns success immediately.
const HELLO_WAT: &str = r#"
    (component
      (core module $m
        (func (export "run") (result i32) (i32.const 0)))
      (core instance $i (instantiate $m))
      (func $run (result (result)) (canon lift (core func $i "run")))
      (instance (export "wasi:cli/run@0.2.12")
        (export "run" (func $run))))
"#;

/// WASI command that spins forever; only fuel or epoch interruption stops it.
const SPIN_WAT: &str = r#"
    (component
      (core module $m
        (func (export "run") (result i32)
          (block $exit
            (loop $l (br $l)))
          (i32.const 0)))
      (core instance $i (instantiate $m))
      (func $run (result (result)) (canon lift (core func $i "run")))
      (instance (export "wasi:cli/run@0.2.12")
        (export "run" (func $run))))
"#;

/// What a caller has received and not looked at yet.
type Inbox = Rc<RefCell<Vec<SinkMessage>>>;

/// What the tests keep with a session.
struct Session {
    component: Component,
    inbox: Inbox,
}

type Broker = ActionBroker<Session>;

struct Guest {
    ctx: WasiCtx,
    table: ResourceTable,
    limits: StoreLimits,
}

impl WasiView for Guest {
    fn ctx(&mut self) -> WasiCtxView<'_> {
        WasiCtxView { ctx: &mut self.ctx, table: &mut self.table }
    }
}

fn advance(engine: &Engine, ticks: u64) {
    for _ in 0..ticks {
        engine.increment_epoch();
    }
}

/// Run a guest; one that `overstays` uses up its wall-clock limit before it returns.
fn run_guest(
    engine: &Engine,
    component: &Component,
    request: &CommandRequest,
    cancel: &CancelHandle,
    overstays: bool,
) -> Result<WasiOutput, RuntimeError> {
    let itself = |path: &HostPath| Some(path.clone());
    let plan = build_store(request, &|_: &str| None, &itself, Separator::Slash)?;
    let mut linker = Linker::<Guest>::new(engine);
    wasmtime_wasi::p2::add_to_linker_sync(&mut linker).map_err(RuntimeError::Wasi)?;
    let guest = Guest {
        ctx: plan.guest_context().build(),
        table: ResourceTable::new(),
        limits: plan.store_limits(),
    };
    let mut store = Store::new(engine, guest);
    store.limiter(|guest| &mut guest.limits);
    store.set_fuel(plan.fuel).map_err(RuntimeError::Wasi)?;
    store.set_epoch_deadline(plan.epoch_ticks);
    let command =
        Command::instantiate(&mut store, component, &linker).map_err(RuntimeError::Wasi)?;
    let mut watchdog = Watchdog::new(plan.epoch_ticks);
    loop {
        match watchdog.check(cancel.is_cancelled()) {
            WatchStep::Advance(ticks) => {
                advance(engine, ticks);
                break;
            }
            WatchStep::Stop => break,
            WatchStep::Wait => match watchdog.waited(!overstays) {
                WatchStep::Advance(ticks) => advance(engine, ticks),
                _ => break,
            },
        }
    }
    let result = command.wasi_cli_run().call_run(&mut store);
    run_outcome(result, vec![], vec![], cancel.is_cancelled())
}

fn deliver(inbox: &Inbox, message: SinkMessage) {
    inbox.borrow_mut().push(message);
}

/// What a worker does for one session: run it, let it overstay, or run something else meanwhile.
enum Work {
    Run,
    Overstay,
    CancelMidway(u64),
    Panic,
}

/// Give the next session its turn; says whether there was one.
fn serve(broker: &mut Broker, work: Work, now: u128) -> bool {
    let job = match broker.next_job() {
        Some(job) => job,
        None => return false,
    };
    let inbox = job.payload.inbox.clone();
    let snapshot = job.snapshot();
    if let Work::Panic = work {
        let message = broker.contain_panic(snapshot);
        deliver(&inbox, message);
        return true;
    }
    match broker.process_job(job, now) {
        JobStep::Ended { payload, message } => deliver(&payload.inbox, message),
        JobStep::Parked { id, message } => {
            deliver(&inbox, message);
            assert!(broker.parked_notified(id, true).is_none());
        }
        JobStep::Run { job, cancel, started } => {
            if let Some(event) = started {
                deliver(&inbox, SinkMessage::Event(event));
            }
            assert!(broker.next_job().is_none(), "one session at a time");
            if let Work::CancelMidway(id) = work {
                let cancellation =
                    broker.cancel(id).expect("running session is cancellable");
                assert!(cancellation.signal.expect("its signal").is_cancelled());
                assert!(cancel.is_cancelled(), "the running session's own signal is set");
            }
            let engine = broker.runtime().engine().clone();
            let overstays = matches!(work, Work::Overstay);
            let result =
                run_guest(&engine, &job.payload.component, &job.request, &cancel, overstays);
            let ended = broker.finish_job(job, result);
            deliver(&ended.payload.inbox, ended.message);
        }
    }
    true
}

fn outcome(inbox: &Inbox) -> Option<BrokerOutcome> {
    let mut messages = inbox.borrow_mut();
    if messages.is_empty() {
        return None;
    }
    match messages.remove(0) {
        SinkMessage::Outcome(outcome) => Some(outcome),
        SinkMessage::Event(event) => panic!("unexpected event {event:?}"),
    }
}

fn event(inbox: &Inbox) -> Option<SessionEvent> {
    let mut messages = inbox.borrow_mut();
    if messages.is_empty() {
        return None;
    }
    match messages.remove(0) {
        SinkMessage::Event(event) => Some(event),
        SinkMessage::Outcome(outcome) => panic!("unexpected outcome {outcome:?}"),
    }
}

fn limited(access: FilesystemAccess, timeout_seconds: u64, fuel: u64) -> CapabilityGrant {
    CapabilityGrant::workspace(HostPath::new("/tmp/sandbox-broker-workspace"), access)
        .expect("temporary root is absolute")
        .with_limits(
            ResourceLimits::new(1_048_576, timeout_seconds)
                .expect("valid limits")
                .with_fuel(fuel)
                .expect("valid fuel"),
        )
}

/// Read-only grant: low-risk, auto-approved by the broker.
fn grant(timeout_seconds: u64, fuel: u64) -> CapabilityGrant {
    limited(FilesystemAccess::Read, timeout_seconds, fuel)
}

/// Read-write grant: risky, requires human approval.
fn write_grant(timeout_seconds: u64, fuel: u64) -> CapabilityGrant {
    limited(FilesystemAccess::ReadWrite, timeout_seconds, fuel)
}

fn request(
    broker: &Broker,
    id: u64,
    program: &str,
    wat: &str,
    grant: CapabilityGrant,
) -> (Session, Inbox, CommandRequest) {
    let bytes = wat::parse_str(wat).expect("valid WAT");
    let component = broker.compile_component(&bytes).expect("component admission");
    let cwd = grant.filesystem_grants()[0].root().clone();
    let request = CommandRequest::new(
        id,
        Actor::Agent,
        ExecutionMode::Wasi,
        program.to_owned(),
        vec![],
        cwd,
        grant,
    )
    .expect("request is valid");
    let inbox: Inbox = Rc::new(RefCell::new(Vec::new()));
    (Session { component, inbox: inbox.clone() }, inbox, request)
}

fn submitted(
    broker: &mut Broker,
    id: u64,
    program: &str,
    wat: &str,
    grant: CapabilityGrant,
) -> Inbox {
    let (session, inbox, request) = request(broker, id, program, wat, grant);
    broker.submit(request, session).expect("submitted");
    inbox
}

fn streamed(
    broker: &mut Broker,
    id: u64,
    program: &str,
    wat: &str,
    grant: CapabilityGrant,
) -> Inbox {
    let (session, inbox, request) = request(broker, id, program, wat, grant);
    broker.submit_streaming(request, session).expect("submitted");
    inbox
}

#[test]
fn hello_component_reports_exit_code_zero() {
    let mut broker = Broker::new().expect("broker");
    let receiver = submitted(&mut broker, 1, "hello", HELLO_WAT, grant(30, 1_000_000));
    assert!(serve(&mut broker, Work::Run, 0));

    match outcome(&receiver).expect("result") {
        BrokerOutcome::Completed(output) => assert_eq!(output.exit_code, 0),
        other => panic!("expected completion, got {other:?}"),
    }
}

#[test]
fn requests_run_in_submission_order() {
    let mut broker = Broker::new().expect("broker");
    // A spins for one second before timing out; B is instant.
    let receiver_a = submitted(&mut broker, 1, "spin-a", SPIN_WAT, grant(1, 4_000_000_000));
    let receiver_b = submitted(&mut broker, 2, "hello-b", HELLO_WAT, grant(30, 1_000_000));

    assert!(serve(&mut broker, Work::Overstay, 0));
    assert!(outcome(&receiver_b).is_none(), "b must wait for a to finish");

    let outcome_a = outcome(&receiver_a).expect("a finishes");
    assert!(
        matches!(outcome_a, BrokerOutcome::Failed(_)),
        "a should be interrupted by its timeout, got {outcome_a:?}"
    );

    assert!(serve(&mut broker, Work::Run, 0));
    let outcome_b = outcome(&receiver_b).expect("b finishes after a");
    assert!(matches!(outcome_b, BrokerOutcome::Completed(_)));
    assert!(!serve(&mut broker, Work::Run, 0));
}

#[test]
fn cancel_interrupts_a_running_guest_and_the_queue_continues() {
    let mut broker = Broker::new().expect("broker");
    let receiver_a = submitted(&mut broker, 1, "spin-a", SPIN_WAT, grant(60, 4_000_000_000));
    let receiver_b = submitted(&mut broker, 2, "hello-b", HELLO_WAT, grant(30, 1_000_000));

    // Let A get running, then interrupt it.
    assert!(serve(&mut broker, Work::CancelMidway(1), 0));

    let outcome_a = outcome(&receiver_a).expect("a is interrupted promptly");
    assert!(
        matches!(outcome_a, BrokerOutcome::Cancelled),
        "a should be cancelled, got {outcome_a:?}"
    );

    assert!(serve(&mut broker, Work::Run, 0));
    let outcome_b = outcome(&receiver_b).expect("b still runs after a is cancelled");
    assert!(matches!(outcome_b, BrokerOutcome::Completed(_)));
}

#[test]
fn cancel_before_start_skips_a_queued_action() {
    let mut broker = Broker::new().expect("broker");
    let receiver_a = submitted(&mut broker, 1, "spin-a", SPIN_WAT, grant(60, 4_000_000_000));
    let receiver_b = submitted(&mut broker, 2, "hello-b", HELLO_WAT, grant(30, 1_000_000));

    // b is queued behind a and never runs: cancelling it skips execution.
    broker.cancel(2).expect("queued session is cancellable");
    assert!(serve(&mut broker, Work::CancelMidway(1), 0));

    let outcome_a = outcome(&receiver_a).expect("a is cancelled");
    assert!(matches!(outcome_a, BrokerOutcome::Cancelled));

    assert!(serve(&mut broker, Work::Run, 0));
    let outcome_b = outcome(&receiver_b).expect("b is reported cancelled without running");
    assert!(
        matches!(outcome_b, BrokerOutcome::Cancelled),
        "b should be cancelled, got {outcome_b:?}"
    );
}

#[test]
fn cancel_of_an_unknown_session_errors() {
    let mut broker = Broker::new().expect("broker");
    assert!(matches!(
        broker.cancel(999),
        Err(BrokerError::UnknownSession(999))
    ));
}

#[test]
fn cancel_is_idempotent_for_a_live_session() {
    let mut broker = Broker::new().expect("broker");
    let receiver = submitted(&mut broker, 1, "spin", SPIN_WAT, grant(60, 4_000_000_000));

    broker.cancel(1).expect("first cancel");
    broker.cancel(1).expect("second cancel is a no-op");

    assert!(serve(&mut broker, Work::Run, 0));
    let outcome = outcome(&receiver).expect("cancelled promptly");
    assert!(matches!(outcome, BrokerOutcome::Cancelled));
}

#[test]
fn completed_sessions_release_their_handles() {
    let mut broker = Broker::new().expect("broker");
    let receiver = submitted(&mut broker, 1, "hello", HELLO_WAT, grant(30, 1_000_000));
    assert_eq!(broker.outstanding_sessions(), 1);
    assert!(serve(&mut broker, Work::Run, 0));
    outcome(&receiver).expect("session completes");

    assert_eq!(
        broker.outstanding_sessions(),
        0,
        "finished sessions must be released from the broker"
    );
}

#[test]
fn cancel_after_completion_reports_unknown_session() {
    let mut broker = Broker::new().expect("broker");
    let receiver = submitted(&mut broker, 1, "hello", HELLO_WAT, grant(30, 1_000_000));
    assert!(serve(&mut broker, Work::Run, 0));
    outcome(&receiver).expect("session completes");

    assert!(matches!(
        broker.cancel(1),
        Err(BrokerError::UnknownSession(1))
    ));
}

#[test]
fn queue_rejects_submissions_beyond_capacity() {
    let mut broker = Broker::with_capacity(2).expect("broker");
    let (session_a, _, request_a) =
        request(&broker, 1, "spin-a", SPIN_WAT, grant(60, 4_000_000_000));
    let (session_b, _, request_b) =
        request(&broker, 2, "spin-b", SPIN_WAT, grant(60, 4_000_000_000));
    let (session_c, _, request_c) =
        request(&broker, 3, "spin-c", SPIN_WAT, grant(60, 4_000_000_000));

    broker.submit(request_a, session_a).expect("first fits");
    broker.submit(request_b, session_b).expect("second fits");
    assert!(matches!(
        broker.submit(request_c, session_c),
        Err(BrokerError::QueueFull)
    ));
}

#[test]
fn zero_capacity_is_rejected() {
    assert!(matches!(
        Broker::with_capacity(0),
        Err(BrokerError::InvalidCapacity)
    ));
}

#[test]
fn hello_runs_with_unlimited_fuel() {
    let mut broker = Broker::new().expect("broker");
    let receiver = submitted(
        &mut broker,
        1,
        "hello",
        HELLO_WAT,
        grant(30, 1_000_000).with_limits(
            ResourceLimits::new(1_048_576, 30)
                .expect("valid limits")
                .with_unlimited_fuel(),
        ),
    );
    assert!(serve(&mut broker, Work::Run, 0));
    match outcome(&receiver).expect("result") {
        BrokerOutcome::Completed(output) => assert_eq!(output.exit_code, 0),
        other => panic!("expected completion, got {other:?}"),
    }
}

#[test]
fn streaming_hello_emits_started_then_exited() {
    let mut broker = Broker::new().expect("broker");
    let events = streamed(&mut broker, 1, "hello", HELLO_WAT, grant(30, 1_000_000));
    assert!(serve(&mut broker, Work::Run, 0));

    assert_eq!(event(&events).expect("started event"), SessionEvent::Started);
    assert_eq!(
        event(&events).expect("exited event"),
        SessionEvent::Exited { code: Some(0) }
    );
    assert!(event(&events).is_none(), "no events after the terminal one");
}

#[test]
fn streaming_cancel_interrupts_a_running_guest() {
    let mut broker = Broker::new().expect("broker");
    let events = streamed(&mut broker, 1, "spin", SPIN_WAT, grant(60, 4_000_000_000));
    assert!(serve(&mut broker, Work::CancelMidway(1), 0));
    assert_eq!(event(&events).expect("started event"), SessionEvent::Started);

    assert_eq!(event(&events).expect("cancelled event"), SessionEvent::Cancelled);
}

#[test]
fn read_only_command_runs_without_approval() {
    let mut broker = Broker::new().expect("broker");
    let receiver = submitted(&mut broker, 1, "hello", HELLO_WAT, grant(30, 1_000_000));
    assert!(serve(&mut broker, Work::Run, 0));
    let outcome = outcome(&receiver).expect("terminal outcome");
    assert!(
        matches!(outcome, BrokerOutcome::Completed(_)),
        "read-only commands must not require approval, got {outcome:?}"
    );
}

#[test]
fn risky_command_emits_pending_approval_then_runs_after_approve() {
    let mut broker = Broker::new().expect("broker");
    let receiver = submitted(&mut broker, 1, "hello", HELLO_WAT, write_grant(30, 1_000_000));
    assert!(serve(&mut broker, Work::Run, 0));

    assert!(matches!(
        outcome(&receiver).expect("pending approval"),
        BrokerOutcome::PendingApproval {
            reason: ApprovalReason::FilesystemWrite
        }
    ));
    assert!(!serve(&mut broker, Work::Run, 0), "nothing runs before approval");
    assert!(outcome(&receiver).is_none(), "nothing runs before approval");

    broker.approve(1).expect("approval accepted");
    assert!(serve(&mut broker, Work::Run, 0));
    let outcome = outcome(&receiver).expect("terminal outcome");
    assert!(matches!(outcome, BrokerOutcome::Completed(_)));
}

#[test]
fn denied_command_never_runs() {
    let mut broker = Broker::new().expect("broker");
    let receiver = submitted(&mut broker, 1, "hello", HELLO_WAT, write_grant(30, 1_000_000));
    assert!(serve(&mut broker, Work::Run, 0));
    assert!(matches!(
        outcome(&receiver).expect("pending approval"),
        BrokerOutcome::PendingApproval { .. }
    ));

    let ended = broker.deny(1).expect("denial accepted");
    deliver(&ended.payload.inbox, ended.message);
    assert!(matches!(
        outcome(&receiver).expect("denied outcome"),
        BrokerOutcome::Denied(_)
    ));
    assert!(!serve(&mut broker, Work::Run, 0));
    assert!(matches!(broker.approve(1), Err(BrokerError::NotPendingApproval(1))));
}

#[test]
fn approval_timeout_auto_denies() {
    let mut broker = Broker::with_config(64, 300_000_000).expect("broker");
    let receiver = submitted(&mut broker, 1, "hello", HELLO_WAT, write_grant(30, 1_000_000));
    assert!(serve(&mut broker, Work::Run, 5));
    assert!(matches!(
        outcome(&receiver).expect("pending approval"),
        BrokerOutcome::PendingApproval { .. }
    ));

    // No decision: the sweep after the timeout auto-denies.
    assert!(broker.sweep(300_000_004).is_empty());
    for ended in broker.sweep(300_000_005) {
        deliver(&ended.payload.inbox, ended.message);
    }
    assert!(matches!(
        outcome(&receiver).expect("auto-denied outcome"),
        BrokerOutcome::Denied(_)
    ));
    assert_eq!(broker.pending_sessions(), 0);
    assert_eq!(broker.outstanding_sessions(), 0);
    let trail = broker.audit_trail();
    assert_eq!(trail[0].decision, ApprovalDecision::TimedOut);
    assert_eq!(trail[0].outcome, AuditOutcome::Denied);
}

#[test]
fn cancel_of_pending_session_reports_cancelled() {
    let mut broker = Broker::new().expect("broker");
    let receiver = submitted(&mut broker, 1, "hello", HELLO_WAT, write_grant(30, 1_000_000));
    assert!(serve(&mut broker, Work::Run, 0));
    assert!(matches!(
        outcome(&receiver).expect("pending approval"),
        BrokerOutcome::PendingApproval { .. }
    ));

    let cancellation = broker.cancel(1).expect("parked session is cancellable");
    assert!(cancellation.signal.is_none());
    for ended in cancellation.ended {
        deliver(&ended.payload.inbox, ended.message);
    }
    assert!(matches!(
        outcome(&receiver).expect("cancelled outcome"),
        BrokerOutcome::Cancelled
    ));
    assert_eq!(broker.pending_sessions(), 0);
}

#[test]
fn approve_of_non_pending_session_errors() {
    let mut broker = Broker::new().expect("broker");
    assert!(matches!(
        broker.approve(999),
        Err(BrokerError::NotPendingApproval(999))
    ));
    assert!(matches!(
        broker.deny(999),
        Err(BrokerError::NotPendingApproval(999))
    ));
}

#[test]
fn audit_trail_records_decisions() {
    let mut broker = Broker::new().expect("broker");

    // Auto-approved read-only command.
    let receiver = submitted(&mut broker, 1, "hello", HELLO_WAT, grant(30, 1_000_000));
    assert!(serve(&mut broker, Work::Run, 0));
    assert!(matches!(
        outcome(&receiver).expect("outcome"),
        BrokerOutcome::Completed(_)
    ));

    // Human-approved write command.
    let receiver = submitted(&mut broker, 2, "hello", HELLO_WAT, write_grant(30, 1_000_000));
    assert!(serve(&mut broker, Work::Run, 0));
    assert!(matches!(
        outcome(&receiver).expect("pending approval"),
        BrokerOutcome::PendingApproval { .. }
    ));
    broker.approve(2).expect("approval accepted");
    assert!(serve(&mut broker, Work::Run, 0));
    assert!(matches!(
        outcome(&receiver).expect("outcome"),
        BrokerOutcome::Completed(_)
    ));

    // Human-denied write command.
    let receiver = submitted(&mut broker, 3, "hello", HELLO_WAT, write_grant(30, 1_000_000));
    assert!(serve(&mut broker, Work::Run, 0));
    assert!(matches!(
        outcome(&receiver).expect("pending approval"),
        BrokerOutcome::PendingApproval { .. }
    ));
    let ended = broker.deny(3).expect("denial accepted");
    deliver(&ended.payload.inbox, ended.message);
    assert!(matches!(
        outcome(&receiver).expect("denied outcome"),
        BrokerOutcome::Denied(_)
    ));

    let trail = broker.audit_trail();
    assert_eq!(trail.len(), 3, "every session must be recorded");
    assert_eq!(trail[0].decision, ApprovalDecision::AutoApproved);
    assert_eq!(trail[1].decision, ApprovalDecision::Approved);
    assert_eq!(trail[2].decision, ApprovalDecision::Denied);
    assert_eq!(trail[2].outcome, AuditOutcome::Denied);
    assert_eq!(trail[0].program, "hello");
}

#[test]
fn streaming_risky_command_emits_pending_approval() {
    let mut broker = Broker::new().expect("broker");
    let events = streamed(&mut broker, 1, "hello", HELLO_WAT, write_grant(30, 1_000_000));
    assert!(serve(&mut broker, Work::Run, 0));

    assert!(matches!(
        event(&events).expect("pending approval event"),
        SessionEvent::PendingApproval {
            reason: ApprovalReason::FilesystemWrite
        }
    ));
    broker.approve(1).expect("approval accepted");
    assert!(serve(&mut broker, Work::Run, 0));
    assert_eq!(event(&events).expect("started event"), SessionEvent::Started);
    assert_eq!(
        event(&events).expect("exited event"),
        SessionEvent::Exited { code: Some(0) }
    );
}

#[test]
fn streaming_cancel_before_start_skips_a_queued_action() {
    let mut broker = Broker::new().expect("broker");
    let events_a = streamed(&mut broker, 1, "spin-a", SPIN_WAT, grant(60, 4_000_000_000));
    let events_b = streamed(&mut broker, 2, "hello-b", HELLO_WAT, grant(30, 1_000_000));

    broker.cancel(2).expect("queued session is cancellable");
    assert!(serve(&mut broker, Work::CancelMidway(1), 0));
    assert!(serve(&mut broker, Work::Run, 0));

    // b never started: its first and only event is Cancelled.
    assert_eq!(event(&events_b).expect("b terminal event"), SessionEvent::Cancelled);
    assert!(event(&events_b).is_none(), "b must not emit any further events");

    // a terminates cancelled; drain until the terminal event.
    for _ in 0..4 {
        let event = event(&events_a).expect("a event");
        if event == SessionEvent::Cancelled {
            return;
        }
    }
    panic!("a never reported cancellation");
}

#[test]
fn worker_panic_is_contained_and_the_queue_survives() {
    let mut broker = Broker::new().expect("broker");
    let receiver_a = submitted(&mut broker, 1, "spin-a", SPIN_WAT, grant(30, 1_000_000));

    // a panics inside the worker; its receiver still gets a terminal event.
    assert!(serve(&mut broker, Work::Panic, 0));
    let outcome_a = outcome(&receiver_a).expect("a terminal outcome");
    assert!(
        matches!(outcome_a, BrokerOutcome::Denied(_)),
        "panicked session must be reported denied, got {outcome_a:?}"
    );

    // The worker survived the panic: a new job still completes, and the
    // panicked session is released and recorded.
    let receiver_b = submitted(&mut broker, 2, "hello-b", HELLO_WAT, grant(30, 1_000_000));
    assert!(serve(&mut broker, Work::Run, 0));
    let outcome_b = outcome(&receiver_b).expect("b terminal outcome");
    assert!(matches!(outcome_b, BrokerOutcome::Completed(_)));

    assert!(matches!(
        broker.cancel(1),
        Err(BrokerError::UnknownSession(1))
    ));
    let trail = broker.audit_trail();
    assert!(
        trail
            .iter()
            .any(|entry| entry.id == 1 && entry.outcome == AuditOutcome::Failed),
        "panicked session must be audited"
    );
}

#[test]
fn audit_trail_keeps_at_most_max_entries() {
    let mut trail: Vec<AuditEntry> = Vec::new();
    let total = (DEFAULT_MAX_AUDIT_ENTRIES + 5) as u64;
    for id in 0..total {
        record(
            &mut trail,
            AuditEntry {
                id,
                actor: Actor::Agent,
                program: "tool".to_owned(),
                decision: ApprovalDecision::AutoApproved,
                outcome: AuditOutcome::Completed { exit_code: 0 },
            },
        );
    }
    assert_eq!(trail.len(), DEFAULT_MAX_AUDIT_ENTRIES);
    assert_eq!(trail[0].id, 5, "oldest entries are dropped first");
    assert_eq!(trail.last().expect("nonempty").id, total - 1);
}

#[test]
fn a_guest_out_of_fuel_fails() {
    let mut broker = Broker::new().expect("broker");
    let receiver = submitted(&mut broker, 1, "spin", SPIN_WAT, grant(60, 10_000));
    assert!(serve(&mut broker, Work::Run, 0));
    assert!(matches!(
        outcome(&receiver).expect("terminal outcome"),
        BrokerOutcome::Failed(RuntimeError::Wasi(_))
    ));
    assert_eq!(broker.audit_trail()[0].outcome, AuditOutcome::Failed);
}

#[test]
fn a_guest_that_wants_too_much_memory_fails() {
    let wat = r#"
        (component
          (core module $m
            (memory 4)
            (func (export "run") (result i32) (i32.const 0)))
          (core instance $i (instantiate $m))
          (func $run (result (result)) (canon lift (core func $i "run")))
          (instance (export "wasi:cli/run@0.2.12")
            (export "run" (func $run))))
    "#;
    let mut broker = Broker::new().expect("broker");
    let limits = ResourceLimits::new(1, 1)
        .expect("limits")
        .with_memory_bytes(4 * 65536 - 1)
        .expect("memory");
    let receiver =
        submitted(&mut broker, 1, "large", wat, grant(30, 1_000_000).with_limits(limits));
    assert!(serve(&mut broker, Work::Run, 0));
    match outcome(&receiver).expect("terminal outcome") {
        BrokerOutcome::Failed(RuntimeError::Wasi(error)) => {
            let text = error.to_string();
            assert!(text.contains("exceeds memory limits"), "{text}");
        }
        other => panic!("expected a failure, got {other:?}"),
    }
}

#[test]
fn a_guest_that_reports_failure_exits_with_one() {
    let wat = HELLO_WAT.replace("(i32.const 0)", "(i32.const 1)");
    let mut broker = Broker::new().expect("broker");
    let events = streamed(&mut broker, 1, "fails", &wat, grant(30, 1_000_000));
    assert!(serve(&mut broker, Work::Run, 0));
    assert_eq!(event(&events), Some(SessionEvent::Started));
    assert_eq!(event(&events), Some(SessionEvent::Exited { code: Some(1) }));
    assert_eq!(broker.audit_trail()[0].outcome, AuditOutcome::Completed { exit_code: 1 });
}

#[test]
fn invalid_and_native_requests_are_not_queued() {
    let mut broker = Broker::new().expect("broker");
    let (session, _, mut bad) = request(&broker, 1, "x", HELLO_WAT, grant(1, 1));
    bad.program = String::new();
    assert!(matches!(
        broker.submit(bad, session),
        Err(BrokerError::InvalidRequest(CommandError::InvalidProgram))
    ));
    let (session, _, mut native) =
        request(&broker, 1, "x", HELLO_WAT, grant(1, 1).allow_native_execution());
    native.mode = ExecutionMode::Native;
    assert!(matches!(
        broker.submit_streaming(native, session),
        Err(BrokerError::NotWasi)
    ));
    assert_eq!(broker.outstanding_sessions(), 0);
    assert!(broker.audit_trail().is_empty());
}

#[test]
fn a_stopped_worker_serves_nobody() {
    let mut broker = Broker::new().expect("broker");
    let receiver = submitted(&mut broker, 1, "risky", HELLO_WAT, write_grant(30, 1));
    assert!(serve(&mut broker, Work::Run, 0));
    outcome(&receiver).expect("pending approval");
    broker.stop_worker();
    let (session, _, late) = request(&broker, 1, "late", HELLO_WAT, grant(1, 1));
    assert!(matches!(broker.submit(late, session), Err(BrokerError::WorkerStopped)));
    assert_eq!(broker.outstanding_sessions(), 1, "a refused submission releases nobody");
    assert!(matches!(broker.approve(1), Err(BrokerError::WorkerStopped)));
    assert_eq!(broker.outstanding_sessions(), 0);
    assert_eq!(broker.pending_sessions(), 0);
    let trail = broker.audit_trail();
    assert_eq!(trail.len(), 1);
    assert_eq!(trail[0].decision, ApprovalDecision::Approved);
    assert_eq!(trail[0].outcome, AuditOutcome::Failed);
}

#[test]
fn a_parked_session_whose_caller_is_gone_is_withdrawn() {
    let mut broker = Broker::new().expect("broker");
    submitted(&mut broker, 1, "risky", HELLO_WAT, write_grant(30, 1));
    let job = broker.next_job().expect("queued");
    match broker.process_job(job, 0) {
        JobStep::Parked { id, .. } => assert!(broker.parked_notified(id, false).is_some()),
        _ => panic!("a risky session is parked"),
    }
    assert_eq!(broker.pending_sessions(), 0);
    assert_eq!(broker.outstanding_sessions(), 0);
    let trail = broker.audit_trail();
    assert_eq!(trail.len(), 1);
    assert_eq!(trail[0].decision, ApprovalDecision::Cancelled);
    assert_eq!(trail[0].outcome, AuditOutcome::Cancelled);
    // The turn is over: the next session can be taken.
    submitted(&mut broker, 2, "hello", HELLO_WAT, grant(30, 1_000_000));
    assert!(serve(&mut broker, Work::Run, 0));
}

#[test]
fn a_session_cancelled_before_it_was_parked_is_cancelled_on_approval() {
    let mut broker = Broker::new().expect("broker");
    let receiver = submitted(&mut broker, 1, "risky", HELLO_WAT, write_grant(30, 1));
    broker.cancel(1).expect("queued session is cancellable");
    assert!(serve(&mut broker, Work::Run, 0));
    assert!(matches!(outcome(&receiver), Some(BrokerOutcome::PendingApproval { .. })));
    match broker.approve(1).expect("decided") {
        Approval::Cancelled { payload, message } => deliver(&payload.inbox, message),
        Approval::Queued => panic!("a cancelled session is not queued"),
    }
    assert!(matches!(outcome(&receiver), Some(BrokerOutcome::Cancelled)));
    assert!(!serve(&mut broker, Work::Run, 0));
    assert_eq!(broker.audit_trail()[0].decision, ApprovalDecision::Cancelled);
}

#[test]
fn a_streamed_session_that_panics_after_its_start_ends_denied() {
    let mut broker = Broker::new().expect("broker");
    let receiver = streamed(&mut broker, 5, "torn", HELLO_WAT, grant(30, 1_000_000));
    let job = broker.next_job().expect("queued");
    let snapshot = job.snapshot();
    match broker.process_job(job, 0) {
        JobStep::Run { job, started, .. } => {
            deliver(&receiver, SinkMessage::Event(started.expect("a streamed start")));
            let chunk = SessionEvent::Output { stream: Stream::Stdout, bytes: b"half".to_vec() };
            deliver(&receiver, SinkMessage::Event(chunk));
            drop(job);
        }
        _ => panic!("a read-only session runs"),
    }
    let message = broker.contain_panic(snapshot);
    deliver(&receiver, message);
    let mut told = Vec::new();
    while let Some(next) = event(&receiver) {
        told.push(next);
    }
    assert_eq!(told.len(), 3);
    assert!(matches!(told[0], SessionEvent::Started));
    assert!(matches!(&told[1], SessionEvent::Output { bytes, .. } if bytes == b"half"));
    assert!(matches!(told[2], SessionEvent::Denied));
    assert_eq!(broker.audit_trail()[0].outcome, AuditOutcome::Failed);
    assert_eq!(broker.outstanding_sessions(), 0);
}

#[test]
fn a_session_whose_registration_is_gone_is_denied_and_recorded() {
    let mut broker = Broker::new().expect("broker");
    let receiver = submitted(&mut broker, 7, "gone", HELLO_WAT, grant(30, 1_000_000));
    let job = broker.next_job().expect("queued");
    broker.contain_panic(job.snapshot());
    match broker.process_job(job, 0) {
        JobStep::Ended { payload, message } => deliver(&payload.inbox, message),
        _ => panic!("the session is no longer registered"),
    }
    assert!(matches!(
        outcome(&receiver),
        Some(BrokerOutcome::Denied(CommandError::InvalidTransition(
            "session handle disappeared before start"
        )))
    ));
    let trail = broker.audit_trail();
    assert_eq!(trail.len(), 2);
    assert_eq!(trail[1].program, "gone");
    assert_eq!(trail[1].outcome, AuditOutcome::Denied);
}

#[test]
fn sessions_under_one_id_each_count_and_each_run() {
    let mut broker = Broker::with_capacity(2).expect("broker");
    let first = submitted(&mut broker, 7, "one", HELLO_WAT, grant(30, 1_000_000));
    let second = submitted(&mut broker, 7, "two", HELLO_WAT, grant(30, 1_000_000));
    let (session, _, third) = request(&broker, 7, "three", HELLO_WAT, grant(30, 1_000_000));
    assert!(matches!(broker.submit(third, session), Err(BrokerError::QueueFull)));
    assert_eq!(broker.outstanding_sessions(), 2);
    assert!(serve(&mut broker, Work::Run, 0));
    assert_eq!(broker.outstanding_sessions(), 1);
    assert!(serve(&mut broker, Work::Run, 0));
    assert!(matches!(outcome(&first), Some(BrokerOutcome::Completed(_))));
    assert!(matches!(outcome(&second), Some(BrokerOutcome::Completed(_))));
    assert_eq!(broker.outstanding_sessions(), 0);
    assert_eq!(broker.audit_trail().len(), 2);
}

#[test]
fn sessions_parked_under_one_id_are_decided_one_by_one() {
    let mut broker = Broker::new().expect("broker");
    let receivers: Vec<Inbox> = (0..3)
        .map(|_| submitted(&mut broker, 7, "risky", HELLO_WAT, write_grant(30, 1_000_000)))
        .collect();
    for _ in 0..3 {
        assert!(serve(&mut broker, Work::Run, 0));
    }
    assert_eq!(broker.pending_sessions(), 3);
    for receiver in &receivers {
        assert!(matches!(outcome(receiver), Some(BrokerOutcome::PendingApproval { .. })));
    }
    let ended = broker.deny(7).expect("the first is denied");
    deliver(&ended.payload.inbox, ended.message);
    assert!(matches!(outcome(&receivers[0]), Some(BrokerOutcome::Denied(_))));
    broker.approve(7).expect("the second is approved");
    assert!(serve(&mut broker, Work::Run, 0));
    assert!(matches!(outcome(&receivers[1]), Some(BrokerOutcome::Completed(_))));
    let cancellation = broker.cancel(7).expect("the third is cancelled");
    for ended in cancellation.ended {
        deliver(&ended.payload.inbox, ended.message);
    }
    assert!(matches!(outcome(&receivers[2]), Some(BrokerOutcome::Cancelled)));
    assert_eq!(broker.outstanding_sessions(), 0);
    assert_eq!(broker.audit_trail().len(), 3);
    assert!(matches!(broker.cancel(7), Err(BrokerError::UnknownSession(7))));
}

#[test]
fn a_cancellation_reaches_every_session_under_its_id() {
    let mut broker = Broker::new().expect("broker");
    let parked = submitted(&mut broker, 7, "risky", HELLO_WAT, write_grant(30, 1_000_000));
    assert!(serve(&mut broker, Work::Run, 0));
    outcome(&parked).expect("pending approval");
    let queued = submitted(&mut broker, 7, "queued", HELLO_WAT, grant(30, 1_000_000));
    let other = submitted(&mut broker, 8, "other", HELLO_WAT, grant(30, 1_000_000));
    let cancellation = broker.cancel(7).expect("live");
    assert_eq!(cancellation.ended.len(), 1);
    assert!(cancellation.signal.is_none());
    assert!(serve(&mut broker, Work::Run, 0));
    assert!(serve(&mut broker, Work::Run, 0));
    assert!(matches!(outcome(&queued), Some(BrokerOutcome::Cancelled)));
    assert!(matches!(outcome(&other), Some(BrokerOutcome::Completed(_))));
}

#[test]
fn shutdown_hands_out_the_signal_of_the_running_session() {
    let mut broker = Broker::new().expect("broker");
    submitted(&mut broker, 1, "spin", SPIN_WAT, grant(60, 4_000_000_000));
    let job = broker.next_job().expect("queued");
    match broker.process_job(job, 0) {
        JobStep::Run { cancel, .. } => {
            assert!(!cancel.is_cancelled());
            let signal = broker.cancel_all().expect("a session is running");
            assert!(signal.is_cancelled());
            assert!(cancel.is_cancelled());
        }
        _ => panic!("a read-only session runs"),
    }
}

#[test]
fn a_session_that_already_ran_cannot_start_again() {
    let mut broker = Broker::new().expect("broker");
    submitted(&mut broker, 1, "hello", HELLO_WAT, grant(30, 1_000_000));
    let mut job = broker.next_job().expect("queued");
    job.session.accept(SessionEvent::Started).expect("starts");
    match broker.process_job(job, 0) {
        JobStep::Ended { message, .. } => assert!(matches!(
            message,
            SinkMessage::Outcome(BrokerOutcome::Denied(CommandError::InvalidTransition(
                "session cannot start"
            )))
        )),
        _ => panic!("a running session cannot start"),
    }
    assert_eq!(broker.outstanding_sessions(), 0);
}

#[test]
fn cancelling_everything_reaches_queued_sessions() {
    let mut broker = Broker::new().expect("broker");
    let receivers: Vec<Inbox> = (1..=3)
        .map(|id| submitted(&mut broker, id, "spin", SPIN_WAT, grant(60, 4_000_000_000)))
        .collect();
    broker.cancel_all();
    while serve(&mut broker, Work::Run, 0) {}
    for receiver in &receivers {
        assert!(matches!(outcome(receiver), Some(BrokerOutcome::Cancelled)));
    }
    assert_eq!(broker.outstanding_sessions(), 0);
    assert_eq!(broker.audit_trail().len(), 3);
}

#[test]
fn sweeping_leaves_other_parked_sessions_alone() {
    let mut broker = Broker::with_config(8, 100).expect("broker");
    let early = streamed(&mut broker, 1, "early", HELLO_WAT, write_grant(30, 1));
    let late = streamed(&mut broker, 2, "late", HELLO_WAT, write_grant(30, 1_000_000));
    assert!(serve(&mut broker, Work::Run, 0));
    assert!(serve(&mut broker, Work::Run, 50));
    let ended = broker.sweep(100);
    assert_eq!(ended.len(), 1);
    for session in ended {
        deliver(&session.payload.inbox, session.message);
    }
    assert!(matches!(event(&early), Some(SessionEvent::PendingApproval { .. })));
    assert_eq!(event(&early), Some(SessionEvent::Denied));
    assert_eq!(broker.pending_sessions(), 1);
    broker.approve(2).expect("still parked");
    assert!(serve(&mut broker, Work::Run, 60));
    assert!(matches!(event(&late), Some(SessionEvent::PendingApproval { .. })));
    assert_eq!(event(&late), Some(SessionEvent::Started));
    assert_eq!(event(&late), Some(SessionEvent::Exited { code: Some(0) }));
}

#[test]
fn backend_results_are_reported_in_both_modes() {
    let mut broker = Broker::new().expect("broker");
    let results: Vec<fn() -> Result<WasiOutput, RuntimeError>> = vec![
        || Ok(WasiOutput { stdout: b"o".to_vec(), stderr: vec![], exit_code: 3 }),
        || Err(RuntimeError::Cancelled),
        || Err(RuntimeError::WrongMode),
        || Err(RuntimeError::Command(CommandError::InvalidProgram)),
    ];
    for (index, result) in results.iter().enumerate() {
        let id = index as u64;
        let captured = submitted(&mut broker, id, "c", HELLO_WAT, grant(30, 1));
        let events = streamed(&mut broker, id, "s", HELLO_WAT, grant(30, 1));
        for _ in 0..2 {
            let job = broker.next_job().expect("queued");
            let ended = broker.finish_job(job, result());
            deliver(&ended.payload.inbox, ended.message);
        }
        let expected = match (outcome(&captured), event(&events)) {
            (Some(BrokerOutcome::Completed(output)), Some(SessionEvent::Exited { code })) => {
                assert_eq!((output.exit_code, code), (3, Some(3)));
                assert_eq!(output.stdout, b"o");
                (0, AuditOutcome::Completed { exit_code: 3 })
            }
            (Some(BrokerOutcome::Cancelled), Some(SessionEvent::Cancelled)) => {
                (1, AuditOutcome::Cancelled)
            }
            (
                Some(BrokerOutcome::Denied(CommandError::InvalidTransition(
                    "non-WASI request reached the WASI backend",
                ))),
                Some(SessionEvent::Denied),
            ) => (2, AuditOutcome::Denied),
            (
                Some(BrokerOutcome::Failed(RuntimeError::Command(CommandError::InvalidProgram))),
                Some(SessionEvent::Unsupported),
            ) => (3, AuditOutcome::Failed),
            other => panic!("unexpected report {other:?}"),
        };
        assert_eq!(expected.0, index);
        let trail = broker.audit_trail();
        assert!(trail.iter().rev().take(2).all(|entry| entry.outcome == expected.1));
    }
}

#[test]
fn terminal_signals_have_a_message_in_each_mode() {
    let error = || CommandError::OutputLimit;
    assert!(matches!(
        terminal_message(JobSink::Outcome, Terminal::Denied),
        SinkMessage::Outcome(BrokerOutcome::Denied(CommandError::InvalidTransition(
            "request denied by policy"
        )))
    ));
    assert!(matches!(
        terminal_message(JobSink::Outcome, Terminal::DeniedWith(error())),
        SinkMessage::Outcome(BrokerOutcome::Denied(CommandError::OutputLimit))
    ));
    assert!(matches!(
        terminal_message(JobSink::Outcome, Terminal::Cancelled),
        SinkMessage::Outcome(BrokerOutcome::Cancelled)
    ));
    assert!(matches!(
        terminal_message(JobSink::Events, Terminal::DeniedWith(error())),
        SinkMessage::Event(SessionEvent::Denied)
    ));
    assert!(matches!(
        terminal_message(JobSink::Events, Terminal::Denied),
        SinkMessage::Event(SessionEvent::Denied)
    ));
    assert!(matches!(
        terminal_message(JobSink::Events, Terminal::Cancelled),
        SinkMessage::Event(SessionEvent::Cancelled)
    ));
}

#[test]
fn a_broker_needs_a_runtime() {
    let failed = Err(RuntimeError::Engine(wasmtime::Error::msg("no engine")));
    assert!(matches!(
        Broker::with_runtime(1, 1, failed),
        Err(BrokerError::Runtime(RuntimeError::Engine(_)))
    ));
    let failed = Err(RuntimeError::Engine(wasmtime::Error::msg("no engine")));
    assert!(matches!(
        Broker::with_runtime(0, 1, failed),
        Err(BrokerError::InvalidCapacity)
    ));
    let runtime = WasiRuntime::new().expect("runtime");
    let engine = runtime.engine().clone();
    let broker = Broker::with_runtime(1, 1, Ok(runtime)).expect("broker");
    assert!(Engine::same(broker.runtime().engine(), &engine));
    assert!(matches!(
        broker.compile_component(b"garbage"),
        Err(RuntimeError::Component(_))
    ));
}

#[test]
fn defaults_are_as_documented() {
    assert_eq!(DEFAULT_MAX_OUTSTANDING_SESSIONS, 64);
    assert_eq!(DEFAULT_APPROVAL_TIMEOUT, 30_000_000_000);
    assert_eq!(DEFAULT_MAX_AUDIT_ENTRIES, 4096);
}

#[test]
fn broker_errors_say_what_is_wrong() {
    let texts = [
        (BrokerError::UnknownSession(0), "no live session with id 0"),
        (
            BrokerError::UnknownSession(u64::MAX),
            "no live session with id 18446744073709551615",
        ),
        (BrokerError::WorkerStopped, "the broker worker stopped unexpectedly"),
        (BrokerError::NotWasi, "the broker currently executes WASI requests only"),
        (
            BrokerError::InvalidRequest(CommandError::InvalidArgument),
            "invalid request: invalid command argument",
        ),
        (
            BrokerError::Runtime(RuntimeError::WrongMode),
            "runtime failure: WASI backend received a non-WASI request",
        ),
        (
            BrokerError::QueueFull,
            "broker capacity exceeded; cancel or wait for a running session",
        ),
        (BrokerError::InvalidCapacity, "broker capacity must be greater than zero"),
        (BrokerError::NotPendingApproval(1234567890), "no session with id 1234567890 is awaiting approval"),
    ];
    for (error, text) in texts {
        assert_eq!(error.message(), text);
    }
}
