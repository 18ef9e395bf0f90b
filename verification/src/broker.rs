//! The action broker: serializes execution, gates risky actions on human
//! approval, and records an audit trail.
//!
//! At most one session executes at a time, so commands targeting one terminal
//! never interleave. Each submitted session owns a [`CancelHandle`] registered
//! under its session id. Risky requests (filesystem writes, network, environment,
//! native) are parked awaiting approval: the caller receives
//! [`BrokerOutcome::PendingApproval`] (or [`SessionEvent::PendingApproval`]) and
//! must call [`ActionBroker::approve`] or [`ActionBroker::deny`]. Unanswered
//! approvals expire when [`ActionBroker::sweep`] finds them past their deadline.
//! Every terminal session records an [`AuditEntry`].
//!
//! The broker decides; whoever owns it runs guests, sends the messages it hands
//! out, and reports back what happened.

use std::collections::VecDeque;

use vstd::prelude::*;

use wasmtime::component::Component;

use crate::cancel::{law_tickets_tell_what_was_cancelled, CancelHandle};
use crate::command::{
    Actor, ApprovalReason, CommandError, CommandErrorView, CommandRequest, ExecutionMode,
    RequestView, SessionEvent, SessionState, SessionView,
};
use crate::policy::{classify_risk, Risk};
use crate::runtime::{
    component_engine, component_source, engine_config, may_compile, may_create, production_config,
    RuntimeError, RuntimeErrorView, WasiOutput, WasiRuntime,
};
use crate::text::{decimal, labelled, show_decimal};

pub use crate::cancel::Ticket;

verus! {

/// Maximum number of sessions a broker will hold before rejecting submissions.
///
/// The bound protects the host from a runaway agent flooding the queue with
/// unacknowledged work; sessions are released as they complete.
pub const DEFAULT_MAX_OUTSTANDING_SESSIONS: usize = 64;

/// How long a parked approval waits before it is auto-denied, in nanoseconds.
pub const DEFAULT_APPROVAL_TIMEOUT: u128 = 30_000_000_000;

/// Upper bound on recorded audit entries. The trail is a debugging and
/// accountability surface, not a datastore: once full, the oldest entries are
/// dropped so a long-lived IDE cannot grow memory without bound.
pub const DEFAULT_MAX_AUDIT_ENTRIES: usize = 4096;

/// Errors produced while interacting with the broker.
#[derive(Debug)]
pub enum BrokerError {
    /// The session id is not a *live* session of this broker (never submitted,
    /// or already finished and released).
    UnknownSession(u64),
    /// The worker stopped, so the queue is no longer served.
    WorkerStopped,
    /// The broker only executes WASI requests.
    NotWasi,
    /// The request failed validation.
    InvalidRequest(CommandError),
    /// The underlying runtime could not be created or configured.
    Runtime(RuntimeError),
    /// The number of outstanding sessions would exceed the broker capacity.
    QueueFull,
    /// The broker capacity must be greater than zero.
    InvalidCapacity,
    /// The session is not parked awaiting approval, so it cannot be approved
    /// or denied.
    NotPendingApproval(u64),
}

/// What a [`BrokerError`] stands for.
pub enum BrokerErrorView {
    /// The session id is not a live session.
    UnknownSession(u64),
    /// The worker stopped.
    WorkerStopped,
    /// The broker only executes WASI requests.
    NotWasi,
    /// The request failed validation.
    InvalidRequest(CommandErrorView),
    /// The underlying runtime could not be created or configured.
    Runtime(RuntimeErrorView),
    /// The number of outstanding sessions would exceed the broker capacity.
    QueueFull,
    /// The broker capacity must be greater than zero.
    InvalidCapacity,
    /// The session is not parked awaiting approval.
    NotPendingApproval(u64),
}

impl View for BrokerError {
    type V = BrokerErrorView;

    open spec fn view(&self) -> BrokerErrorView {
        match self {
            BrokerError::UnknownSession(id) => BrokerErrorView::UnknownSession(*id),
            BrokerError::WorkerStopped => BrokerErrorView::WorkerStopped,
            BrokerError::NotWasi => BrokerErrorView::NotWasi,
            BrokerError::InvalidRequest(error) => BrokerErrorView::InvalidRequest(error@),
            BrokerError::Runtime(error) => BrokerErrorView::Runtime(error@),
            BrokerError::QueueFull => BrokerErrorView::QueueFull,
            BrokerError::InvalidCapacity => BrokerErrorView::InvalidCapacity,
            BrokerError::NotPendingApproval(id) => BrokerErrorView::NotPendingApproval(*id),
        }
    }
}

impl BrokerErrorView {
    /// Whether a text is what Wasmtime may show for the error inside, if there is one.
    pub open spec fn may_show_cause(self, shown: Seq<char>) -> bool {
        match self {
            BrokerErrorView::Runtime(error) => error.may_show_cause(shown),
            _ => true,
        }
    }

    /// The text for the error, where an error of Wasmtime inside it is shown as `shown`.
    pub open spec fn message_with(self, shown: Seq<char>) -> Seq<char> {
        match self {
            BrokerErrorView::UnknownSession(id) => "no live session with id "@ + decimal(id as nat),
            BrokerErrorView::WorkerStopped => "the broker worker stopped unexpectedly"@,
            BrokerErrorView::NotWasi => "the broker currently executes WASI requests only"@,
            BrokerErrorView::InvalidRequest(error) => "invalid request: "@ + error.message(),
            BrokerErrorView::Runtime(error) => "runtime failure: "@ + error.message_with(shown),
            BrokerErrorView::QueueFull =>
                "broker capacity exceeded; cancel or wait for a running session"@,
            BrokerErrorView::InvalidCapacity => "broker capacity must be greater than zero"@,
            BrokerErrorView::NotPendingApproval(id) => "no session with id "@ + decimal(id as nat)
                + " is awaiting approval"@,
        }
    }
}

impl BrokerError {
    /// The text shown for the error.
    ///
    /// How Wasmtime shows an error of its own is not fixed; the rest of the text is.
    pub fn message(&self) -> (text: String)
        ensures
            exists|shown: Seq<char>|
                text@ == #[trigger] self@.message_with(shown) && self@.may_show_cause(shown),
    {
        let shown = match self {
            BrokerError::Runtime(error) => error.cause_text(),
            _ => String::new(),
        };
        self.message_with(shown)
    }

    /// The text for the error, where an error of Wasmtime inside it is shown as `shown`.
    pub fn message_with(&self, shown: String) -> (text: String)
        ensures
            text@ == self@.message_with(shown@),
    {
        match self {
            BrokerError::UnknownSession(id) => labelled(
                "no live session with id ",
                show_decimal(*id),
            ),
            BrokerError::WorkerStopped => "the broker worker stopped unexpectedly".to_owned(),
            BrokerError::NotWasi => "the broker currently executes WASI requests only".to_owned(),
            BrokerError::InvalidRequest(error) => labelled("invalid request: ", error.message()),
            BrokerError::Runtime(error) => labelled("runtime failure: ", error.message_with(shown)),
            BrokerError::QueueFull =>
                "broker capacity exceeded; cancel or wait for a running session".to_owned(),
            BrokerError::InvalidCapacity => "broker capacity must be greater than zero".to_owned(),
            BrokerError::NotPendingApproval(id) => {
                let named = labelled("no session with id ", show_decimal(*id));
                labelled(named.as_str(), " is awaiting approval".to_owned())
            },
        }
    }
}

/// Final (or intermediate) result of one broker-managed session.
///
/// A session that requires approval emits [`BrokerOutcome::PendingApproval`]
/// first, then a terminal outcome once the human decides; all other sessions
/// emit exactly one terminal outcome.
#[derive(Debug)]
pub enum BrokerOutcome {
    /// The guest completed and its captured output is available.
    Completed(WasiOutput),
    /// The session is parked waiting for a human approval decision.
    PendingApproval {
        /// Why this session needs approval.
        reason: ApprovalReason,
    },
    /// The session was cancelled before the guest completed.
    Cancelled,
    /// The request was denied before it could start.
    Denied(CommandError),
    /// The backend failed; the guest may have been interrupted by a limit.
    Failed(RuntimeError),
}

/// How the broker admitted (or rejected) a session, recorded for audit.
#[derive(Clone, Copy, Debug, PartialEq, Eq, Structural)]
pub enum ApprovalDecision {
    /// Ran without approval because the request was low-risk.
    AutoApproved,
    /// A human approved the parked request.
    Approved,
    /// A human denied the parked request.
    Denied,
    /// The parked request was auto-denied after the approval timeout.
    TimedOut,
    /// The parked request was cancelled before a decision was made.
    Cancelled,
}

/// Terminal state of a session, recorded for audit.
#[derive(Clone, Copy, Debug, PartialEq, Eq, Structural)]
pub enum AuditOutcome {
    /// The guest finished with an exit code.
    Completed {
        /// The guest's exit code.
        exit_code: i32,
    },
    /// The session was cancelled.
    Cancelled,
    /// The request was denied before it ran.
    Denied,
    /// The backend failed while the guest ran.
    Failed,
}

/// One recorded decision about a session.
#[derive(Debug, PartialEq, Eq)]
pub struct AuditEntry {
    /// Session identifier.
    pub id: u64,
    /// Requesting principal.
    pub actor: Actor,
    /// Executable/component name.
    pub program: String,
    /// How the session was admitted.
    pub decision: ApprovalDecision,
    /// How the session ended.
    pub outcome: AuditOutcome,
}

/// What an [`AuditEntry`] stands for.
#[verifier::ext_equal]
pub struct AuditView {
    /// Session identifier.
    pub id: u64,
    /// Requesting principal.
    pub actor: Actor,
    /// Executable/component name.
    pub program: Seq<char>,
    /// How the session was admitted.
    pub decision: ApprovalDecision,
    /// How the session ended.
    pub outcome: AuditOutcome,
}

impl View for AuditEntry {
    type V = AuditView;

    open spec fn view(&self) -> AuditView {
        AuditView {
            id: self.id,
            actor: self.actor,
            program: self.program@,
            decision: self.decision,
            outcome: self.outcome,
        }
    }
}

impl Clone for AuditEntry {
    fn clone(&self) -> (copy: Self)
        ensures
            copy@ == self@,
    {
        AuditEntry {
            id: self.id,
            actor: self.actor,
            program: self.program.clone(),
            decision: self.decision,
            outcome: self.outcome,
        }
    }
}

/// The views of a list of audit entries.
pub open spec fn audit_views(list: Seq<AuditEntry>) -> Seq<AuditView> {
    list.map_values(|entry: AuditEntry| entry@)
}

/// The newest entries of a trail, as many as are kept.
pub open spec fn newest(trail: Seq<AuditView>) -> Seq<AuditView> {
    if trail.len() > DEFAULT_MAX_AUDIT_ENTRIES {
        trail.skip(trail.len() - DEFAULT_MAX_AUDIT_ENTRIES)
    } else {
        trail
    }
}

/// Append one audit entry, dropping the oldest once the cap is reached.
pub fn record(trail: &mut Vec<AuditEntry>, entry: AuditEntry)
    ensures
        audit_views(final(trail)@) == newest(audit_views(old(trail)@).push(entry@)),
        final(trail)@.len() <= DEFAULT_MAX_AUDIT_ENTRIES,
{
    let ghost all = audit_views(trail@).push(entry@);
    trail.push(entry);
    assert(audit_views(trail@) =~= all.skip(0));
    let ghost mut dropped: int = 0;
    while trail.len() > DEFAULT_MAX_AUDIT_ENTRIES
        invariant
            0 <= dropped,
            trail@.len() == all.len() - dropped,
            dropped > 0 ==> trail@.len() >= DEFAULT_MAX_AUDIT_ENTRIES,
            audit_views(trail@) == all.skip(dropped),
        decreases trail.len(),
    {
        let ghost before = audit_views(trail@);
        trail.remove(0);
        assert(audit_views(trail@) =~= before.skip(1));
        assert(before.skip(1) =~= all.skip(dropped + 1));
        proof {
            dropped = dropped + 1;
        }
    }
    assert(all.skip(0) =~= all);
}

/// Where a session reports.
#[derive(Clone, Copy, Debug, PartialEq, Eq, Structural)]
pub enum JobSink {
    /// Capturing mode: one terminal [`BrokerOutcome`] at the end.
    Outcome,
    /// Streaming mode: live [`SessionEvent`]s in lifecycle order.
    Events,
}

/// One message for the caller of a session.
#[derive(Debug)]
pub enum SinkMessage {
    /// A message in capturing mode.
    Outcome(BrokerOutcome),
    /// A message in streaming mode.
    Event(SessionEvent),
}

/// Terminal signals a session can receive without running.
pub enum Terminal {
    /// Cancelled by the operator or policy.
    Cancelled,
    /// Denied (by the human or the approval timeout).
    Denied,
    /// Denied with a specific error.
    DeniedWith(CommandError),
}

/// The message that carries a terminal signal.
pub open spec fn terminal_message_of(sink: JobSink, terminal: Terminal) -> SinkMessage {
    match sink {
        JobSink::Outcome => SinkMessage::Outcome(
            match terminal {
                Terminal::Cancelled => BrokerOutcome::Cancelled,
                Terminal::Denied => BrokerOutcome::Denied(
                    CommandError::InvalidTransition("request denied by policy"),
                ),
                Terminal::DeniedWith(error) => BrokerOutcome::Denied(error),
            },
        ),
        JobSink::Events => SinkMessage::Event(
            match terminal {
                Terminal::Cancelled => SessionEvent::Cancelled,
                Terminal::Denied => SessionEvent::Denied,
                Terminal::DeniedWith(error) => SessionEvent::Denied,
            },
        ),
    }
}

/// The message that tells a caller that running its session panicked.
pub open spec fn panic_message_of(sink: JobSink) -> SinkMessage {
    terminal_message_of(
        sink,
        Terminal::DeniedWith(
            CommandError::InvalidTransition("worker panic while executing session"),
        ),
    )
}

/// The message that carries a terminal signal.
pub fn terminal_message(sink: JobSink, terminal: Terminal) -> (message: SinkMessage)
    ensures
        message == terminal_message_of(sink, terminal),
{
    match (sink, terminal) {
        (JobSink::Outcome, Terminal::Cancelled) => SinkMessage::Outcome(BrokerOutcome::Cancelled),
        (JobSink::Outcome, Terminal::Denied) => SinkMessage::Outcome(
            BrokerOutcome::Denied(CommandError::InvalidTransition("request denied by policy")),
        ),
        (JobSink::Outcome, Terminal::DeniedWith(error)) => SinkMessage::Outcome(
            BrokerOutcome::Denied(error),
        ),
        (JobSink::Events, Terminal::Cancelled) => SinkMessage::Event(SessionEvent::Cancelled),
        (JobSink::Events, Terminal::Denied | Terminal::DeniedWith(_)) => SinkMessage::Event(
            SessionEvent::Denied,
        ),
    }
}

/// The message that a session waits for approval.
pub open spec fn pending_message_of(sink: JobSink, reason: ApprovalReason) -> SinkMessage {
    match sink {
        JobSink::Outcome => SinkMessage::Outcome(BrokerOutcome::PendingApproval { reason }),
        JobSink::Events => SinkMessage::Event(SessionEvent::PendingApproval { reason }),
    }
}

/// How a run is recorded.
pub open spec fn audit_outcome_of(result: Result<WasiOutput, RuntimeError>) -> AuditOutcome {
    match result {
        Ok(output) => AuditOutcome::Completed { exit_code: output.exit_code },
        Err(RuntimeError::Cancelled) => AuditOutcome::Cancelled,
        Err(RuntimeError::WrongMode) => AuditOutcome::Denied,
        Err(_) => AuditOutcome::Failed,
    }
}

/// What the caller of a session is told about its run.
pub open spec fn run_message_of(
    sink: JobSink,
    result: Result<WasiOutput, RuntimeError>,
) -> SinkMessage {
    match sink {
        JobSink::Outcome => SinkMessage::Outcome(
            match result {
                Ok(output) => BrokerOutcome::Completed(output),
                Err(RuntimeError::Cancelled) => BrokerOutcome::Cancelled,
                Err(RuntimeError::WrongMode) => BrokerOutcome::Denied(
                    CommandError::InvalidTransition("non-WASI request reached the WASI backend"),
                ),
                Err(error) => BrokerOutcome::Failed(error),
            },
        ),
        JobSink::Events => SinkMessage::Event(
            match result {
                Ok(output) => SessionEvent::Exited { code: Some(output.exit_code) },
                Err(RuntimeError::Cancelled) => SessionEvent::Cancelled,
                Err(RuntimeError::WrongMode) => SessionEvent::Denied,
                Err(_) => SessionEvent::Unsupported,
            },
        ),
    }
}

/// One queued, parked, or running execution.
///
/// The payload is what the owner of the broker needs to run the session and to reach its caller.
#[derive(Debug)]
pub struct Job<P> {
    /// What to run.
    pub request: CommandRequest,
    /// What the owner of the broker keeps with the session.
    pub payload: P,
    /// Where the session reports.
    pub sink: JobSink,
    /// Where the session stands.
    pub session: SessionState,
    /// How this job was admitted; recorded in the audit trail at completion.
    pub admission: ApprovalDecision,
}

/// What a [`Job`] stands for.
#[verifier::ext_equal]
pub struct JobView<P> {
    /// What to run.
    pub request: RequestView,
    /// What the owner of the broker keeps with the session.
    pub payload: P,
    /// Where the session reports.
    pub sink: JobSink,
    /// Where the session stands.
    pub session: SessionView,
    /// How this job was admitted.
    pub admission: ApprovalDecision,
}

impl<P> View for Job<P> {
    type V = JobView<P>;

    open spec fn view(&self) -> JobView<P> {
        JobView {
            request: self.request@,
            payload: self.payload,
            sink: self.sink,
            session: self.session@,
            admission: self.admission,
        }
    }
}

impl<P> JobView<P> {
    /// A session as it is submitted.
    pub open spec fn submitted(request: RequestView, payload: P, sink: JobSink) -> JobView<P> {
        JobView {
            request,
            payload,
            sink,
            session: SessionView::created(request.id, request.grant.limits),
            admission: ApprovalDecision::AutoApproved,
        }
    }

    /// The audit entry for a decision and an outcome of this session.
    pub open spec fn entry(self, decision: ApprovalDecision, outcome: AuditOutcome) -> AuditView {
        AuditView {
            id: self.request.id,
            actor: self.request.actor,
            program: self.request.program,
            decision,
            outcome,
        }
    }

    /// Whether the session has to wait for a human, and why.
    pub open spec fn must_wait(self) -> Option<ApprovalReason> {
        match self.request.risk() {
            Risk::RequiresApproval(reason) => if self.admission == ApprovalDecision::Approved {
                None
            } else {
                Some(reason)
            },
            Risk::AutoApprove => None,
        }
    }

    /// The session once a human approved it.
    pub open spec fn approved(self) -> JobView<P> {
        JobView { admission: ApprovalDecision::Approved, ..self }
    }

    /// The session once it is parked.
    pub open spec fn parked(self, reason: ApprovalReason) -> JobView<P> {
        JobView {
            session: self.session.after_or_same(SessionEvent::PendingApproval { reason }),
            ..self
        }
    }
}

/// A job waiting for its turn.
#[derive(Debug)]
struct QueuedJob<P> {
    job: Job<P>,
    ticket: Ticket,
}

/// What a queued job stands for.
#[verifier::ext_equal]
pub struct QueuedView<P> {
    /// The waiting session.
    pub job: JobView<P>,
    /// Its place in the broker.
    pub ticket: Ticket,
}

impl<P> View for QueuedJob<P> {
    type V = QueuedView<P>;

    closed spec fn view(&self) -> QueuedView<P> {
        QueuedView { job: self.job@, ticket: self.ticket }
    }
}

/// A job parked awaiting human approval.
#[derive(Debug)]
struct PendingJob<P> {
    job: Job<P>,
    deadline: u128,
    ticket: Ticket,
}

/// What a parked job stands for.
#[verifier::ext_equal]
pub struct PendingView<P> {
    /// The parked session.
    pub job: JobView<P>,
    /// When it expires, in nanoseconds.
    pub deadline: nat,
    /// Its place in the broker.
    pub ticket: Ticket,
}

impl<P> View for PendingJob<P> {
    type V = PendingView<P>;

    closed spec fn view(&self) -> PendingView<P> {
        PendingView { job: self.job@, deadline: self.deadline as nat, ticket: self.ticket }
    }
}

/// The views of a queue.
spec fn queued_views<P>(list: Seq<QueuedJob<P>>) -> Seq<QueuedView<P>> {
    list.map_values(|queued: QueuedJob<P>| queued@)
}

/// The views of a list of parked jobs.
spec fn pending_views<P>(list: Seq<PendingJob<P>>) -> Seq<PendingView<P>> {
    list.map_values(|pending: PendingJob<P>| pending@)
}

/// The session that is being worked on.
#[derive(Debug)]
pub struct Taken {
    /// Session identifier.
    pub id: u64,
    /// Its place in the broker.
    pub ticket: Ticket,
}

/// Serializes execution behind one queue, gates risky actions on human
/// approval, and exposes per-session cancellation.
///
/// Each submission is a session of its own, whatever its id: it counts against the capacity, owns
/// its signal and ends by itself. A decision on an id goes to the session parked first under it; a
/// cancellation goes to every session under it.
pub struct ActionBroker<P> {
    runtime: WasiRuntime,
    capacity: usize,
    approval_timeout: u128,
    worker_stopped: bool,
    taken: Option<Taken>,
    queue: VecDeque<QueuedJob<P>>,
    pending: Vec<PendingJob<P>>,
    audit: Vec<AuditEntry>,
}

/// What an [`ActionBroker`] stands for.
#[verifier::ext_equal]
pub struct BrokerView<P> {
    /// How many sessions are held at most.
    pub capacity: nat,
    /// How long a parked session waits, in nanoseconds.
    pub approval_timeout: nat,
    /// Whether the queue is no longer served.
    pub worker_stopped: bool,
    /// The session that was taken from the queue and has not ended or been parked.
    pub taken: Option<Taken>,
    /// Sessions waiting for their turn, first one first.
    pub queue: Seq<QueuedView<P>>,
    /// Sessions parked awaiting approval, in the order in which they were parked.
    pub pending: Seq<PendingView<P>>,
    /// The audit trail, oldest entry first.
    pub audit: Seq<AuditView>,
}

/// What happens to a session whose turn has come.
pub enum Turn {
    /// Its registration is gone.
    Vanished,
    /// It waits for a human.
    Wait(ApprovalReason),
    /// It was cancelled before it started.
    CancelledBeforeStart,
    /// Its lifecycle does not let it start.
    CannotStart,
    /// It runs.
    Run,
}

/// What ends parked sessions without a decision.
#[derive(Clone, Copy, Debug)]
pub enum Ending {
    /// Every session under an id is cancelled.
    Cancelled(u64),
    /// Every session whose deadline has come by this time, in nanoseconds, expires.
    Expired(u128),
}

impl Ending {
    /// Whether a parked session is ended.
    pub open spec fn selects<P>(self, pending: PendingView<P>) -> bool {
        match self {
            Ending::Cancelled(id) => pending.job.request.id == id,
            Ending::Expired(now) => pending.deadline <= now,
        }
    }

    /// What is recorded of a session that is ended.
    pub open spec fn entry<P>(self, pending: PendingView<P>) -> AuditView {
        match self {
            Ending::Cancelled(_) => pending.job.entry(
                ApprovalDecision::Cancelled,
                AuditOutcome::Cancelled,
            ),
            Ending::Expired(_) => pending.job.entry(
                ApprovalDecision::TimedOut,
                AuditOutcome::Denied,
            ),
        }
    }

    /// What the caller of a session that is ended is told.
    pub open spec fn message(self, sink: JobSink) -> SinkMessage {
        match self {
            Ending::Cancelled(_) => terminal_message_of(sink, Terminal::Cancelled),
            Ending::Expired(_) => terminal_message_of(sink, Terminal::Denied),
        }
    }

    /// The parked sessions that are ended, in order.
    pub open spec fn ended<P>(self, pending: Seq<PendingView<P>>) -> Seq<PendingView<P>> {
        pending.filter(|one: PendingView<P>| self.selects(one))
    }

    /// The parked sessions that stay, in order.
    pub open spec fn kept<P>(self, pending: Seq<PendingView<P>>) -> Seq<PendingView<P>> {
        pending.filter(|one: PendingView<P>| !self.selects(one))
    }

    /// What is recorded of a list of sessions that are ended.
    pub open spec fn entries<P>(self, ended: Seq<PendingView<P>>) -> Seq<AuditView> {
        ended.map_values(|one: PendingView<P>| self.entry(one))
    }

    /// What is handed out for a list of sessions that are ended.
    pub open spec fn notices<P>(self, ended: Seq<PendingView<P>>) -> Seq<EndedSession<P>> {
        ended.map_values(
            |one: PendingView<P>|
                EndedSession { payload: one.job.payload, message: self.message(one.job.sink) },
        )
    }
}

/// Whether a cancellation of one id, or of everything, concerns an id.
pub open spec fn concerns(who: Option<u64>, id: u64) -> bool {
    match who {
        Some(one) => one == id,
        None => true,
    }
}

/// A queue once the sessions concerned were cancelled.
pub open spec fn marked_queue<P>(queue: Seq<QueuedView<P>>, who: Option<u64>) -> Seq<QueuedView<P>> {
    queue.map_values(
        |queued: QueuedView<P>|
            if concerns(who, queued.job.request.id) {
                QueuedView { ticket: queued.ticket.marked(), ..queued }
            } else {
                queued
            },
    )
}

/// Parked sessions once all of them were cancelled.
pub open spec fn marked_pending<P>(pending: Seq<PendingView<P>>) -> Seq<PendingView<P>> {
    pending.map_values(
        |one: PendingView<P>| PendingView { ticket: one.ticket.marked(), ..one },
    )
}

impl<P> BrokerView<P> {
    /// A broker that holds nothing.
    pub open spec fn fresh(capacity: nat, approval_timeout: nat) -> BrokerView<P> {
        BrokerView {
            capacity,
            approval_timeout,
            worker_stopped: false,
            taken: None,
            queue: Seq::empty(),
            pending: Seq::empty(),
            audit: Seq::empty(),
        }
    }

    /// How many sessions are held: queued, parked, or being worked on.
    pub open spec fn held(self) -> nat {
        self.queue.len() + self.pending.len() + if self.taken is Some {
            1nat
        } else {
            0nat
        }
    }

    /// What every broker keeps: a real capacity that is never exceeded, and a bounded audit trail.
    pub open spec fn valid(self) -> bool {
        &&& self.capacity > 0
        &&& self.held() <= self.capacity
        &&& self.audit.len() <= DEFAULT_MAX_AUDIT_ENTRIES
    }

    /// The ids of the queued sessions, in order.
    pub open spec fn queued_ids(self) -> Seq<u64> {
        self.queue.map_values(|queued: QueuedView<P>| queued.job.request.id)
    }

    /// The ids of the parked sessions, in order.
    pub open spec fn parked_ids(self) -> Seq<u64> {
        self.pending.map_values(|one: PendingView<P>| one.job.request.id)
    }

    /// Whether the session that is being worked on has an id.
    pub open spec fn works_on(self, id: u64) -> bool {
        self.taken matches Some(taken) && taken.id == id
    }

    /// Whether a session under an id is held.
    pub open spec fn is_live(self, id: u64) -> bool {
        self.works_on(id) || self.queued_ids().contains(id) || self.parked_ids().contains(id)
    }

    /// Where the session parked first under an id stands, if there is one.
    pub open spec fn first_parked(self, id: u64) -> Option<int> {
        self.parked_ids().index_of_first(id)
    }

    /// Where the session parked last under an id stands, if there is one.
    pub open spec fn last_parked(self, id: u64) -> Option<int> {
        self.parked_ids().index_of_last(id)
    }

    /// One more audit entry.
    pub open spec fn recorded(self, entry: AuditView) -> BrokerView<P> {
        BrokerView { audit: newest(self.audit.push(entry)), ..self }
    }

    /// One parked session fewer.
    pub open spec fn unparked(self, at: int) -> BrokerView<P> {
        BrokerView { pending: self.pending.remove(at), ..self }
    }

    /// Nothing worked on under an id.
    pub open spec fn freed(self, id: u64) -> BrokerView<P> {
        if self.works_on(id) {
            BrokerView { taken: None, ..self }
        } else {
            self
        }
    }

    /// Why a submission is refused, if it is.
    pub open spec fn submit_error(self, request: RequestView) -> Option<BrokerErrorView> {
        if request.error() is Some {
            Some(BrokerErrorView::InvalidRequest(request.error()->0))
        } else if request.mode != ExecutionMode::Wasi {
            Some(BrokerErrorView::NotWasi)
        } else if self.held() >= self.capacity {
            Some(BrokerErrorView::QueueFull)
        } else if self.worker_stopped {
            Some(BrokerErrorView::WorkerStopped)
        } else {
            None
        }
    }

    /// The broker after a submission that got a signal.
    pub open spec fn after_submit(self, job: JobView<P>, signal: CancelHandle) -> BrokerView<P> {
        match self.submit_error(job.request) {
            None => BrokerView {
                queue: self.queue.push(
                    QueuedView { job, ticket: Ticket::fresh(signal) },
                ),
                ..self
            },
            Some(_) => self,
        }
    }

    /// The signal of the session queued last.
    pub open spec fn last_signal(self) -> CancelHandle {
        self.queue.last().ticket.signal()
    }

    /// Whether a session can be taken from the queue.
    pub open spec fn has_next(self) -> bool {
        self.taken is None && self.queue.len() > 0
    }

    /// The broker after the next session was taken from the queue.
    pub open spec fn after_next(self) -> BrokerView<P> {
        if self.has_next() {
            BrokerView {
                taken: Some(
                    Taken { id: self.queue[0].job.request.id, ticket: self.queue[0].ticket },
                ),
                queue: self.queue.skip(1),
                ..self
            }
        } else {
            self
        }
    }

    /// What happens to a session whose turn has come.
    pub open spec fn turn(self, job: JobView<P>) -> Turn {
        if !self.works_on(job.request.id) {
            Turn::Vanished
        } else if job.must_wait() is Some {
            Turn::Wait(job.must_wait()->0)
        } else if self.taken->0.ticket.cancelled() {
            Turn::CancelledBeforeStart
        } else if job.session.after(SessionEvent::Started) is Err {
            Turn::CannotStart
        } else {
            Turn::Run
        }
    }

    /// The broker after a session had its turn.
    pub open spec fn after_turn(self, job: JobView<P>, now: nat) -> BrokerView<P> {
        match self.turn(job) {
            Turn::Vanished => self.recorded(job.entry(job.admission, AuditOutcome::Denied)),
            Turn::Wait(reason) => BrokerView {
                pending: self.pending.push(
                    PendingView {
                        job: job.parked(reason),
                        deadline: now + self.approval_timeout,
                        ticket: self.taken->0.ticket,
                    },
                ),
                taken: None,
                ..self
            },
            Turn::CancelledBeforeStart => self.recorded(
                job.entry(job.admission, AuditOutcome::Cancelled),
            ).freed(job.request.id),
            Turn::CannotStart => self.recorded(
                job.entry(job.admission, AuditOutcome::Denied),
            ).freed(job.request.id),
            Turn::Run => self,
        }
    }

    /// The broker after the caller of a session just parked was told, or could not be.
    pub open spec fn after_notice(self, id: u64, notified: bool) -> BrokerView<P> {
        match self.last_parked(id) {
            Some(at) => if notified {
                self
            } else {
                self.unparked(at).recorded(
                    self.pending[at].job.entry(ApprovalDecision::Cancelled, AuditOutcome::Cancelled),
                )
            },
            None => self,
        }
    }

    /// The broker after a session ran.
    pub open spec fn after_run(
        self,
        job: JobView<P>,
        result: Result<WasiOutput, RuntimeError>,
    ) -> BrokerView<P> {
        self.recorded(job.entry(job.admission, audit_outcome_of(result))).freed(job.request.id)
    }

    /// The broker after a session brought its worker down.
    pub open spec fn after_panic(self, snapshot: JobSnapshotView) -> BrokerView<P> {
        self.recorded(snapshot.entry()).freed(snapshot.id)
    }

    /// Why an approval is refused, if it is.
    pub open spec fn approve_error(self, id: u64) -> Option<BrokerErrorView> {
        match self.first_parked(id) {
            None => Some(BrokerErrorView::NotPendingApproval(id)),
            Some(at) => if !self.pending[at].ticket.cancelled() && self.worker_stopped {
                Some(BrokerErrorView::WorkerStopped)
            } else {
                None
            },
        }
    }

    /// The broker after an approval.
    pub open spec fn after_approve(self, id: u64) -> BrokerView<P> {
        match self.first_parked(id) {
            None => self,
            Some(at) => {
                let parked = self.pending[at];
                if parked.ticket.cancelled() {
                    self.unparked(at).recorded(
                        parked.job.entry(ApprovalDecision::Cancelled, AuditOutcome::Cancelled),
                    )
                } else if self.worker_stopped {
                    self.unparked(at).recorded(
                        parked.job.entry(ApprovalDecision::Approved, AuditOutcome::Failed),
                    )
                } else {
                    BrokerView {
                        queue: self.queue.push(
                            QueuedView { job: parked.job.approved(), ticket: parked.ticket },
                        ),
                        ..self.unparked(at)
                    }
                }
            },
        }
    }

    /// The broker after a denial.
    pub open spec fn after_deny(self, id: u64) -> BrokerView<P> {
        match self.first_parked(id) {
            None => self,
            Some(at) => self.unparked(at).recorded(
                self.pending[at].job.entry(ApprovalDecision::Denied, AuditOutcome::Denied),
            ),
        }
    }

    /// The broker after parked sessions were ended without a decision.
    pub open spec fn after_ending(self, ending: Ending) -> BrokerView<P> {
        BrokerView {
            pending: ending.kept(self.pending),
            audit: newest(self.audit + ending.entries(ending.ended(self.pending))),
            ..self
        }
    }

    /// The broker with the queued sessions concerned, and the one being worked on, cancelled.
    pub open spec fn marked(self, who: Option<u64>) -> BrokerView<P> {
        BrokerView {
            queue: marked_queue(self.queue, who),
            taken: match self.taken {
                Some(taken) => if concerns(who, taken.id) {
                    Some(Taken { ticket: taken.ticket.marked(), ..taken })
                } else {
                    Some(taken)
                },
                None => None,
            },
            ..self
        }
    }

    /// The broker after a cancellation: parked sessions under the id end, the others are marked.
    pub open spec fn after_cancel(self, id: u64) -> BrokerView<P> {
        if self.is_live(id) {
            self.after_ending(Ending::Cancelled(id)).marked(Some(id))
        } else {
            self
        }
    }

    /// The signal of the session being worked on, if a cancellation concerns it.
    pub open spec fn working_signal(self, who: Option<u64>) -> Option<CancelHandle> {
        match self.taken {
            Some(taken) => if concerns(who, taken.id) {
                Some(taken.ticket.signal())
            } else {
                None
            },
            None => None,
        }
    }

    /// The broker after a sweep.
    pub open spec fn after_sweep(self, now: u128) -> BrokerView<P> {
        self.after_ending(Ending::Expired(now))
    }

    /// The broker with every session cancelled.
    pub open spec fn all_cancelled(self) -> BrokerView<P> {
        BrokerView { pending: marked_pending(self.pending), ..self.marked(None) }
    }
}

/// What outlives a job that brings its worker down.
#[derive(Debug)]
pub struct JobSnapshot {
    id: u64,
    actor: Actor,
    program: String,
    admission: ApprovalDecision,
    sink: JobSink,
}

/// What a [`JobSnapshot`] stands for.
#[verifier::ext_equal]
pub struct JobSnapshotView {
    /// Session identifier.
    pub id: u64,
    /// Requesting principal.
    pub actor: Actor,
    /// Executable/component name.
    pub program: Seq<char>,
    /// How the session was admitted.
    pub admission: ApprovalDecision,
    /// Where the session reports.
    pub sink: JobSink,
}

impl View for JobSnapshot {
    type V = JobSnapshotView;

    closed spec fn view(&self) -> JobSnapshotView {
        JobSnapshotView {
            id: self.id,
            actor: self.actor,
            program: self.program@,
            admission: self.admission,
            sink: self.sink,
        }
    }
}

impl JobSnapshotView {
    /// What is recorded of a session that brought its worker down.
    pub open spec fn entry(self) -> AuditView {
        AuditView {
            id: self.id,
            actor: self.actor,
            program: self.program,
            decision: self.admission,
            outcome: AuditOutcome::Failed,
        }
    }
}

impl<P> Job<P> {
    /// Note everything that the terminal and audit paths need before a run that
    /// might panic, so a panic can still report the session instead of orphaning it.
    pub fn snapshot(&self) -> (snapshot: JobSnapshot)
        ensures
            snapshot@ == (JobSnapshotView {
                id: self@.request.id,
                actor: self@.request.actor,
                program: self@.request.program,
                admission: self@.admission,
                sink: self@.sink,
            }),
    {
        JobSnapshot {
            id: self.request.id,
            actor: self.request.actor,
            program: self.request.program.clone(),
            admission: self.admission,
            sink: self.sink,
        }
    }

    /// The audit entry for a decision and an outcome of this session.
    fn entry(&self, decision: ApprovalDecision, outcome: AuditOutcome) -> (entry: AuditEntry)
        ensures
            entry@ == self@.entry(decision, outcome),
    {
        AuditEntry {
            id: self.request.id,
            actor: self.request.actor,
            program: self.request.program.clone(),
            decision,
            outcome,
        }
    }
}

/// What to do with a session whose turn has come.
pub enum JobStep<P> {
    /// It is over: send the message.
    Ended {
        /// What the owner of the broker kept with the session.
        payload: P,
        /// What to tell the caller.
        message: SinkMessage,
    },
    /// It is parked: send the message, then report with [`ActionBroker::parked_notified`] whether
    /// the caller was reached.
    Parked {
        /// Session identifier.
        id: u64,
        /// What to tell the caller.
        message: SinkMessage,
    },
    /// Run the guest, then report with [`ActionBroker::finish_job`].
    Run {
        /// The session to run.
        job: Job<P>,
        /// The signal that interrupts it.
        cancel: CancelHandle,
        /// What to tell the caller of a streamed session before its guest starts.
        started: Option<SessionEvent>,
    },
}

/// What came of an approval.
pub enum Approval<P> {
    /// The session runs when its turn comes.
    Queued,
    /// The session was cancelled while it was parked: send the message.
    Cancelled {
        /// What the owner of the broker kept with the session.
        payload: P,
        /// What to tell the caller.
        message: SinkMessage,
    },
}

/// What came of a cancellation.
pub struct Cancellation<P> {
    /// Sessions that were parked and are over: send each its message.
    pub ended: Vec<EndedSession<P>>,
    /// The signal of the session being worked on, if it was cancelled. It is set; to set it again
    /// does no harm.
    pub signal: Option<CancelHandle>,
}

/// A session that is over without having run, and what to tell its caller.
pub struct EndedSession<P> {
    /// What the owner of the broker kept with the session.
    pub payload: P,
    /// What to tell the caller.
    pub message: SinkMessage,
}

/// The message for a session that its turn ended.
pub open spec fn turn_message(turn: Turn, sink: JobSink) -> SinkMessage {
    match turn {
        Turn::Vanished => terminal_message_of(
            sink,
            Terminal::DeniedWith(
                CommandError::InvalidTransition("session handle disappeared before start"),
            ),
        ),
        Turn::Wait(reason) => pending_message_of(sink, reason),
        Turn::CannotStart => terminal_message_of(
            sink,
            Terminal::DeniedWith(CommandError::InvalidTransition("session cannot start")),
        ),
        _ => terminal_message_of(sink, Terminal::Cancelled),
    }
}

/// The event that opens a streamed run.
pub open spec fn started_event(sink: JobSink) -> Option<SessionEvent> {
    match sink {
        JobSink::Outcome => None,
        JobSink::Events => Some(SessionEvent::Started),
    }
}

impl<P> JobStep<P> {
    /// Whether the step carries out a turn of a session with a ticket.
    pub open spec fn carries_out(self, turn: Turn, job: JobView<P>, taken: Option<Taken>) -> bool {
        match turn {
            Turn::Wait(reason) => self matches JobStep::Parked { id, message } && id
                == job.request.id && message == turn_message(turn, job.sink),
            Turn::Run => self matches JobStep::Run { job: running, cancel, started } && running@ == (
            JobView {
                session: job.session.after_or_same(SessionEvent::Started),
                ..job
            }) && started == started_event(job.sink) && taken is Some && cancel
                == taken->0.ticket.signal(),
            _ => self matches JobStep::Ended { payload, message } && payload == job.payload
                && message == turn_message(turn, job.sink),
        }
    }
}

impl<P> View for ActionBroker<P> {
    type V = BrokerView<P>;

    closed spec fn view(&self) -> BrokerView<P> {
        BrokerView {
            capacity: self.capacity as nat,
            approval_timeout: self.approval_timeout as nat,
            worker_stopped: self.worker_stopped,
            taken: self.taken,
            queue: queued_views(self.queue@),
            pending: pending_views(self.pending@),
            audit: audit_views(self.audit@),
        }
    }
}

impl<P> ActionBroker<P> {
    /// What every broker keeps.
    pub open spec fn well_formed(&self) -> bool {
        self@.valid()
    }

    /// The engine that this broker's components are bound to.
    pub closed spec fn engine_of(&self) -> wasmtime::Engine {
        self.runtime.engine_of()
    }

    /// Create a broker with the default outstanding-session capacity and the
    /// default approval timeout.
    pub fn new() -> (made: Result<Self, BrokerError>)
        ensures
            match made {
                Ok(broker) => broker.well_formed() && broker@ == BrokerView::<P>::fresh(
                    DEFAULT_MAX_OUTSTANDING_SESSIONS as nat,
                    DEFAULT_APPROVAL_TIMEOUT as nat,
                ) && engine_config(broker.engine_of()) == production_config(),
                Err(error) => error matches BrokerError::Runtime(RuntimeError::Engine(cause))
                    && may_create(production_config(), Err(cause)),
            },
    {
        ActionBroker::with_config(DEFAULT_MAX_OUTSTANDING_SESSIONS, DEFAULT_APPROVAL_TIMEOUT)
    }

    /// Create a broker with a custom outstanding-session capacity.
    pub fn with_capacity(capacity: usize) -> (made: Result<Self, BrokerError>)
        ensures
            match made {
                Ok(broker) => capacity > 0 && broker.well_formed() && broker@ == BrokerView::<
                    P,
                >::fresh(capacity as nat, DEFAULT_APPROVAL_TIMEOUT as nat) && engine_config(
                    broker.engine_of(),
                ) == production_config(),
                Err(error) => if capacity == 0 {
                    error@ is InvalidCapacity
                } else {
                    error matches BrokerError::Runtime(RuntimeError::Engine(cause)) && may_create(
                        production_config(),
                        Err(cause),
                    )
                },
            },
    {
        ActionBroker::with_config(capacity, DEFAULT_APPROVAL_TIMEOUT)
    }

    /// Create a broker with a custom capacity and approval timeout in nanoseconds.
    pub fn with_config(capacity: usize, approval_timeout: u128) -> (made: Result<Self, BrokerError>)
        ensures
            match made {
                Ok(broker) => capacity > 0 && broker.well_formed() && broker@ == BrokerView::<
                    P,
                >::fresh(capacity as nat, approval_timeout as nat) && engine_config(
                    broker.engine_of(),
                ) == production_config(),
                Err(error) => if capacity == 0 {
                    error@ is InvalidCapacity
                } else {
                    error matches BrokerError::Runtime(RuntimeError::Engine(cause)) && may_create(
                        production_config(),
                        Err(cause),
                    )
                },
            },
    {
        if capacity == 0 {
            return Err(BrokerError::InvalidCapacity);
        }
        ActionBroker::with_runtime(capacity, approval_timeout, WasiRuntime::new())
    }

    /// Create a broker on a runtime, if there is one.
    pub fn with_runtime(
        capacity: usize,
        approval_timeout: u128,
        runtime: Result<WasiRuntime, RuntimeError>,
    ) -> (made: Result<Self, BrokerError>)
        ensures
            match made {
                Ok(broker) => capacity > 0 && broker.well_formed() && broker@ == BrokerView::<
                    P,
                >::fresh(capacity as nat, approval_timeout as nat) && (runtime matches Ok(owned)
                    && broker.engine_of() == owned.engine_of()),
                Err(error) => if capacity == 0 {
                    error == BrokerError::InvalidCapacity
                } else {
                    runtime matches Err(cause) && error == BrokerError::Runtime(cause)
                },
            },
    {
        if capacity == 0 {
            return Err(BrokerError::InvalidCapacity);
        }
        match runtime {
            Err(error) => Err(BrokerError::Runtime(error)),
            Ok(runtime) => {
                let broker = ActionBroker {
                    runtime,
                    capacity,
                    approval_timeout,
                    worker_stopped: false,
                    taken: None,
                    queue: VecDeque::new(),
                    pending: Vec::new(),
                    audit: Vec::new(),
                };
                assert(broker@ =~= BrokerView::<P>::fresh(capacity as nat, approval_timeout as nat));
                Ok(broker)
            },
        }
    }

    /// The runtime that this broker's sessions run on.
    pub fn runtime(&self) -> (runtime: &WasiRuntime)
        ensures
            runtime.engine_of() == self.engine_of(),
    {
        &self.runtime
    }

    /// Number of sessions currently held by the broker (running, queued, and
    /// parked awaiting approval).
    pub fn outstanding_sessions(&self) -> (count: usize)
        requires
            self.well_formed(),
        ensures
            count == self@.held(),
    {
        let waiting: usize = self.queue.len() + self.pending.len();
        match &self.taken {
            Some(_) => waiting + 1,
            None => waiting,
        }
    }

    /// Number of sessions parked awaiting approval.
    pub fn pending_sessions(&self) -> (count: usize)
        ensures
            count == self@.pending.len(),
    {
        self.pending.len()
    }

    /// Admit and compile a component on this broker's engine.
    ///
    /// Components are bound to the engine that compiled them, so admission must
    /// happen through the broker (or any clone of its engine) rather than a
    /// throwaway runtime.
    pub fn compile_component(&self, bytes: &[u8]) -> (admitted: Result<Component, RuntimeError>)
        ensures
            match admitted {
                Ok(component) => component_source(component) == bytes@ && component_engine(
                    component,
                ) == self.engine_of() && may_compile(self.engine_of(), bytes, Ok(component)),
                Err(error) => error matches RuntimeError::Component(cause) && may_compile(
                    self.engine_of(),
                    bytes,
                    Err(cause),
                ),
            },
    {
        self.runtime.compile_component(bytes)
    }

    /// Append one audit entry, dropping the oldest once the cap is reached.
    fn record(&mut self, entry: AuditEntry)
        requires
            old(self).well_formed(),
        ensures
            final(self).well_formed(),
            final(self).engine_of() == old(self).engine_of(),
            final(self)@ == old(self)@.recorded(entry@),
    {
        record(&mut self.audit, entry);
        assert(self@ =~= old(self)@.recorded(entry@));
    }

    /// Whether the session that is being worked on has an id.
    fn works_on(&self, id: u64) -> (working: bool)
        ensures
            working == self@.works_on(id),
    {
        match &self.taken {
            Some(taken) => taken.id == id,
            None => false,
        }
    }

    /// Release the session that is being worked on, if it has an id.
    fn free(&mut self, id: u64)
        requires
            old(self).well_formed(),
        ensures
            final(self).well_formed(),
            final(self).engine_of() == old(self).engine_of(),
            final(self)@ == old(self)@.freed(id),
    {
        if self.works_on(id) {
            self.taken = None;
        }
        assert(self@ =~= old(self)@.freed(id));
    }

    /// Where the session parked first under an id stands, if there is one.
    fn first_parked(&self, id: u64) -> (found: Option<usize>)
        ensures
            match found {
                Some(at) => self@.first_parked(id) == Some(at as int) && at < self@.pending.len(),
                None => self@.first_parked(id) is None,
            },
    {
        let mut at: usize = 0;
        while at < self.pending.len()
            invariant
                at <= self.pending.len(),
                forall|k: int| 0 <= k < at ==> #[trigger] self@.parked_ids()[k] != id,
            decreases self.pending.len() - at,
        {
            assert(self@.parked_ids()[at as int] == self.pending@[at as int]@.job.request.id);
            if self.pending[at].job.request.id == id {
                assert(self@.parked_ids().contains(id));
                proof {
                    self@.parked_ids().index_of_first_ensures(id);
                }
                return Some(at);
            }
            at += 1;
        }
        proof {
            self@.parked_ids().index_of_first_ensures(id);
        }
        None
    }

    /// Where the session parked last under an id stands, if there is one.
    fn last_parked(&self, id: u64) -> (found: Option<usize>)
        ensures
            match found {
                Some(at) => self@.last_parked(id) == Some(at as int) && at < self@.pending.len(),
                None => self@.last_parked(id) is None,
            },
    {
        let mut end: usize = self.pending.len();
        while end > 0
            invariant
                end <= self.pending.len(),
                forall|k: int| end <= k < self.pending.len() ==> #[trigger] self@.parked_ids()[k]
                    != id,
            decreases end,
        {
            let at: usize = end - 1;
            assert(self@.parked_ids()[at as int] == self.pending@[at as int]@.job.request.id);
            if self.pending[at].job.request.id == id {
                assert(self@.parked_ids().contains(id));
                proof {
                    self@.parked_ids().index_of_last_ensures(id);
                }
                return Some(at);
            }
            end = at;
        }
        proof {
            self@.parked_ids().index_of_last_ensures(id);
        }
        None
    }

    /// Take a session out of the parked ones.
    fn unpark(&mut self, at: usize) -> (pending: PendingJob<P>)
        requires
            old(self).well_formed(),
            at < old(self)@.pending.len(),
        ensures
            final(self).well_formed(),
            final(self).engine_of() == old(self).engine_of(),
            final(self)@ == old(self)@.unparked(at as int),
            pending@ == old(self)@.pending[at as int],
    {
        let pending = self.pending.remove(at);
        assert(self@ =~= old(self)@.unparked(at as int));
        pending
    }
}

impl<P> ActionBroker<P> {
    /// Enqueue a request for capturing execution.
    ///
    /// Its caller receives one or more [`BrokerOutcome`]s: a
    /// [`BrokerOutcome::PendingApproval`] first when the request is risky, then
    /// a terminal outcome once the human decides.
    pub fn submit(&mut self, request: CommandRequest, payload: P) -> (queued: Result<
        (),
        BrokerError,
    >)
        requires
            old(self).well_formed(),
        ensures
            final(self).well_formed(),
            final(self).engine_of() == old(self).engine_of(),
            final(self)@ == old(self)@.after_submit(
                JobView::submitted(request@, payload, JobSink::Outcome),
                final(self)@.last_signal(),
            ),
            match queued {
                Ok(()) => old(self)@.submit_error(request@) is None,
                Err(error) => old(self)@.submit_error(request@) == Some(error@),
            },
    {
        self.enqueue(request, payload, JobSink::Outcome)
    }

    /// Enqueue a request and stream its live session events.
    ///
    /// Its caller receives [`SessionEvent`]s in lifecycle order: optionally a
    /// `PendingApproval`, then `Started`, zero or more `Output` chunks as the
    /// guest produces them, then a terminal event (`Exited`, `Cancelled`,
    /// `Denied`, or `Unsupported`).
    pub fn submit_streaming(&mut self, request: CommandRequest, payload: P) -> (queued: Result<
        (),
        BrokerError,
    >)
        requires
            old(self).well_formed(),
        ensures
            final(self).well_formed(),
            final(self).engine_of() == old(self).engine_of(),
            final(self)@ == old(self)@.after_submit(
                JobView::submitted(request@, payload, JobSink::Events),
                final(self)@.last_signal(),
            ),
            match queued {
                Ok(()) => old(self)@.submit_error(request@) is None,
                Err(error) => old(self)@.submit_error(request@) == Some(error@),
            },
    {
        self.enqueue(request, payload, JobSink::Events)
    }

    /// Validate, bound-check, register and queue one job.
    fn enqueue(&mut self, request: CommandRequest, payload: P, sink: JobSink) -> (queued: Result<
        (),
        BrokerError,
    >)
        requires
            old(self).well_formed(),
        ensures
            final(self).well_formed(),
            final(self).engine_of() == old(self).engine_of(),
            final(self)@ == old(self)@.after_submit(
                JobView::submitted(request@, payload, sink),
                final(self)@.last_signal(),
            ),
            match queued {
                Ok(()) => old(self)@.submit_error(request@) is None,
                Err(error) => old(self)@.submit_error(request@) == Some(error@),
            },
    {
        match request.validate() {
            Ok(()) => {},
            Err(error) => {
                return Err(BrokerError::InvalidRequest(error));
            },
        }
        if request.mode != ExecutionMode::Wasi {
            return Err(BrokerError::NotWasi);
        }
        if self.outstanding_sessions() >= self.capacity {
            return Err(BrokerError::QueueFull);
        }
        if self.worker_stopped {
            return Err(BrokerError::WorkerStopped);
        }
        let session = SessionState::new(request.id, request.grant.limits());
        let job = Job {
            request,
            payload,
            sink,
            session,
            admission: ApprovalDecision::AutoApproved,
        };
        let ghost added = job@;
        let ticket = Ticket::new();
        let ghost signal = ticket.signal();
        proof {
            law_tickets_tell_what_was_cancelled(ticket, signal);
        }
        self.queue.push_back(QueuedJob { job, ticket });
        assert(self@ =~= old(self)@.after_submit(added, signal));
        Ok(())
    }

    /// Take the next session from the queue, unless one is still being worked on.
    pub fn next_job(&mut self) -> (job: Option<Job<P>>)
        requires
            old(self).well_formed(),
        ensures
            final(self).well_formed(),
            final(self).engine_of() == old(self).engine_of(),
            final(self)@ == old(self)@.after_next(),
            match job {
                Some(job) => old(self)@.has_next() && job@ == old(self)@.queue[0].job,
                None => !old(self)@.has_next(),
            },
    {
        match &self.taken {
            Some(_) => {
                return None;
            },
            None => {},
        }
        match self.queue.pop_front() {
            Some(queued) => {
                let QueuedJob { job, ticket } = queued;
                self.taken = Some(Taken { id: job.request.id, ticket });
                assert(self@ =~= old(self)@.after_next());
                Some(job)
            },
            None => {
                assert(self@ =~= old(self)@);
                None
            },
        }
    }

    /// Give a session its turn: refuse it, park it, or let it run.
    ///
    /// A session that needs approval is parked before its caller is told: the
    /// moment the caller learns of it, [`Self::approve`], [`Self::deny`] and
    /// [`Self::cancel`] find it. A session that runs gets its own signal, which
    /// the broker keeps: cancelling the session while it runs sets that very signal.
    /// `now` is the time in nanoseconds.
    pub fn process_job(&mut self, job: Job<P>, now: u128) -> (step: JobStep<P>)
        requires
            old(self).well_formed(),
            now + old(self)@.approval_timeout <= u128::MAX,
        ensures
            final(self).well_formed(),
            final(self).engine_of() == old(self).engine_of(),
            final(self)@ == old(self)@.after_turn(job@, now as nat),
            step.carries_out(old(self)@.turn(job@), job@, old(self)@.taken),
    {
        let id = job.request.id;
        let found = match &self.taken {
            Some(taken) => if taken.id == id {
                Some((taken.ticket.handle(), taken.ticket.is_marked()))
            } else {
                None
            },
            None => None,
        };
        let (cancel, cancelled) = match found {
            Some(ticket) => ticket,
            None => {
                let entry = job.entry(job.admission, AuditOutcome::Denied);
                self.record(entry);
                let message = terminal_message(
                    job.sink,
                    Terminal::DeniedWith(
                        CommandError::InvalidTransition("session handle disappeared before start"),
                    ),
                );
                return JobStep::Ended { payload: job.payload, message };
            },
        };
        let risk = classify_risk(&job.request);
        match risk {
            Risk::RequiresApproval(reason) => {
                if job.admission != ApprovalDecision::Approved {
                    return self.park(job, reason, now);
                }
                // A human already approved this specific session; run it
                // instead of parking it again.
            },
            Risk::AutoApprove => {},
        }
        if cancelled {
            let entry = job.entry(job.admission, AuditOutcome::Cancelled);
            self.record(entry);
            self.free(id);
            return JobStep::Ended {
                payload: job.payload,
                message: terminal_message(job.sink, Terminal::Cancelled),
            };
        }
        let mut running = job;
        match running.session.accept(SessionEvent::Started) {
            Ok(()) => {
                let started = match running.sink {
                    JobSink::Outcome => None,
                    JobSink::Events => Some(SessionEvent::Started),
                };
                JobStep::Run { job: running, cancel, started }
            },
            Err(_) => {
                let entry = running.entry(running.admission, AuditOutcome::Denied);
                self.record(entry);
                self.free(id);
                let message = terminal_message(
                    running.sink,
                    Terminal::DeniedWith(CommandError::InvalidTransition("session cannot start")),
                );
                JobStep::Ended { payload: running.payload, message }
            },
        }
    }

    /// Park a session awaiting approval.
    fn park(&mut self, job: Job<P>, reason: ApprovalReason, now: u128) -> (step: JobStep<P>)
        requires
            old(self).well_formed(),
            now + old(self)@.approval_timeout <= u128::MAX,
            old(self)@.turn(job@) == Turn::Wait(reason),
        ensures
            final(self).well_formed(),
            final(self).engine_of() == old(self).engine_of(),
            final(self)@ == old(self)@.after_turn(job@, now as nat),
            step.carries_out(old(self)@.turn(job@), job@, old(self)@.taken),
    {
        let ghost whole = job@;
        let id = job.request.id;
        let sink = job.sink;
        let mut parked = job;
        let _ = parked.session.accept(SessionEvent::PendingApproval { reason });
        assert(parked@ =~= whole.parked(reason));
        let deadline: u128 = now + self.approval_timeout;
        match self.taken.take() {
            Some(taken) => {
                self.pending.push(PendingJob { job: parked, deadline, ticket: taken.ticket });
            },
            None => {},
        }
        assert(self@ =~= old(self)@.after_turn(whole, now as nat));
        let message = match sink {
            JobSink::Outcome => SinkMessage::Outcome(BrokerOutcome::PendingApproval { reason }),
            JobSink::Events => SinkMessage::Event(SessionEvent::PendingApproval { reason }),
        };
        JobStep::Parked { id, message }
    }

    /// Report whether the caller of the session just parked under an id learned of it.
    ///
    /// A caller that is gone leaves a session nobody can decide on, so it is
    /// withdrawn.
    pub fn parked_notified(&mut self, id: u64, notified: bool) -> (withdrawn: Option<P>)
        requires
            old(self).well_formed(),
        ensures
            final(self).well_formed(),
            final(self).engine_of() == old(self).engine_of(),
            final(self)@ == old(self)@.after_notice(id, notified),
            match withdrawn {
                Some(payload) => !notified && old(self)@.last_parked(id) is Some && payload == old(
                    self,
                )@.pending[old(self)@.last_parked(id)->0].job.payload,
                None => notified || old(self)@.last_parked(id) is None,
            },
    {
        if notified {
            return None;
        }
        match self.last_parked(id) {
            Some(at) => {
                let pending = self.unpark(at);
                let job = pending.job;
                let entry = job.entry(ApprovalDecision::Cancelled, AuditOutcome::Cancelled);
                self.record(entry);
                Some(job.payload)
            },
            None => None,
        }
    }

    /// Report how a run ended; the session is recorded and released.
    pub fn finish_job(&mut self, job: Job<P>, result: Result<WasiOutput, RuntimeError>) -> (ended:
        EndedSession<P>)
        requires
            old(self).well_formed(),
        ensures
            final(self).well_formed(),
            final(self).engine_of() == old(self).engine_of(),
            final(self)@ == old(self)@.after_run(job@, result),
            ended.payload == job.payload,
            ended.message == run_message_of(job.sink, result),
    {
        let ghost whole = job@;
        let outcome = match &result {
            Ok(output) => AuditOutcome::Completed { exit_code: output.exit_code },
            Err(RuntimeError::Cancelled) => AuditOutcome::Cancelled,
            Err(RuntimeError::WrongMode) => AuditOutcome::Denied,
            Err(_) => AuditOutcome::Failed,
        };
        let id = job.request.id;
        let entry = job.entry(job.admission, outcome);
        self.record(entry);
        self.free(id);
        assert(self@ =~= old(self)@.after_run(whole, result));
        let message = match job.sink {
            JobSink::Outcome => SinkMessage::Outcome(capturing_outcome(result)),
            JobSink::Events => SinkMessage::Event(closing_event(&result)),
        };
        EndedSession { payload: job.payload, message }
    }

    /// Report that running a session panicked: it is denied, recorded as failed
    /// and released, and the queue keeps being served.
    pub fn contain_panic(&mut self, snapshot: JobSnapshot) -> (message: SinkMessage)
        requires
            old(self).well_formed(),
        ensures
            final(self).well_formed(),
            final(self).engine_of() == old(self).engine_of(),
            final(self)@ == old(self)@.after_panic(snapshot@),
            message == panic_message_of(snapshot@.sink),
    {
        let ghost noted = snapshot@;
        let id = snapshot.id;
        let sink = snapshot.sink;
        self.record(
            AuditEntry {
                id,
                actor: snapshot.actor,
                program: snapshot.program,
                decision: snapshot.admission,
                outcome: AuditOutcome::Failed,
            },
        );
        self.free(id);
        assert(self@ =~= old(self)@.after_panic(noted));
        terminal_message(
            sink,
            Terminal::DeniedWith(
                CommandError::InvalidTransition("worker panic while executing session"),
            ),
        )
    }

    /// Approve the session parked first under an id and let it run.
    ///
    /// A session cancelled while parked reports cancellation instead of
    /// running after the fact.
    pub fn approve(&mut self, id: u64) -> (approved: Result<Approval<P>, BrokerError>)
        requires
            old(self).well_formed(),
        ensures
            final(self).well_formed(),
            final(self).engine_of() == old(self).engine_of(),
            final(self)@ == old(self)@.after_approve(id),
            match approved {
                Err(error) => old(self)@.approve_error(id) == Some(error@),
                Ok(approval) => {
                    let parked = old(self)@.pending[old(self)@.first_parked(id)->0];
                    &&& old(self)@.approve_error(id) is None
                    &&& match approval {
                        Approval::Cancelled { payload, message } => parked.ticket.cancelled()
                            && payload == parked.job.payload && message == terminal_message_of(
                            parked.job.sink,
                            Terminal::Cancelled,
                        ),
                        Approval::Queued => !parked.ticket.cancelled(),
                    }
                },
            },
    {
        let pending = match self.first_parked(id) {
            Some(at) => self.unpark(at),
            None => {
                return Err(BrokerError::NotPendingApproval(id));
            },
        };
        let ghost parked = pending@;
        let PendingJob { job, deadline: _, ticket } = pending;
        if ticket.is_marked() {
            let entry = job.entry(ApprovalDecision::Cancelled, AuditOutcome::Cancelled);
            self.record(entry);
            return Ok(
                Approval::Cancelled {
                    payload: job.payload,
                    message: terminal_message(job.sink, Terminal::Cancelled),
                },
            );
        }
        if self.worker_stopped {
            let entry = job.entry(ApprovalDecision::Approved, AuditOutcome::Failed);
            self.record(entry);
            return Err(BrokerError::WorkerStopped);
        }
        let approved = Job { admission: ApprovalDecision::Approved, ..job };
        assert(approved@ =~= parked.job.approved());
        self.queue.push_back(QueuedJob { job: approved, ticket });
        assert(self@ =~= old(self)@.after_approve(id));
        Ok(Approval::Queued)
    }

    /// Deny the session parked first under an id; it never runs.
    pub fn deny(&mut self, id: u64) -> (denied: Result<EndedSession<P>, BrokerError>)
        requires
            old(self).well_formed(),
        ensures
            final(self).well_formed(),
            final(self).engine_of() == old(self).engine_of(),
            final(self)@ == old(self)@.after_deny(id),
            match denied {
                Ok(ended) => {
                    let parked = old(self)@.pending[old(self)@.first_parked(id)->0];
                    &&& old(self)@.first_parked(id) is Some
                    &&& ended.payload == parked.job.payload
                    &&& ended.message == terminal_message_of(parked.job.sink, Terminal::Denied)
                },
                Err(error) => old(self)@.first_parked(id) is None && error
                    == BrokerError::NotPendingApproval(id),
            },
    {
        match self.first_parked(id) {
            Some(at) => {
                let pending = self.unpark(at);
                let job = pending.job;
                let entry = job.entry(ApprovalDecision::Denied, AuditOutcome::Denied);
                self.record(entry);
                Ok(
                    EndedSession {
                        payload: job.payload,
                        message: terminal_message(job.sink, Terminal::Denied),
                    },
                )
            },
            None => Err(BrokerError::NotPendingApproval(id)),
        }
    }

    /// Whether a session under an id is held.
    fn is_live(&self, id: u64) -> (live: bool)
        ensures
            live == self@.is_live(id),
    {
        if self.works_on(id) {
            return true;
        }
        proof {
            self@.parked_ids().index_of_first_ensures(id);
        }
        match self.first_parked(id) {
            Some(_) => {
                return true;
            },
            None => {},
        }
        let mut at: usize = 0;
        while at < self.queue.len()
            invariant
                at <= self.queue.len(),
                forall|k: int| 0 <= k < at ==> #[trigger] self@.queued_ids()[k] != id,
            decreases self.queue.len() - at,
        {
            assert(self@.queued_ids()[at as int] == self.queue@[at as int]@.job.request.id);
            if self.queue[at].job.request.id == id {
                assert(self@.queued_ids().contains(id));
                return true;
            }
            at += 1;
        }
        false
    }

    /// End parked sessions without a decision, in the order in which they were parked.
    fn end_parked(&mut self, ending: Ending) -> (notices: Vec<EndedSession<P>>)
        requires
            old(self).well_formed(),
        ensures
            final(self).well_formed(),
            final(self).engine_of() == old(self).engine_of(),
            final(self)@ == old(self)@.after_ending(ending),
            notices@ == ending.notices(ending.ended(old(self)@.pending)),
    {
        broadcast use Seq::lemma_filter_push;

        let ghost start = self@;
        let ghost all = start.pending;
        let ghost mut done: int = 0;
        let mut notices: Vec<EndedSession<P>> = Vec::new();
        let mut at: usize = 0;
        proof {
            reveal(Seq::filter);
            assert(all.take(0) =~= Seq::empty());
            assert(ending.kept(all.take(0)) + all.skip(0) =~= all);
            assert(ending.entries(ending.ended(all.take(0))) =~= Seq::empty());
            assert(ending.notices(ending.ended(all.take(0))) =~= Seq::empty());
            assert(start.audit + Seq::<AuditView>::empty() =~= start.audit);
        }
        while at < self.pending.len()
            invariant
                0 <= done <= all.len(),
                start == old(self)@,
                all == start.pending,
                at == ending.kept(all.take(done)).len(),
                self.well_formed(),
                self.engine_of() == old(self).engine_of(),
                self@.pending == ending.kept(all.take(done)) + all.skip(done),
                self@ == (BrokerView {
                    pending: self@.pending,
                    audit: newest(start.audit + ending.entries(ending.ended(all.take(done)))),
                    ..start
                }),
                notices@ == ending.notices(ending.ended(all.take(done))),
            decreases self.pending.len() - at,
        {
            broadcast use Seq::lemma_filter_push;

            let ghost kept = ending.kept(all.take(done));
            let ghost ended = ending.ended(all.take(done));
            let ghost current = all[done];
            assert(self@.pending[at as int] == current);
            assert(self.pending@[at as int]@ == current);
            assert(all.take(done + 1) =~= all.take(done).push(current));
            let selected = match ending {
                Ending::Cancelled(id) => self.pending[at].job.request.id == id,
                Ending::Expired(now) => self.pending[at].deadline <= now,
            };
            if selected {
                let pending = self.unpark(at);
                assert(self@.pending =~= kept + all.skip(done + 1));
                let job = pending.job;
                let (entry, message) = match ending {
                    Ending::Cancelled(_) => (
                        job.entry(ApprovalDecision::Cancelled, AuditOutcome::Cancelled),
                        terminal_message(job.sink, Terminal::Cancelled),
                    ),
                    Ending::Expired(_) => (
                        job.entry(ApprovalDecision::TimedOut, AuditOutcome::Denied),
                        terminal_message(job.sink, Terminal::Denied),
                    ),
                };
                let ghost added = entry@;
                self.record(entry);
                let notice = EndedSession { payload: job.payload, message };
                let ghost told = notice;
                notices.push(notice);
                proof {
                    assert(ending.entries(ended.push(current)) =~= ending.entries(ended).push(added));
                    assert(ending.notices(ended.push(current)) =~= ending.notices(ended).push(told));
                    lemma_newest_push(start.audit + ending.entries(ended), added);
                    assert((start.audit + ending.entries(ended)).push(added) =~= start.audit
                        + ending.entries(ended).push(added));
                }
            } else {
                at += 1;
                assert(self@.pending =~= kept.push(current) + all.skip(done + 1));
            }
            proof {
                done = done + 1;
            }
        }
        proof {
            assert(done == all.len());
            assert(all.take(done) =~= all);
            assert(self@.pending =~= ending.kept(all));
        }
        notices
    }

    /// Cancel the queued sessions concerned.
    fn mark_queue(&mut self, who: Option<u64>)
        requires
            old(self).well_formed(),
        ensures
            final(self).well_formed(),
            final(self).engine_of() == old(self).engine_of(),
            final(self)@ == (BrokerView {
                queue: marked_queue(old(self)@.queue, who),
                ..old(self)@
            }),
    {
        let ghost start = self@;
        let ghost all = start.queue;
        let count: usize = self.queue.len();
        let mut at: usize = 0;
        assert(all.skip(0) + marked_queue(all.take(0), who) =~= all);
        while at < count
            invariant
                at <= count == all.len(),
                start == old(self)@,
                all == start.queue,
                start.valid(),
                self.engine_of() == old(self).engine_of(),
                self@.queue == all.skip(at as int) + marked_queue(all.take(at as int), who),
                self@ == (BrokerView { queue: self@.queue, ..start }),
            decreases count - at,
        {
            let ghost rest = all.skip(at as int);
            let ghost marked = marked_queue(all.take(at as int), who);
            let ghost before = self.queue@;
            assert(queued_views(before) == rest + marked);
            assert(before.len() == queued_views(before).len());
            assert(self@.queue[0] == all[at as int]);
            match self.queue.pop_front() {
                Some(queued) => {
                    let QueuedJob { job, ticket } = queued;
                    let hit = match who {
                        Some(id) => job.request.id == id,
                        None => true,
                    };
                    let ticket = if hit {
                        ticket.mark()
                    } else {
                        ticket
                    };
                    let next = QueuedJob { job, ticket };
                    let ghost added = next@;
                    self.queue.push_back(next);
                    assert(all.take(at + 1) =~= all.take(at as int).push(all[at as int]));
                    assert(marked_queue(all.take(at + 1), who) =~= marked.push(added));
                    assert(self@.queue =~= (rest + marked).skip(1).push(added));
                    assert((rest + marked).skip(1) =~= all.skip(at + 1) + marked);
                    assert(self@.queue =~= all.skip(at + 1) + marked.push(added));
                },
                None => {
                    assert(false);
                },
            }
            at += 1;
        }
        assert(all.take(at as int) =~= all);
        assert(self@.queue =~= marked_queue(all, who));
    }

    /// Cancel the session that is being worked on, if it is concerned, and hand out its signal.
    fn mark_taken(&mut self, who: Option<u64>) -> (signal: Option<CancelHandle>)
        requires
            old(self).well_formed(),
        ensures
            final(self).well_formed(),
            final(self).engine_of() == old(self).engine_of(),
            final(self)@ == (BrokerView {
                taken: old(self)@.marked(who).taken,
                ..old(self)@
            }),
            signal == old(self)@.working_signal(who),
    {
        match self.taken.take() {
            Some(taken) => {
                let hit = match who {
                    Some(id) => taken.id == id,
                    None => true,
                };
                if hit {
                    let signal = taken.ticket.handle();
                    self.taken = Some(Taken { id: taken.id, ticket: taken.ticket.mark() });
                    Some(signal)
                } else {
                    self.taken = Some(taken);
                    None
                }
            },
            None => None,
        }
    }

    /// Request cancellation of every live session under an id.
    ///
    /// Safe to call more than once; ids that are no longer live (never submitted
    /// or already finished and released) are rejected with
    /// [`BrokerError::UnknownSession`]. A session parked awaiting approval is
    /// cancelled immediately rather than left to expire. A queued session never
    /// starts, and a running one is interrupted through its signal.
    pub fn cancel(&mut self, id: u64) -> (cancelled: Result<Cancellation<P>, BrokerError>)
        requires
            old(self).well_formed(),
        ensures
            final(self).well_formed(),
            final(self).engine_of() == old(self).engine_of(),
            final(self)@ == old(self)@.after_cancel(id),
            match cancelled {
                Ok(cancellation) => {
                    let ending = Ending::Cancelled(id);
                    &&& old(self)@.is_live(id)
                    &&& cancellation.ended@ == ending.notices(ending.ended(old(self)@.pending))
                    &&& cancellation.signal == old(self)@.working_signal(Some(id))
                },
                Err(error) => !old(self)@.is_live(id) && error == BrokerError::UnknownSession(id),
            },
    {
        if !self.is_live(id) {
            return Err(BrokerError::UnknownSession(id));
        }
        let ended = self.end_parked(Ending::Cancelled(id));
        self.mark_queue(Some(id));
        let signal = self.mark_taken(Some(id));
        assert(self@ =~= old(self)@.after_cancel(id));
        Ok(Cancellation { ended, signal })
    }

    /// Auto-deny parked approvals whose deadline passed, in the order in which they
    /// were parked. `now` is the time in nanoseconds.
    pub fn sweep(&mut self, now: u128) -> (ended: Vec<EndedSession<P>>)
        requires
            old(self).well_formed(),
        ensures
            final(self).well_formed(),
            final(self).engine_of() == old(self).engine_of(),
            final(self)@ == old(self)@.after_sweep(now),
            ended@ == Ending::Expired(now).notices(Ending::Expired(now).ended(old(self)@.pending)),
    {
        self.end_parked(Ending::Expired(now))
    }

    /// Interrupt every live session, so that no long run outlives the broker.
    ///
    /// Hands out the signal of the session being worked on; it is set.
    pub fn cancel_all(&mut self) -> (signal: Option<CancelHandle>)
        requires
            old(self).well_formed(),
        ensures
            final(self).well_formed(),
            final(self).engine_of() == old(self).engine_of(),
            final(self)@ == old(self)@.all_cancelled(),
            signal == old(self)@.working_signal(None),
    {
        self.mark_queue(None);
        self.mark_pending();
        let signal = self.mark_taken(None);
        assert(self@ =~= old(self)@.all_cancelled());
        signal
    }

    /// Cancel every parked session, without ending it.
    fn mark_pending(&mut self)
        requires
            old(self).well_formed(),
        ensures
            final(self).well_formed(),
            final(self).engine_of() == old(self).engine_of(),
            final(self)@ == (BrokerView {
                pending: marked_pending(old(self)@.pending),
                ..old(self)@
            }),
    {
        let ghost start = self@;
        let ghost all = start.pending;
        let count: usize = self.pending.len();
        let mut at: usize = 0;
        assert(all.skip(0) + marked_pending(all.take(0)) =~= all);
        while at < count
            invariant
                at <= count == all.len(),
                start == old(self)@,
                all == start.pending,
                start.valid(),
                self.engine_of() == old(self).engine_of(),
                self@.pending == all.skip(at as int) + marked_pending(all.take(at as int)),
                self@ == (BrokerView { pending: self@.pending, ..start }),
            decreases count - at,
        {
            let ghost rest = all.skip(at as int);
            let ghost marked = marked_pending(all.take(at as int));
            let ghost before = self.pending@;
            assert(pending_views(before) == rest + marked);
            assert(before.len() == pending_views(before).len());
            assert(self@.pending[0] == all[at as int]);
            let PendingJob { job, deadline, ticket } = self.pending.remove(0);
            let next = PendingJob { job, deadline, ticket: ticket.mark() };
            let ghost added = next@;
            self.pending.push(next);
            assert(all.take(at + 1) =~= all.take(at as int).push(all[at as int]));
            assert(marked_pending(all.take(at + 1)) =~= marked.push(added));
            assert(self@.pending =~= (rest + marked).skip(1).push(added));
            assert((rest + marked).skip(1) =~= all.skip(at + 1) + marked);
            assert(self@.pending =~= all.skip(at + 1) + marked.push(added));
            at += 1;
        }
        assert(all.take(at as int) =~= all);
        assert(self@.pending =~= marked_pending(all));
    }

    /// The audit trail of every session this broker decided on, oldest first.
    pub fn audit_trail(&self) -> (trail: Vec<AuditEntry>)
        ensures
            audit_views(trail@) == self@.audit,
    {
        let mut trail: Vec<AuditEntry> = Vec::new();
        let mut i: usize = 0;
        while i < self.audit.len()
            invariant
                i <= self.audit.len(),
                trail.len() == i,
                forall|k: int| 0 <= k < i ==> (#[trigger] trail@[k])@ == self.audit@[k]@,
            decreases self.audit.len() - i,
        {
            trail.push(self.audit[i].clone());
            i += 1;
        }
        assert(audit_views(trail@) =~= self@.audit);
        trail
    }

    /// Report that the queue is no longer served.
    pub fn stop_worker(&mut self)
        requires
            old(self).well_formed(),
        ensures
            final(self).well_formed(),
            final(self).engine_of() == old(self).engine_of(),
            final(self)@ == (BrokerView { worker_stopped: true, ..old(self)@ }),
    {
        self.worker_stopped = true;
    }
}

/// A broker admits what the compiler admits: whatever it answers for some bytes, compiling exactly
/// these bytes on its own engine was answered so.
pub proof fn law_brokers_admit_what_the_compiler_admits<P>(
    broker: &ActionBroker<P>,
    bytes: &[u8],
    admitted: Result<Component, RuntimeError>,
)
    requires
        call_ensures(ActionBroker::<P>::compile_component, (broker, bytes), admitted),
    ensures
        match admitted {
            Ok(component) => may_compile(broker.engine_of(), bytes, Ok(component)),
            Err(RuntimeError::Component(cause)) => may_compile(
                broker.engine_of(),
                bytes,
                Err(cause),
            ),
            Err(_) => false,
        },
{
}

/// What the caller of a captured session is told about its run.
fn capturing_outcome(result: Result<WasiOutput, RuntimeError>) -> (outcome: BrokerOutcome)
    ensures
        SinkMessage::Outcome(outcome) == run_message_of(JobSink::Outcome, result),
{
    match result {
        Ok(output) => BrokerOutcome::Completed(output),
        Err(RuntimeError::Cancelled) => BrokerOutcome::Cancelled,
        Err(RuntimeError::WrongMode) => BrokerOutcome::Denied(
            CommandError::InvalidTransition("non-WASI request reached the WASI backend"),
        ),
        Err(error) => BrokerOutcome::Failed(error),
    }
}

/// The event that closes a streamed session.
fn closing_event(result: &Result<WasiOutput, RuntimeError>) -> (event: SessionEvent)
    ensures
        SinkMessage::Event(event) == run_message_of(JobSink::Events, *result),
{
    match result {
        Ok(output) => SessionEvent::Exited { code: Some(output.exit_code) },
        Err(RuntimeError::Cancelled) => SessionEvent::Cancelled,
        Err(RuntimeError::WrongMode) => SessionEvent::Denied,
        Err(_) => SessionEvent::Unsupported,
    }
}

/// The newest entries of a trail depend on its newest entries alone.
proof fn lemma_newest_push(trail: Seq<AuditView>, entry: AuditView)
    ensures
        newest(newest(trail).push(entry)) == newest(trail.push(entry)),
{
    assert(newest(newest(trail).push(entry)) =~= newest(trail.push(entry)));
}

/// The text for an error names the fault, with the session or the cause that belongs to it.
pub proof fn law_broker_messages(error: BrokerErrorView, shown: Seq<char>)
    ensures
        error matches BrokerErrorView::UnknownSession(id) ==> error.message_with(shown)
            == "no live session with id "@ + decimal(id as nat),
        error matches BrokerErrorView::NotPendingApproval(id) ==> error.message_with(shown)
            == "no session with id "@ + decimal(id as nat) + " is awaiting approval"@,
        error matches BrokerErrorView::InvalidRequest(fault) ==> error.message_with(shown)
            == "invalid request: "@ + fault.message(),
        error matches BrokerErrorView::Runtime(cause) ==> error.message_with(shown)
            == "runtime failure: "@ + cause.message_with(shown),
{
}

/// By default a broker holds 64 sessions, lets a parked one wait for half a minute and keeps 4096
/// audit entries.
pub proof fn law_default_bounds()
    ensures
        DEFAULT_MAX_OUTSTANDING_SESSIONS == 64,
        DEFAULT_APPROVAL_TIMEOUT == 30 * 1_000_000_000,
        DEFAULT_MAX_AUDIT_ENTRIES == 4096,
{
}

} // verus!
