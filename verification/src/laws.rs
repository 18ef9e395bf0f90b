//! What the sandbox promises as a whole.
//!
//! Each function states one promise over the models that the executable functions are specified by.

use vstd::prelude::*;

use crate::broker::{
    audit_outcome_of, marked_queue, newest, panic_message_of, pending_message_of, run_message_of,
    started_event, terminal_message_of, turn_message, ApprovalDecision, AuditOutcome, AuditView,
    BrokerErrorView, BrokerOutcome, BrokerView, Ending, JobSink, JobSnapshotView, JobStep, JobView,
    PendingView, QueuedView, SinkMessage, Taken, Terminal, Turn, DEFAULT_MAX_AUDIT_ENTRIES,
};
use crate::cancel::{law_tickets_tell_what_was_cancelled, CancelHandle, Ticket};
use crate::command::{
    ApprovalReason, ExecutionMode, Lifecycle, RequestView, SessionEvent, SessionView,
};
use crate::policy::Risk;
use crate::runtime::{RuntimeError, WasiOutput};

verus! {

// Sessions.

/// Whatever events a session is offered, the output it accepts stays within its budget.
pub proof fn law_output_stays_within_budget(session: SessionView, events: Seq<SessionEvent>)
    requires
        session.within_budget(),
    ensures
        session.after_all(events).within_budget(),
        session.after_all(events).id == session.id,
        session.after_all(events).limits == session.limits,
    decreases events.len(),
{
    if events.len() > 0 {
        law_output_stays_within_budget(session, events.drop_last());
    }
}

/// A finished session rejects every event and stays as it is.
pub proof fn law_finished_sessions_stay_finished(session: SessionView, events: Seq<SessionEvent>)
    requires
        session.lifecycle == Lifecycle::Finished,
    ensures
        session.after_all(events) == session,
        forall|event: SessionEvent| session.after(event) is Err,
    decreases events.len(),
{
    if events.len() > 0 {
        law_finished_sessions_stay_finished(session, events.drop_last());
    }
}

/// Output is accepted while a session runs and at no other time.
pub proof fn law_output_only_while_running(session: SessionView, event: SessionEvent)
    requires
        event is Output,
        session.after(event) is Ok,
    ensures
        session.lifecycle == Lifecycle::Running,
        session.after(event)->Ok_0.lifecycle == Lifecycle::Running,
{
}

/// A session runs only after it was told to start.
pub proof fn law_running_needs_a_start(session: SessionView, event: SessionEvent)
    requires
        session.lifecycle != Lifecycle::Running,
        session.after_or_same(event).lifecycle == Lifecycle::Running,
    ensures
        event is Started,
        session.lifecycle == Lifecycle::Created || session.lifecycle == Lifecycle::WaitingApproval,
{
}

// The queue and the capacity.

/// The jobs of a queue, in order.
pub open spec fn jobs_of<P>(queue: Seq<QueuedView<P>>) -> Seq<JobView<P>> {
    queue.map_values(|queued: QueuedView<P>| queued.job)
}

/// A valid request for this backend is refused as too many exactly if the broker holds as many
/// sessions as it may, counted per submission; a refused submission changes nothing, and an
/// accepted one adds one session at the end of the queue.
pub proof fn law_capacity_counts_submissions<P>(
    broker: BrokerView<P>,
    job: JobView<P>,
    signal: CancelHandle,
)
    requires
        broker.valid(),
        job.request.error() is None,
        job.request.mode == ExecutionMode::Wasi,
    ensures
        broker.submit_error(job.request) == Some(BrokerErrorView::QueueFull) <==> broker.held()
            >= broker.capacity,
        broker.submit_error(job.request) is Some ==> broker.after_submit(job, signal) == broker,
        broker.submit_error(job.request) is None ==> broker.after_submit(job, signal).held()
            == broker.held() + 1 && broker.after_submit(job, signal).queue.last().job == job
            && broker.after_submit(job, signal).is_live(job.request.id),
        broker.after_submit(job, signal).held() <= broker.capacity,
{
    let after = broker.after_submit(job, signal);
    if broker.submit_error(job.request) is None {
        assert(after.queued_ids()[broker.queue.len() as int] == job.request.id);
    }
}

/// Whatever happens, the number of sessions held never exceeds the capacity and the trail never
/// its cap.
pub proof fn law_every_step_keeps_the_broker_valid<P>(
    broker: BrokerView<P>,
    job: JobView<P>,
    signal: CancelHandle,
    id: u64,
    now: u128,
    notified: bool,
    result: Result<WasiOutput, RuntimeError>,
    snapshot: JobSnapshotView,
)
    requires
        broker.valid(),
    ensures
        broker.after_submit(job, signal).valid(),
        broker.after_next().valid(),
        broker.after_turn(job, now as nat).valid(),
        broker.after_notice(id, notified).valid(),
        broker.after_run(job, result).valid(),
        broker.after_panic(snapshot).valid(),
        broker.after_approve(id).valid(),
        broker.after_deny(id).valid(),
        broker.after_cancel(id).valid(),
        broker.after_sweep(now).valid(),
        broker.all_cancelled().valid(),
{
    broker.parked_ids().index_of_first_ensures(id);
    broker.parked_ids().index_of_last_ensures(id);
    lemma_split(broker.pending, Ending::Cancelled(id));
    lemma_split(broker.pending, Ending::Expired(now));
}

/// Every parked session either ends or stays.
proof fn lemma_split<P>(pending: Seq<PendingView<P>>, ending: Ending)
    ensures
        ending.ended(pending).len() + ending.kept(pending).len() == pending.len(),
        forall|i: int|
            0 <= i < ending.kept(pending).len() ==> !ending.selects(
                #[trigger] ending.kept(pending)[i],
            ) && pending.contains(ending.kept(pending)[i]),
        forall|i: int|
            0 <= i < ending.ended(pending).len() ==> ending.selects(
                #[trigger] ending.ended(pending)[i],
            ),
        forall|i: int|
            0 <= i < pending.len() && !ending.selects(#[trigger] pending[i]) ==> ending.kept(
                pending,
            ).contains(pending[i]),
    decreases pending.len(),
{
    reveal(Seq::filter);
    if pending.len() > 0 {
        let init = pending.drop_last();
        let last = pending.last();
        lemma_split(init, ending);
        assert(pending =~= init.push(last));
        let kept = ending.kept(pending);
        let before = ending.kept(init);
        if ending.selects(last) {
            assert(kept == before);
        } else {
            assert(kept == before.push(last));
        }
        assert forall|i: int| 0 <= i < kept.len() implies !ending.selects(#[trigger] kept[i])
            && pending.contains(kept[i]) by {
            if i < before.len() {
                assert(kept[i] == before[i]);
                let k = choose|k: int| 0 <= k < init.len() && init[k] == before[i];
                assert(pending[k] == kept[i]);
            } else {
                assert(pending[init.len() as int] == kept[i]);
            }
        }
        assert forall|i: int|
            0 <= i < pending.len() && !ending.selects(#[trigger] pending[i]) implies kept.contains(
            pending[i],
        ) by {
            if i < init.len() {
                assert(init[i] == pending[i]);
                let k = choose|k: int| 0 <= k < before.len() && before[k] == init[i];
                assert(kept[k] == pending[i]);
            } else {
                assert(kept[before.len() as int] == pending[i]);
            }
        }
    }
}

/// Sessions take their turns in the order in which they were queued: submitting and approving add
/// at the end, nothing but taking the next session removes one, and that removes the first.
pub proof fn law_turns_come_in_queue_order<P>(
    broker: BrokerView<P>,
    job: JobView<P>,
    signal: CancelHandle,
    id: u64,
    now: u128,
    notified: bool,
    result: Result<WasiOutput, RuntimeError>,
    snapshot: JobSnapshotView,
)
    ensures
        broker.queue.is_prefix_of(broker.after_submit(job, signal).queue),
        broker.queue.is_prefix_of(broker.after_approve(id).queue),
        broker.after_turn(job, now as nat).queue == broker.queue,
        broker.after_notice(id, notified).queue == broker.queue,
        broker.after_run(job, result).queue == broker.queue,
        broker.after_panic(snapshot).queue == broker.queue,
        broker.after_deny(id).queue == broker.queue,
        broker.after_sweep(now).queue == broker.queue,
        jobs_of(broker.after_cancel(id).queue) == jobs_of(broker.queue),
        jobs_of(broker.all_cancelled().queue) == jobs_of(broker.queue),
        broker.has_next() ==> broker.queue == seq![broker.queue[0]] + broker.after_next().queue,
{
    let len = broker.queue.len() as int;
    assert(broker.after_submit(job, signal).queue.subrange(0, len) =~= broker.queue);
    assert(broker.after_approve(id).queue.subrange(0, len) =~= broker.queue);
    assert(jobs_of(broker.after_cancel(id).queue) =~= jobs_of(broker.queue));
    assert(jobs_of(broker.all_cancelled().queue) =~= jobs_of(broker.queue));
    if broker.has_next() {
        assert(broker.queue =~= seq![broker.queue[0]] + broker.after_next().queue);
    }
}

/// Two accepted submissions are queued one after the other.
pub proof fn law_submission_order_is_queue_order<P>(
    broker: BrokerView<P>,
    first: JobView<P>,
    first_signal: CancelHandle,
    second: JobView<P>,
    second_signal: CancelHandle,
)
    requires
        broker.submit_error(first.request) is None,
        broker.after_submit(first, first_signal).submit_error(second.request) is None,
    ensures
        jobs_of(
            broker.after_submit(first, first_signal).after_submit(second, second_signal).queue,
        ) == jobs_of(broker.queue).push(first).push(second),
{
    assert(jobs_of(
        broker.after_submit(first, first_signal).after_submit(second, second_signal).queue,
    ) =~= jobs_of(broker.queue).push(first).push(second));
}

/// At most one session is worked on at a time: while one is, no other can be taken, and only its
/// own end or its parking changes that.
pub proof fn law_one_session_at_a_time<P>(
    broker: BrokerView<P>,
    job: JobView<P>,
    signal: CancelHandle,
    id: u64,
    now: u128,
    notified: bool,
    other: u64,
)
    requires
        broker.works_on(id),
        job.request.id == id ==> broker.turn(job) is Run,
    ensures
        !broker.has_next(),
        broker.after_next() == broker,
        broker.after_submit(job, signal).works_on(id),
        broker.after_turn(job, now as nat).works_on(id),
        broker.after_approve(other).works_on(id),
        broker.after_notice(other, notified).works_on(id),
        broker.after_deny(other).works_on(id),
        broker.after_cancel(other).works_on(id),
        broker.after_sweep(now).works_on(id),
        broker.all_cancelled().works_on(id),
{
}

/// Taking a session from the queue occupies the worker with it.
pub proof fn law_taking_a_session_occupies_the_worker<P>(broker: BrokerView<P>)
    requires
        broker.has_next(),
    ensures
        broker.after_next().works_on(broker.queue[0].job.request.id),
        !broker.after_next().has_next(),
        broker.after_next().held() == broker.held(),
{
}

/// Whether a step lost no session: those that it ended are recorded, one entry for each, and all
/// others are still held.
pub open spec fn accounts_for<P>(
    before: BrokerView<P>,
    after: BrokerView<P>,
    ended: Seq<AuditView>,
) -> bool {
    &&& after.audit == newest(before.audit + ended)
    &&& after.held() + ended.len() == before.held()
}

/// Every session that ends is recorded, one entry for each, and no step loses any other session,
/// whatever their ids: a session leaves the broker only by running, by bringing its worker down,
/// by a decision, by cancellation, by expiry, or because it cannot start or its caller is gone.
pub proof fn law_every_ended_session_is_recorded<P>(
    broker: BrokerView<P>,
    job: JobView<P>,
    id: u64,
    now: u128,
    result: Result<WasiOutput, RuntimeError>,
    snapshot: JobSnapshotView,
)
    requires
        broker.valid(),
    ensures
        accounts_for(broker, broker.after_next(), Seq::empty()),
        broker.turn(job) is Run || broker.turn(job) is Wait ==> accounts_for(
            broker,
            broker.after_turn(job, now as nat),
            Seq::empty(),
        ),
        broker.turn(job) is CancelledBeforeStart ==> accounts_for(
            broker,
            broker.after_turn(job, now as nat),
            seq![job.entry(job.admission, AuditOutcome::Cancelled)],
        ),
        broker.turn(job) is CannotStart ==> accounts_for(
            broker,
            broker.after_turn(job, now as nat),
            seq![job.entry(job.admission, AuditOutcome::Denied)],
        ),
        accounts_for(broker, broker.after_notice(id, true), Seq::empty()),
        broker.last_parked(id) matches Some(at) ==> accounts_for(
            broker,
            broker.after_notice(id, false),
            seq![broker.pending[at].job.entry(ApprovalDecision::Cancelled, AuditOutcome::Cancelled)],
        ),
        broker.works_on(job.request.id) ==> accounts_for(
            broker,
            broker.after_run(job, result),
            seq![job.entry(job.admission, audit_outcome_of(result))],
        ),
        broker.works_on(snapshot.id) ==> accounts_for(
            broker,
            broker.after_panic(snapshot),
            seq![snapshot.entry()],
        ),
        broker.first_parked(id) matches Some(at) ==> accounts_for(
            broker,
            broker.after_deny(id),
            seq![broker.pending[at].job.entry(ApprovalDecision::Denied, AuditOutcome::Denied)],
        ),
        broker.first_parked(id) matches Some(at) ==> accounts_for(
            broker,
            broker.after_approve(id),
            if broker.pending[at].ticket.cancelled() {
                seq![
                    broker.pending[at].job.entry(
                        ApprovalDecision::Cancelled,
                        AuditOutcome::Cancelled,
                    ),
                ]
            } else if broker.worker_stopped {
                seq![broker.pending[at].job.entry(ApprovalDecision::Approved, AuditOutcome::Failed)]
            } else {
                Seq::empty()
            },
        ),
        accounts_for(
            broker,
            broker.after_cancel(id),
            Ending::Cancelled(id).entries(Ending::Cancelled(id).ended(broker.pending)),
        ),
        accounts_for(
            broker,
            broker.after_sweep(now),
            Ending::Expired(now).entries(Ending::Expired(now).ended(broker.pending)),
        ),
        accounts_for(broker, broker.all_cancelled(), Seq::empty()),
{
    assert(broker.audit + Seq::<AuditView>::empty() =~= broker.audit);
    assert forall|entry: AuditView| #[trigger] broker.audit.push(entry) == broker.audit
        + seq![entry] by {
        assert(broker.audit.push(entry) =~= broker.audit + seq![entry]);
    }
    broker.parked_ids().index_of_first_ensures(id);
    broker.parked_ids().index_of_last_ensures(id);
    lemma_split(broker.pending, Ending::Cancelled(id));
    lemma_split(broker.pending, Ending::Expired(now));
    if !broker.is_live(id) {
        let ended = Ending::Cancelled(id).ended(broker.pending);
        lemma_nothing_parked(broker, id);
        assert(Ending::Cancelled(id).entries(ended) =~= Seq::empty());
    }
}

/// Where nothing is parked under an id, cancelling it ends no parked session.
proof fn lemma_nothing_parked<P>(broker: BrokerView<P>, id: u64)
    requires
        !broker.parked_ids().contains(id),
    ensures
        Ending::Cancelled(id).ended(broker.pending) == Seq::<PendingView<P>>::empty(),
        Ending::Cancelled(id).kept(broker.pending) == broker.pending,
{
    let ending = Ending::Cancelled(id);
    assert forall|i: int| 0 <= i < broker.pending.len() implies !ending.selects(
        #[trigger] broker.pending[i],
    ) by {
        assert(broker.parked_ids()[i] == broker.pending[i].job.request.id);
    }
    lemma_all_stay(broker.pending, ending);
}

/// Where no parked session is selected, all of them stay.
proof fn lemma_all_stay<P>(pending: Seq<PendingView<P>>, ending: Ending)
    requires
        forall|i: int| 0 <= i < pending.len() ==> !ending.selects(#[trigger] pending[i]),
    ensures
        ending.ended(pending) == Seq::<PendingView<P>>::empty(),
        ending.kept(pending) == pending,
    decreases pending.len(),
{
    reveal(Seq::filter);
    if pending.len() > 0 {
        let init = pending.drop_last();
        assert forall|i: int| 0 <= i < init.len() implies !ending.selects(#[trigger] init[i]) by {
            assert(init[i] == pending[i]);
        }
        lemma_all_stay(init, ending);
        assert(pending =~= init.push(pending.last()));
        assert(!ending.selects(pending[pending.len() - 1]));
    }
}

// Approval.

/// A risky session runs only with a human's approval.
pub proof fn law_risky_sessions_wait_for_approval<P>(broker: BrokerView<P>, job: JobView<P>)
    ensures
        broker.turn(job) is Run ==> job.request.risk() == Risk::AutoApprove || job.admission
            == ApprovalDecision::Approved,
        job.request.risk() != Risk::AutoApprove && job.admission != ApprovalDecision::Approved
            && broker.works_on(job.request.id) ==> broker.turn(job) is Wait,
{
}

/// Whether every approved session of a queue is one of another queue.
pub open spec fn approved_within<P>(
    queue: Seq<QueuedView<P>>,
    allowed: Seq<QueuedView<P>>,
) -> bool {
    forall|i: int|
        0 <= i < queue.len() && (#[trigger] queue[i]).job.admission == ApprovalDecision::Approved
            ==> allowed.contains(queue[i])
}

/// A session is admitted as approved only by approving it while it is parked: submitting never
/// does, and approving adds that one parked session and no other.
pub proof fn law_only_approval_admits_as_approved<P>(
    broker: BrokerView<P>,
    request: RequestView,
    payload: P,
    sink: JobSink,
    signal: CancelHandle,
    id: u64,
)
    ensures
        approved_within(
            broker.after_submit(JobView::submitted(request, payload, sink), signal).queue,
            broker.queue,
        ),
        broker.first_parked(id) is None ==> broker.after_approve(id) == broker,
        broker.first_parked(id) matches Some(at) ==> broker.after_approve(id).queue == broker.queue
            || broker.after_approve(id).queue == broker.queue.push(
            QueuedView {
                job: broker.pending[at].job.approved(),
                ticket: broker.pending[at].ticket,
            },
        ),
{
    let after = broker.after_submit(JobView::submitted(request, payload, sink), signal).queue;
    assert forall|i: int|
        0 <= i < after.len() && (#[trigger] after[i]).job.admission
            == ApprovalDecision::Approved implies broker.queue.contains(after[i]) by {
        assert(after[i] == broker.queue[i]);
    }
}

/// A session is parked at most once: once approved, it is never parked again.
pub proof fn law_sessions_park_at_most_once<P>(broker: BrokerView<P>, job: JobView<P>)
    ensures
        !(broker.turn(job.approved()) is Wait),
{
}

/// Parking adds a session behind the parked ones and leaves each of those as it is, also where it
/// has the same id.
pub proof fn law_parking_keeps_the_parked<P>(broker: BrokerView<P>, job: JobView<P>, now: nat)
    requires
        broker.turn(job) is Wait,
    ensures
        broker.after_turn(job, now).pending.len() == broker.pending.len() + 1,
        broker.after_turn(job, now).pending.drop_last() == broker.pending,
        broker.after_turn(job, now).is_live(job.request.id),
{
    let after = broker.after_turn(job, now);
    assert(after.pending.drop_last() =~= broker.pending);
    assert(after.parked_ids()[broker.pending.len() as int] == job.request.id);
}

/// A session as it is submitted, and one that was parked and then approved, can always start.
pub proof fn law_queued_sessions_can_start<P>(
    broker: BrokerView<P>,
    request: RequestView,
    payload: P,
    sink: JobSink,
    reason: ApprovalReason,
)
    ensures
        !(broker.turn(JobView::submitted(request, payload, sink)) is CannotStart),
        !(broker.turn(JobView::submitted(request, payload, sink).parked(reason).approved())
            is CannotStart),
{
}

/// A denied session never runs: it is the one parked first under the id, it is no longer held, the
/// queue is as before, and every other parked session stays.
pub proof fn law_denied_sessions_never_run<P>(broker: BrokerView<P>, id: u64)
    requires
        broker.valid(),
        broker.first_parked(id) is Some,
    ensures
        ({
            let at = broker.first_parked(id)->0;
            let after = broker.after_deny(id);
            &&& broker.pending[at].job.request.id == id
            &&& after.pending == broker.pending.remove(at)
            &&& after.held() == broker.held() - 1
            &&& after.queue == broker.queue
            &&& after.taken == broker.taken
            &&& after.audit == newest(
                broker.audit.push(
                    broker.pending[at].job.entry(ApprovalDecision::Denied, AuditOutcome::Denied),
                ),
            )
        }),
{
    broker.parked_ids().index_of_first_ensures(id);
}

/// A sweep leaves no parked session past its deadline, keeps every other one, and queues nothing.
pub proof fn law_sweep_denies_what_expired<P>(broker: BrokerView<P>, now: u128)
    ensures
        forall|i: int|
            0 <= i < broker.after_sweep(now).pending.len() ==> (
            #[trigger] broker.after_sweep(now).pending[i]).deadline > now,
        forall|i: int|
            0 <= i < broker.pending.len() && (#[trigger] broker.pending[i]).deadline > now
                ==> broker.after_sweep(now).pending.contains(broker.pending[i]),
        broker.after_sweep(now).queue == broker.queue,
        broker.after_sweep(now).taken == broker.taken,
{
    lemma_split(broker.pending, Ending::Expired(now));
    assert forall|i: int| 0 <= i < broker.after_sweep(now).pending.len() implies (
    #[trigger] broker.after_sweep(now).pending[i]).deadline > now by {
        assert(!Ending::Expired(now).selects(Ending::Expired(now).kept(broker.pending)[i]));
    }
}

// Cancellation.

/// A cancellation reaches every session under its id and no other: parked ones are gone, the
/// others are marked and keep their signals, and the signal handed out is that of the session
/// being worked on.
pub proof fn law_cancel_reaches_every_session<P>(broker: BrokerView<P>, id: u64)
    ensures
        !broker.after_cancel(id).parked_ids().contains(id),
        forall|i: int|
            0 <= i < broker.queue.len() ==> #[trigger] broker.after_cancel(id).queue[i] == (
            if broker.queue[i].job.request.id == id {
                QueuedView { ticket: broker.queue[i].ticket.marked(), ..broker.queue[i] }
            } else {
                broker.queue[i]
            }),
        broker.works_on(id) ==> broker.after_cancel(id).taken == Some(
            Taken { ticket: broker.taken->0.ticket.marked(), ..broker.taken->0 },
        ) && broker.working_signal(Some(id)) == Some(broker.taken->0.ticket.signal()),
        !broker.works_on(id) ==> broker.after_cancel(id).taken == broker.taken
            && broker.working_signal(Some(id)) is None,
        forall|i: int|
            0 <= i < broker.pending.len() && (#[trigger] broker.pending[i]).job.request.id != id
                ==> broker.after_cancel(id).pending.contains(broker.pending[i]),
{
    let ending = Ending::Cancelled(id);
    let after = broker.after_cancel(id);
    lemma_split(broker.pending, ending);
    if broker.is_live(id) {
        if after.parked_ids().contains(id) {
            let k = choose|k: int| 0 <= k < after.parked_ids().len() && after.parked_ids()[k] == id;
            assert(!ending.selects(ending.kept(broker.pending)[k]));
        }
    } else {
        assert forall|i: int| 0 <= i < broker.queue.len() implies broker.queue[i].job.request.id
            != id by {
            assert(broker.queued_ids()[i] == broker.queue[i].job.request.id);
        }
        assert forall|i: int| 0 <= i < broker.pending.len() implies after.pending.contains(
            #[trigger] broker.pending[i],
        ) by {
            assert(after.pending[i] == broker.pending[i]);
        }
    }
}

/// Whether the broker keeps a ticket for some session.
pub open spec fn keeps<P>(broker: BrokerView<P>, ticket: Ticket) -> bool {
    ||| broker.taken matches Some(taken) && taken.ticket == ticket
    ||| exists|i: int| 0 <= i < broker.queue.len() && (#[trigger] broker.queue[i]).ticket == ticket
    ||| exists|i: int|
        0 <= i < broker.pending.len() && (#[trigger] broker.pending[i]).ticket == ticket
}

/// Cancelling one id sets the signals of the sessions under it and of no other: whatever session is
/// held under another id has the same ticket, signal and mark before and after, whether it is
/// queued, parked or being worked on.
pub proof fn law_cancelling_touches_no_other_signal<P>(broker: BrokerView<P>, id: u64)
    ensures
        broker.after_cancel(id).queue.len() == broker.queue.len(),
        forall|i: int|
            0 <= i < broker.queue.len() ==> {
                let before = broker.queue[i];
                let after = #[trigger] broker.after_cancel(id).queue[i];
                &&& after.job == before.job
                &&& after.ticket.signal() == before.ticket.signal()
                &&& after.ticket.cancelled() <==> before.ticket.cancelled()
                    || before.job.request.id == id
            },
        broker.taken matches Some(before) ==> (broker.after_cancel(id).taken matches Some(after)
            && after.id == before.id && after.ticket.signal() == before.ticket.signal() && (
        after.ticket.cancelled() <==> before.ticket.cancelled() || before.id == id)),
        broker.taken is None ==> broker.after_cancel(id).taken is None,
        forall|i: int|
            0 <= i < broker.after_cancel(id).pending.len() ==> broker.pending.contains(
                #[trigger] broker.after_cancel(id).pending[i],
            ) && broker.after_cancel(id).pending[i].job.request.id != id,
        forall|i: int|
            0 <= i < broker.pending.len() && (#[trigger] broker.pending[i]).job.request.id != id
                ==> broker.after_cancel(id).pending.contains(broker.pending[i]),
{
    let after = broker.after_cancel(id);
    law_cancel_reaches_every_session(broker, id);
    lemma_split(broker.pending, Ending::Cancelled(id));
    if broker.taken is Some {
        let ticket = broker.taken->0.ticket;
        law_tickets_tell_what_was_cancelled(ticket, ticket.signal());
    }
    assert forall|i: int| 0 <= i < broker.queue.len() implies {
        let before = broker.queue[i];
        let after = #[trigger] broker.after_cancel(id).queue[i];
        &&& after.job == before.job
        &&& after.ticket.signal() == before.ticket.signal()
        &&& after.ticket.cancelled() <==> before.ticket.cancelled() || before.job.request.id == id
    } by {
        let ticket = broker.queue[i].ticket;
        law_tickets_tell_what_was_cancelled(ticket, ticket.signal());
    }
    assert forall|i: int| 0 <= i < after.pending.len() implies broker.pending.contains(
        #[trigger] after.pending[i],
    ) && after.pending[i].job.request.id != id by {
        if broker.is_live(id) {
            assert(after.pending[i] == Ending::Cancelled(id).kept(broker.pending)[i]);
            assert(!Ending::Cancelled(id).selects(Ending::Cancelled(id).kept(broker.pending)[i]));
        } else {
            assert(after.pending[i] == broker.pending[i]);
            assert(broker.parked_ids()[i] == broker.pending[i].job.request.id);
            assert(broker.parked_ids().contains(broker.parked_ids()[i]));
        }
    }
}

/// No step but a cancellation changes a ticket: each ticket that the broker keeps after any other
/// step it kept before, and a submission adds one whose session was not cancelled.
pub proof fn law_only_cancellations_set_signals<P>(
    broker: BrokerView<P>,
    job: JobView<P>,
    signal: CancelHandle,
    id: u64,
    now: u128,
    notified: bool,
    result: Result<WasiOutput, RuntimeError>,
    snapshot: JobSnapshotView,
    ticket: Ticket,
)
    ensures
        keeps(broker.after_next(), ticket) ==> keeps(broker, ticket),
        keeps(broker.after_turn(job, now as nat), ticket) ==> keeps(broker, ticket),
        keeps(broker.after_notice(id, notified), ticket) ==> keeps(broker, ticket),
        keeps(broker.after_run(job, result), ticket) ==> keeps(broker, ticket),
        keeps(broker.after_panic(snapshot), ticket) ==> keeps(broker, ticket),
        keeps(broker.after_approve(id), ticket) ==> keeps(broker, ticket),
        keeps(broker.after_deny(id), ticket) ==> keeps(broker, ticket),
        keeps(broker.after_sweep(now), ticket) ==> keeps(broker, ticket),
        keeps(broker.after_submit(job, signal), ticket) ==> keeps(broker, ticket) || (
        ticket.signal() == signal && !ticket.cancelled()),
{
    broker.parked_ids().index_of_first_ensures(id);
    broker.parked_ids().index_of_last_ensures(id);
    lemma_split(broker.pending, Ending::Expired(now));
    law_tickets_tell_what_was_cancelled(ticket, signal);
    let kept = broker.after_sweep(now).pending;
    assert forall|i: int| 0 <= i < kept.len() implies keeps(broker, (#[trigger] kept[i]).ticket) by {
        assert(broker.pending.contains(Ending::Expired(now).kept(broker.pending)[i]));
        let k = choose|k: int| 0 <= k < broker.pending.len() && broker.pending[k] == kept[i];
        lemma_keeps_parked(broker, k);
    }
    lemma_only_kept(broker, broker.after_next(), ticket);
    lemma_only_kept(broker, broker.after_turn(job, now as nat), ticket);
    lemma_only_kept(broker, broker.after_notice(id, notified), ticket);
    lemma_only_kept(broker, broker.after_run(job, result), ticket);
    lemma_only_kept(broker, broker.after_panic(snapshot), ticket);
    lemma_only_kept(broker, broker.after_deny(id), ticket);
    lemma_only_kept(broker, broker.after_approve(id), ticket);
    lemma_only_kept(broker, broker.after_submit(job, signal), ticket);
}

/// A broker keeps the ticket of each session it has parked.
proof fn lemma_keeps_parked<P>(broker: BrokerView<P>, at: int)
    requires
        0 <= at < broker.pending.len(),
    ensures
        keeps(broker, broker.pending[at].ticket),
{
    let ticket = broker.pending[at].ticket;
    assert(broker.pending[at].ticket == ticket);
}

/// Whether the sessions of a list are those of another, one left out or one added at the end.
pub open spec fn nearly<T>(before: Seq<T>, after: Seq<T>, added: T) -> bool {
    ||| after == before
    ||| after == before.push(added)
    ||| exists|at: int| 0 <= at < before.len() && after == #[trigger] before.remove(at)
    ||| before.len() > 0 && after == before.skip(1)
}

/// A ticket that is kept after a step that leaves out or adds at most one session in each place was
/// kept before, or is that of the session added.
proof fn lemma_only_kept<P>(before: BrokerView<P>, after: BrokerView<P>, ticket: Ticket)
    requires
        nearly(before.queue, after.queue, after.queue.last()),
        nearly(before.pending, after.pending, after.pending.last()),
        after.taken is None || after.taken == before.taken || before.queue.len() > 0
            && after.taken->0.ticket == before.queue[0].ticket,
    ensures
        keeps(after, ticket) ==> {
            ||| keeps(before, ticket)
            ||| after.queue.len() > before.queue.len() && after.queue.last().ticket == ticket
            ||| after.pending.len() > before.pending.len() && after.pending.last().ticket == ticket
        },
{
    if keeps(after, ticket) {
        if exists|i: int| 0 <= i < after.queue.len() && (#[trigger] after.queue[i]).ticket
            == ticket {
            let i = choose|i: int|
                0 <= i < after.queue.len() && (#[trigger] after.queue[i]).ticket == ticket;
            assert(i < before.queue.len() && after.queue[i] == before.queue[i] || i + 1
                < before.queue.len() && after.queue[i] == before.queue[i + 1] || after.queue.len()
                > before.queue.len() && i == after.queue.len() - 1);
        } else if exists|i: int| 0 <= i < after.pending.len() && (
        #[trigger] after.pending[i]).ticket == ticket {
            let i = choose|i: int|
                0 <= i < after.pending.len() && (#[trigger] after.pending[i]).ticket == ticket;
            assert(i < before.pending.len() && after.pending[i] == before.pending[i] || i + 1
                < before.pending.len() && after.pending[i] == before.pending[i + 1]
                || after.pending.len() > before.pending.len() && i == after.pending.len() - 1);
        }
    }
}

/// A session is handed out to run only if it was not cancelled, and it is handed out with the
/// signal of its own ticket.
pub proof fn law_sessions_start_with_a_signal_that_is_not_set<P>(
    broker: BrokerView<P>,
    job: JobView<P>,
    step: JobStep<P>,
)
    requires
        step.carries_out(broker.turn(job), job, broker.taken),
        step is Run,
    ensures
        broker.taken matches Some(taken) && taken.id == job.request.id && !taken.ticket.cancelled()
            && step->Run_cancel == taken.ticket.signal(),
{
}

/// Cancelling twice is cancelling once.
pub proof fn law_cancel_is_idempotent<P>(broker: BrokerView<P>, id: u64)
    requires
        broker.valid(),
    ensures
        broker.after_cancel(id).after_cancel(id) == broker.after_cancel(id),
{
    let once = broker.after_cancel(id);
    let twice = once.after_cancel(id);
    law_cancel_reaches_every_session(broker, id);
    lemma_cancel_keeps_valid(broker, id);
    lemma_nothing_parked(once, id);
    assert(Ending::Cancelled(id).entries(Seq::<PendingView<P>>::empty()) =~= Seq::empty());
    assert(once.audit + Seq::<AuditView>::empty() =~= once.audit);
    if once.is_live(id) {
        if broker.works_on(id) {
            let ticket = broker.taken->0.ticket;
            law_tickets_tell_what_was_cancelled(ticket, ticket.signal());
        }
        assert forall|i: int| 0 <= i < once.queue.len() implies twice.queue[i] == once.queue[i] by {
            let ticket = broker.queue[i].ticket;
            law_tickets_tell_what_was_cancelled(ticket, ticket.signal());
            assert(once.queue[i] == broker.after_cancel(id).queue[i]);
            if broker.queue.len() > i && broker.is_live(id) {
                assert(once.queue[i] == marked_queue(broker.queue, Some(id))[i]);
            }
        }
        assert(twice.queue =~= once.queue);
        assert(twice =~= once);
    }
}

/// A cancellation keeps the broker valid.
proof fn lemma_cancel_keeps_valid<P>(broker: BrokerView<P>, id: u64)
    requires
        broker.valid(),
    ensures
        broker.after_cancel(id).valid(),
{
    lemma_split(broker.pending, Ending::Cancelled(id));
}

/// A cancelled session never starts: not when its turn comes, and not by being approved later.
pub proof fn law_cancelled_sessions_never_start<P>(broker: BrokerView<P>, job: JobView<P>, id: u64)
    ensures
        broker.taken matches Some(taken) && taken.ticket.cancelled() ==> !(broker.turn(job) is Run),
        broker.first_parked(id) matches Some(at) ==> broker.pending[at].ticket.cancelled()
            ==> broker.after_approve(id).queue == broker.queue,
{
}

/// A session keeps its signal and its mark on its way through the broker: from the queue to the
/// worker, from there to the parked ones, and back to the queue. A session that runs is
/// interrupted by the signal that the broker keeps for it.
pub proof fn law_tickets_follow_their_sessions<P>(
    broker: BrokerView<P>,
    job: JobView<P>,
    id: u64,
    now: nat,
)
    ensures
        broker.has_next() ==> broker.after_next().taken->0.ticket == broker.queue[0].ticket,
        broker.turn(job) is Wait ==> broker.after_turn(job, now).pending.last().ticket
            == broker.taken->0.ticket,
        broker.turn(job) is Run ==> broker.after_turn(job, now).taken == broker.taken,
        broker.approve_error(id) is None && !broker.pending[broker.first_parked(
            id,
        )->0].ticket.cancelled() ==> broker.after_approve(id).queue.last().ticket
            == broker.pending[broker.first_parked(id)->0].ticket,
{
}

/// Once everything is cancelled, every session held is marked, and keeps its signal.
pub proof fn law_shutdown_cancels_everything<P>(broker: BrokerView<P>)
    ensures
        forall|i: int|
            0 <= i < broker.queue.len() ==> (
            #[trigger] broker.all_cancelled().queue[i]).ticket == broker.queue[i].ticket.marked(),
        forall|i: int|
            0 <= i < broker.pending.len() ==> (
            #[trigger] broker.all_cancelled().pending[i]).ticket
                == broker.pending[i].ticket.marked(),
        broker.taken matches Some(taken) ==> broker.all_cancelled().taken == Some(
            Taken { ticket: taken.ticket.marked(), ..taken },
        ) && broker.working_signal(None) == Some(taken.ticket.signal()),
        broker.all_cancelled().held() == broker.held(),
{
}

// The audit trail.

/// The trail keeps the newest entries in order: the latest is always there, what is dropped is the
/// oldest, and there are never more than the cap.
pub proof fn law_audit_keeps_the_newest(trail: Seq<AuditView>, entry: AuditView)
    requires
        trail.len() <= DEFAULT_MAX_AUDIT_ENTRIES,
    ensures
        newest(trail.push(entry)).len() <= DEFAULT_MAX_AUDIT_ENTRIES,
        newest(trail.push(entry)).last() == entry,
        trail.len() < DEFAULT_MAX_AUDIT_ENTRIES ==> newest(trail.push(entry)) == trail.push(entry),
        trail.len() == DEFAULT_MAX_AUDIT_ENTRIES ==> newest(trail.push(entry)) == trail.skip(1).push(
            entry,
        ),
{
    if trail.len() == DEFAULT_MAX_AUDIT_ENTRIES {
        assert(newest(trail.push(entry)) =~= trail.skip(1).push(entry));
    }
}

/// A session that ran is released: its slot is free, and the next session can be taken.
pub proof fn law_finished_sessions_are_released<P>(
    broker: BrokerView<P>,
    job: JobView<P>,
    result: Result<WasiOutput, RuntimeError>,
)
    requires
        broker.works_on(job.request.id),
    ensures
        broker.after_run(job, result).taken is None,
        broker.after_run(job, result).held() == broker.held() - 1,
        broker.queue.len() > 0 ==> broker.after_run(job, result).has_next(),
        !broker.queued_ids().contains(job.request.id) && !broker.parked_ids().contains(
            job.request.id,
        ) ==> !broker.after_run(job, result).is_live(job.request.id),
{
}

// What callers are told.

/// Whether an event ends a session.
pub open spec fn closes(event: SessionEvent) -> bool {
    event is Exited || event is Cancelled || event is Denied || event is Unsupported
}

/// Whether a list of events is a full story in lifecycle order: optionally a `PendingApproval`,
/// then either a terminal event alone or `Started`, output chunks and a terminal event.
pub open spec fn lifecycle_order(events: Seq<SessionEvent>) -> bool {
    let rest = if events.len() > 0 && events[0] is PendingApproval {
        events.skip(1)
    } else {
        events
    };
    &&& rest.len() > 0
    &&& closes(rest.last())
    &&& rest.len() > 1 ==> rest[0] is Started
    &&& forall|i: int| 1 <= i < rest.len() - 1 ==> #[trigger] rest[i] is Output
}

/// The message that closes a run: what it came to, or that it panicked if it came to nothing.
pub open spec fn closing_message(
    sink: JobSink,
    result: Option<Result<WasiOutput, RuntimeError>>,
) -> SinkMessage {
    match result {
        Some(result) => run_message_of(sink, result),
        None => panic_message_of(sink),
    }
}

/// The events that a streamed session sends from its turn on; a run that panics has no result.
pub open spec fn events_from_turn(
    turn: Turn,
    outputs: Seq<SessionEvent>,
    result: Option<Result<WasiOutput, RuntimeError>>,
) -> Seq<SessionEvent> {
    if turn is Run {
        seq![started_event(JobSink::Events)->0] + outputs + seq![
            closing_message(JobSink::Events, result)->Event_0,
        ]
    } else {
        seq![turn_message(turn, JobSink::Events)->Event_0]
    }
}

/// What the caller of a streamed session receives is in lifecycle order, whether the session runs
/// at once, waits and then runs, or waits and is denied or cancelled, whether the run comes to a
/// result or panics before or after its start, and whatever the broker's state is each time.
pub proof fn law_streamed_events_follow_the_lifecycle<P>(
    first: BrokerView<P>,
    second: BrokerView<P>,
    job: JobView<P>,
    reason: ApprovalReason,
    terminal: Terminal,
    outputs: Seq<SessionEvent>,
    result: Option<Result<WasiOutput, RuntimeError>>,
)
    requires
        forall|i: int| 0 <= i < outputs.len() ==> #[trigger] outputs[i] is Output,
    ensures
        lifecycle_order(seq![panic_message_of(JobSink::Events)->Event_0]),
        lifecycle_order(
            seq![
                pending_message_of(JobSink::Events, reason)->Event_0,
                panic_message_of(JobSink::Events)->Event_0,
            ],
        ),
        !(first.turn(job) is Wait) ==> lifecycle_order(
            events_from_turn(first.turn(job), outputs, result),
        ),
        first.turn(job) == Turn::Wait(reason) ==> lifecycle_order(
            seq![pending_message_of(JobSink::Events, reason)->Event_0] + events_from_turn(
                second.turn(job.parked(reason).approved()),
                outputs,
                result,
            ),
        ),
        first.turn(job) == Turn::Wait(reason) ==> lifecycle_order(
            seq![
                pending_message_of(JobSink::Events, reason)->Event_0,
                terminal_message_of(JobSink::Events, terminal)->Event_0,
            ],
        ),
{
    let at_once = events_from_turn(first.turn(job), outputs, result);
    let later = events_from_turn(second.turn(job.parked(reason).approved()), outputs, result);
    let pending = seq![pending_message_of(JobSink::Events, reason)->Event_0];
    assert(forall|i: int| 1 <= i < at_once.len() - 1 ==> at_once[i] == outputs[i - 1]);
    assert(forall|i: int| 1 <= i < later.len() - 1 ==> later[i] == outputs[i - 1]);
    assert((pending + later).skip(1) =~= later);
    let ended = seq![
        pending_message_of(JobSink::Events, reason)->Event_0,
        terminal_message_of(JobSink::Events, terminal)->Event_0,
    ];
    assert(ended.skip(1) =~= seq![terminal_message_of(JobSink::Events, terminal)->Event_0]);
    let failed = seq![
        pending_message_of(JobSink::Events, reason)->Event_0,
        panic_message_of(JobSink::Events)->Event_0,
    ];
    assert(failed.skip(1) =~= seq![panic_message_of(JobSink::Events)->Event_0]);
}

/// Whether an outcome ends a session.
pub open spec fn is_final(outcome: BrokerOutcome) -> bool {
    !(outcome is PendingApproval)
}

/// The caller of a captured session receives exactly one terminal outcome, after a
/// `PendingApproval` if the session had to wait: what a turn, a run or a decision sends is terminal,
/// and only a waiting turn sends anything else.
pub proof fn law_captured_sessions_end_once(
    turn: Turn,
    terminal: Terminal,
    result: Option<Result<WasiOutput, RuntimeError>>,
)
    ensures
        turn_message(turn, JobSink::Outcome) is Outcome,
        is_final(turn_message(turn, JobSink::Outcome)->Outcome_0) <==> !(turn is Wait),
        closing_message(JobSink::Outcome, result) is Outcome,
        is_final(closing_message(JobSink::Outcome, result)->Outcome_0),
        terminal_message_of(JobSink::Outcome, terminal) is Outcome,
        is_final(terminal_message_of(JobSink::Outcome, terminal)->Outcome_0),
        started_event(JobSink::Outcome) is None,
{
}

/// What is recorded of a run is what its caller is told: a completion with the same exit code, a
/// cancellation, a denial or a failure.
pub proof fn law_record_and_message_agree(result: Result<WasiOutput, RuntimeError>)
    ensures
        match audit_outcome_of(result) {
            AuditOutcome::Completed { exit_code } => {
                &&& run_message_of(JobSink::Events, result) == SinkMessage::Event(
                    SessionEvent::Exited { code: Some(exit_code) },
                )
                &&& run_message_of(JobSink::Outcome, result) matches SinkMessage::Outcome(
                    BrokerOutcome::Completed(output),
                ) && output.exit_code == exit_code
            },
            AuditOutcome::Cancelled => {
                &&& run_message_of(JobSink::Events, result) == SinkMessage::Event(
                    SessionEvent::Cancelled,
                )
                &&& run_message_of(JobSink::Outcome, result) == SinkMessage::Outcome(
                    BrokerOutcome::Cancelled,
                )
            },
            AuditOutcome::Denied => {
                &&& run_message_of(JobSink::Events, result) == SinkMessage::Event(
                    SessionEvent::Denied,
                )
                &&& run_message_of(JobSink::Outcome, result) matches SinkMessage::Outcome(
                    BrokerOutcome::Denied(error),
                )
            },
            AuditOutcome::Failed => {
                &&& run_message_of(JobSink::Events, result) == SinkMessage::Event(
                    SessionEvent::Unsupported,
                )
                &&& run_message_of(JobSink::Outcome, result) matches SinkMessage::Outcome(
                    BrokerOutcome::Failed(error),
                )
            },
        },
{
}

// Each step by what goes in and what comes out.

/// Why a submission is refused, said of the request and of the sessions held: an invalid request
/// for its own fault, one for another backend, one too many, and any once the queue is no longer
/// served. Everything else is accepted.
pub proof fn law_submissions_are_refused_for_a_reason<P>(broker: BrokerView<P>, request: RequestView)
    ensures
        ({
            let held = broker.queue.len() + broker.pending.len() + if broker.taken is Some {
                1int
            } else {
                0int
            };
            let refused = broker.submit_error(request);
            &&& request.error() matches Some(error) ==> refused == Some(
                BrokerErrorView::InvalidRequest(error),
            )
            &&& request.error() is None && request.mode == ExecutionMode::Native ==> refused == Some(
                BrokerErrorView::NotWasi,
            )
            &&& request.error() is None && request.mode == ExecutionMode::Wasi && held
                >= broker.capacity ==> refused == Some(BrokerErrorView::QueueFull)
            &&& request.error() is None && request.mode == ExecutionMode::Wasi && held
                < broker.capacity && broker.worker_stopped ==> refused == Some(
                BrokerErrorView::WorkerStopped,
            )
            &&& request.error() is None && request.mode == ExecutionMode::Wasi && held
                < broker.capacity && !broker.worker_stopped ==> refused is None
        }),
{
}

/// An accepted session is queued as it was submitted: its request, its payload and where it reports
/// are those of the submission, nothing has happened to it, and nobody has approved or cancelled it.
pub proof fn law_submitted_sessions_are_queued_as_they_are<P>(
    broker: BrokerView<P>,
    request: RequestView,
    payload: P,
    sink: JobSink,
    signal: CancelHandle,
)
    requires
        broker.submit_error(request) is None,
    ensures
        ({
            let after = broker.after_submit(JobView::submitted(request, payload, sink), signal);
            let queued = after.queue.last();
            &&& after.queue.drop_last() == broker.queue
            &&& queued.job.request == request
            &&& queued.job.payload == payload
            &&& queued.job.sink == sink
            &&& queued.job.admission == ApprovalDecision::AutoApproved
            &&& queued.job.session.id == request.id
            &&& queued.job.session.limits == request.grant.limits
            &&& queued.job.session.output_bytes == 0
            &&& queued.job.session.lifecycle == Lifecycle::Created
            &&& queued.ticket.signal() == signal
            &&& !queued.ticket.cancelled()
            &&& after.taken == broker.taken
            &&& after.pending == broker.pending
            &&& after.audit == broker.audit
        }),
{
    let after = broker.after_submit(JobView::submitted(request, payload, sink), signal);
    law_tickets_tell_what_was_cancelled(Ticket::fresh(signal), signal);
    assert(after.queue.drop_last() =~= broker.queue);
}

/// What becomes of a session whose turn has come: it must be the one that the broker works on, a
/// risky one that nobody approved waits for that reason, a cancelled one ends, and otherwise it runs
/// if it has not started or ended before.
pub proof fn law_turns_follow_risk_and_cancellation<P>(broker: BrokerView<P>, job: JobView<P>)
    ensures
        ({
            let held = broker.taken matches Some(taken) && taken.id == job.request.id;
            let waits = job.request.risk() != Risk::AutoApprove && job.admission
                != ApprovalDecision::Approved;
            let cancelled = broker.taken->0.ticket.cancelled();
            let startable = job.session.lifecycle == Lifecycle::Created || job.session.lifecycle
                == Lifecycle::WaitingApproval;
            &&& !held <==> broker.turn(job) == Turn::Vanished
            &&& held && waits <==> broker.turn(job) is Wait
            &&& held && waits ==> job.request.risk() == Risk::RequiresApproval(
                broker.turn(job)->Wait_0,
            )
            &&& held && !waits && cancelled <==> broker.turn(job) == Turn::CancelledBeforeStart
            &&& held && !waits && !cancelled && !startable <==> broker.turn(job)
                == Turn::CannotStart
            &&& held && !waits && !cancelled && startable <==> broker.turn(job) == Turn::Run
        }),
{
}

/// A session that waits is parked as it is, behind the others, until the approval timeout from now;
/// nothing is recorded of it yet and the worker is free.
pub proof fn law_waiting_sessions_are_parked_until_the_timeout<P>(
    broker: BrokerView<P>,
    job: JobView<P>,
    now: nat,
)
    requires
        broker.turn(job) is Wait,
    ensures
        ({
            let after = broker.after_turn(job, now);
            let parked = after.pending.last();
            &&& after.pending.len() == broker.pending.len() + 1
            &&& parked.deadline == now + broker.approval_timeout
            &&& parked.job.request == job.request
            &&& parked.job.payload == job.payload
            &&& parked.job.sink == job.sink
            &&& parked.job.admission == job.admission
            &&& job.session.lifecycle == Lifecycle::Created ==> parked.job.session.lifecycle
                == Lifecycle::WaitingApproval
            &&& parked.ticket == broker.taken->0.ticket
            &&& after.taken is None
            &&& after.queue == broker.queue
            &&& after.audit == broker.audit
        }),
{
}

/// A turn that ends a session records it, by name and by how it was admitted: as cancelled if it
/// was cancelled, as denied otherwise. A session that runs is not recorded yet, and stays the one
/// that the broker works on.
pub proof fn law_turns_that_end_a_session_are_recorded<P>(
    broker: BrokerView<P>,
    job: JobView<P>,
    now: nat,
)
    ensures
        ({
            let after = broker.after_turn(job, now);
            let entry = AuditView {
                id: job.request.id,
                actor: job.request.actor,
                program: job.request.program,
                decision: job.admission,
                outcome: if broker.turn(job) == Turn::CancelledBeforeStart {
                    AuditOutcome::Cancelled
                } else {
                    AuditOutcome::Denied
                },
            };
            &&& broker.turn(job) == Turn::Run ==> after == broker
            &&& broker.turn(job) != Turn::Run && !(broker.turn(job) is Wait) ==> {
                &&& after.audit == newest(broker.audit.push(entry))
                &&& after.queue == broker.queue
                &&& after.pending == broker.pending
            }
            &&& broker.turn(job) == Turn::Vanished ==> after.taken == broker.taken
            &&& broker.turn(job) == Turn::CancelledBeforeStart || broker.turn(job)
                == Turn::CannotStart ==> after.taken is None
        }),
{
}

/// A run is recorded by what it came to, under the session's own name and admission: with its exit
/// code if it finished, as cancelled if it was, as denied if it was for another backend, as failed
/// if it failed or panicked. The session is released, and nothing else changes.
pub proof fn law_runs_are_recorded_by_what_they_came_to<P>(
    broker: BrokerView<P>,
    job: JobView<P>,
    result: Result<WasiOutput, RuntimeError>,
    snapshot: JobSnapshotView,
)
    ensures
        ({
            let outcome = match result {
                Ok(output) => AuditOutcome::Completed { exit_code: output.exit_code },
                Err(RuntimeError::Cancelled) => AuditOutcome::Cancelled,
                Err(RuntimeError::WrongMode) => AuditOutcome::Denied,
                Err(_) => AuditOutcome::Failed,
            };
            let ran = broker.after_run(job, result);
            let torn = broker.after_panic(snapshot);
            &&& ran.audit == newest(
                broker.audit.push(
                    AuditView {
                        id: job.request.id,
                        actor: job.request.actor,
                        program: job.request.program,
                        decision: job.admission,
                        outcome,
                    },
                ),
            )
            &&& torn.audit == newest(
                broker.audit.push(
                    AuditView {
                        id: snapshot.id,
                        actor: snapshot.actor,
                        program: snapshot.program,
                        decision: snapshot.admission,
                        outcome: AuditOutcome::Failed,
                    },
                ),
            )
            &&& ran.taken == (if broker.taken matches Some(taken) && taken.id == job.request.id {
                None::<Taken>
            } else {
                broker.taken
            })
            &&& torn.taken == (if broker.taken matches Some(taken) && taken.id == snapshot.id {
                None::<Taken>
            } else {
                broker.taken
            })
            &&& ran.queue == broker.queue && torn.queue == broker.queue
            &&& ran.pending == broker.pending && torn.pending == broker.pending
        }),
{
}

/// A decision goes to the session parked first under its id, a withdrawal to the one parked last,
/// and to none if none is parked under it.
pub proof fn law_decisions_go_to_the_session_parked_first<P>(broker: BrokerView<P>, id: u64)
    ensures
        broker.first_parked(id) matches Some(at) ==> {
            &&& 0 <= at < broker.pending.len()
            &&& broker.pending[at].job.request.id == id
            &&& forall|i: int| 0 <= i < at ==> (#[trigger] broker.pending[i]).job.request.id != id
        },
        broker.last_parked(id) matches Some(at) ==> {
            &&& 0 <= at < broker.pending.len()
            &&& broker.pending[at].job.request.id == id
            &&& forall|i: int|
                at < i < broker.pending.len() ==> (#[trigger] broker.pending[i]).job.request.id != id
        },
        broker.first_parked(id) is None <==> forall|i: int|
            0 <= i < broker.pending.len() ==> (#[trigger] broker.pending[i]).job.request.id != id,
        broker.last_parked(id) is None <==> broker.first_parked(id) is None,
{
    let ids = broker.parked_ids();
    ids.index_of_first_ensures(id);
    ids.index_of_last_ensures(id);
    assert forall|i: int| 0 <= i < broker.pending.len() implies (
    #[trigger] broker.pending[i]).job.request.id == ids[i] by {}
    if !ids.contains(id) {
        assert forall|i: int| 0 <= i < broker.pending.len() implies (
        #[trigger] broker.pending[i]).job.request.id != id by {
            assert(ids.contains(ids[i]));
        }
    } else {
        let k = choose|k: int| 0 <= k < ids.len() && ids[k] == id;
        assert(broker.pending[k].job.request.id == id);
    }
}

/// An approval takes one session from the parked ones, and that session alone. Unless it was
/// cancelled or the queue is no longer served, it goes to the end of the queue, approved and
/// otherwise as it was; else it is recorded as cancelled, or as approved and failed.
pub proof fn law_approvals_queue_the_parked_session<P>(broker: BrokerView<P>, id: u64)
    requires
        broker.first_parked(id) is Some,
    ensures
        ({
            let at = broker.first_parked(id)->0;
            let parked = broker.pending[at];
            let after = broker.after_approve(id);
            let entry = AuditView {
                id: parked.job.request.id,
                actor: parked.job.request.actor,
                program: parked.job.request.program,
                decision: if parked.ticket.cancelled() {
                    ApprovalDecision::Cancelled
                } else {
                    ApprovalDecision::Approved
                },
                outcome: if parked.ticket.cancelled() {
                    AuditOutcome::Cancelled
                } else {
                    AuditOutcome::Failed
                },
            };
            let runs = !parked.ticket.cancelled() && !broker.worker_stopped;
            &&& after.pending == broker.pending.remove(at)
            &&& after.taken == broker.taken
            &&& runs ==> {
                let queued = after.queue.last();
                &&& after.queue.drop_last() == broker.queue
                &&& queued.ticket == parked.ticket
                &&& queued.job.request == parked.job.request
                &&& queued.job.payload == parked.job.payload
                &&& queued.job.sink == parked.job.sink
                &&& queued.job.session == parked.job.session
                &&& queued.job.admission == ApprovalDecision::Approved
                &&& after.audit == broker.audit
                &&& broker.approve_error(id) is None
            }
            &&& !runs ==> after.queue == broker.queue && after.audit == newest(
                broker.audit.push(entry),
            )
            &&& broker.approve_error(id) == (if !parked.ticket.cancelled() && broker.worker_stopped {
                Some(BrokerErrorView::WorkerStopped)
            } else {
                None
            })
        }),
{
    let after = broker.after_approve(id);
    let at = broker.first_parked(id)->0;
    if !broker.pending[at].ticket.cancelled() && !broker.worker_stopped {
        assert(after.queue.drop_last() =~= broker.queue);
    }
}

/// A decision on an id under which nothing is parked is refused and changes nothing, and so does a
/// withdrawal of a session whose caller was reached.
pub proof fn law_decisions_on_nothing_change_nothing<P>(broker: BrokerView<P>, id: u64)
    ensures
        broker.first_parked(id) is None ==> {
            &&& broker.approve_error(id) == Some(BrokerErrorView::NotPendingApproval(id))
            &&& broker.after_approve(id) == broker
            &&& broker.after_deny(id) == broker
            &&& broker.after_notice(id, false) == broker
        },
        broker.after_notice(id, true) == broker,
{
    law_decisions_go_to_the_session_parked_first(broker, id);
}

/// A session whose caller is gone is withdrawn: it leaves the parked ones, alone, and is recorded as
/// cancelled.
pub proof fn law_unreachable_callers_withdraw_their_session<P>(broker: BrokerView<P>, id: u64)
    requires
        broker.last_parked(id) is Some,
    ensures
        ({
            let at = broker.last_parked(id)->0;
            let job = broker.pending[at].job;
            let after = broker.after_notice(id, false);
            &&& after.pending == broker.pending.remove(at)
            &&& after.queue == broker.queue
            &&& after.taken == broker.taken
            &&& after.audit == newest(
                broker.audit.push(
                    AuditView {
                        id: job.request.id,
                        actor: job.request.actor,
                        program: job.request.program,
                        decision: ApprovalDecision::Cancelled,
                        outcome: AuditOutcome::Cancelled,
                    },
                ),
            )
        }),
{
}

/// A denied session is recorded as denied, under its own name.
pub proof fn law_denials_are_recorded<P>(broker: BrokerView<P>, id: u64)
    requires
        broker.first_parked(id) is Some,
    ensures
        ({
            let at = broker.first_parked(id)->0;
            let job = broker.pending[at].job;
            broker.after_deny(id).audit == newest(
                broker.audit.push(
                    AuditView {
                        id: job.request.id,
                        actor: job.request.actor,
                        program: job.request.program,
                        decision: ApprovalDecision::Denied,
                        outcome: AuditOutcome::Denied,
                    },
                ),
            )
        }),
{
}

/// Which parked sessions end without a decision, and as what: those under a cancelled id, as
/// cancelled, and those whose deadline has come, as timed out and denied. Each is recorded under its
/// own name and its caller is told the same, where it reports.
pub proof fn law_endings_select_and_tell<P>(parked: PendingView<P>, id: u64, now: u128)
    ensures
        Ending::Cancelled(id).selects(parked) <==> parked.job.request.id == id,
        Ending::Expired(now).selects(parked) <==> parked.deadline <= now,
        Ending::Cancelled(id).entry(parked) == (AuditView {
            id: parked.job.request.id,
            actor: parked.job.request.actor,
            program: parked.job.request.program,
            decision: ApprovalDecision::Cancelled,
            outcome: AuditOutcome::Cancelled,
        }),
        Ending::Expired(now).entry(parked) == (AuditView {
            id: parked.job.request.id,
            actor: parked.job.request.actor,
            program: parked.job.request.program,
            decision: ApprovalDecision::TimedOut,
            outcome: AuditOutcome::Denied,
        }),
        Ending::Cancelled(id).message(JobSink::Events) == SinkMessage::Event(
            SessionEvent::Cancelled,
        ),
        Ending::Cancelled(id).message(JobSink::Outcome) == SinkMessage::Outcome(
            BrokerOutcome::Cancelled,
        ),
        Ending::Expired(now).message(JobSink::Events) == SinkMessage::Event(SessionEvent::Denied),
        Ending::Expired(now).message(JobSink::Outcome) matches SinkMessage::Outcome(
            BrokerOutcome::Denied(_),
        ),
{
}

/// Ending parked sessions neither reorders nor changes those that stay, ends those that are selected
/// in the order in which they were parked, and records and tells of each of them once, in that order.
pub proof fn law_endings_keep_the_order<P>(broker: BrokerView<P>, ending: Ending)
    ensures
        ({
            let ended = ending.ended(broker.pending);
            let after = broker.after_ending(ending);
            &&& after.pending == broker.pending.filter(|one: PendingView<P>| !ending.selects(one))
            &&& ended == broker.pending.filter(|one: PendingView<P>| ending.selects(one))
            &&& after.audit == newest(
                broker.audit + ended.map_values(|one: PendingView<P>| ending.entry(one)),
            )
            &&& ending.notices(ended).len() == ended.len()
            &&& forall|i: int|
                0 <= i < ended.len() ==> {
                    let notice = #[trigger] ending.notices(ended)[i];
                    &&& notice.payload == ended[i].job.payload
                    &&& notice.message == ending.message(ended[i].job.sink)
                }
            &&& after.queue == broker.queue
            &&& after.taken == broker.taken
        }),
{
}

/// What ends a session without a run is told where the session reports, and a streamed session hears
/// the same as a captured one.
pub proof fn law_terminal_messages(sink: JobSink, terminal: Terminal, reason: ApprovalReason)
    ensures
        ({
            let told = terminal_message_of(sink, terminal);
            &&& sink == JobSink::Events && terminal is Cancelled ==> told == SinkMessage::Event(
                SessionEvent::Cancelled,
            )
            &&& sink == JobSink::Events && !(terminal is Cancelled) ==> told == SinkMessage::Event(
                SessionEvent::Denied,
            )
            &&& sink == JobSink::Outcome && terminal is Cancelled ==> told == SinkMessage::Outcome(
                BrokerOutcome::Cancelled,
            )
            &&& sink == JobSink::Outcome ==> (terminal matches Terminal::DeniedWith(error) ==> told
                == SinkMessage::Outcome(BrokerOutcome::Denied(error)))
            &&& sink == JobSink::Outcome && terminal is Denied ==> (told matches SinkMessage::Outcome(
                BrokerOutcome::Denied(_),
            ))
        }),
        pending_message_of(JobSink::Events, reason) == SinkMessage::Event(
            SessionEvent::PendingApproval { reason },
        ),
        pending_message_of(JobSink::Outcome, reason) == SinkMessage::Outcome(
            BrokerOutcome::PendingApproval { reason },
        ),
        started_event(JobSink::Events) == Some(SessionEvent::Started),
        started_event(JobSink::Outcome) is None,
{
}

/// A turn that does not let a session run tells its caller why: that it waits and for what, that it
/// was cancelled, or that it is denied.
pub proof fn law_turn_messages(turn: Turn, sink: JobSink)
    ensures
        turn matches Turn::Wait(reason) ==> turn_message(turn, sink) == pending_message_of(
            sink,
            reason,
        ),
        turn is CancelledBeforeStart ==> turn_message(turn, sink) == terminal_message_of(
            sink,
            Terminal::Cancelled,
        ),
        turn is Vanished || turn is CannotStart ==> (turn_message(turn, JobSink::Events)
            == SinkMessage::Event(SessionEvent::Denied)) && (turn_message(
            turn,
            JobSink::Outcome,
        ) matches SinkMessage::Outcome(BrokerOutcome::Denied(_))),
{
}

/// The caller of a run is told what the run came to: the output and exit code of a guest that
/// finished, that it was cancelled, that it was denied for being for another backend, or that it
/// failed and with which error.
pub proof fn law_run_messages(result: Result<WasiOutput, RuntimeError>)
    ensures
        result matches Ok(output) ==> run_message_of(JobSink::Outcome, result)
            == SinkMessage::Outcome(BrokerOutcome::Completed(output)) && run_message_of(
            JobSink::Events,
            result,
        ) == SinkMessage::Event(SessionEvent::Exited { code: Some(output.exit_code) }),
        result matches Err(error) ==> {
            &&& error is Cancelled ==> run_message_of(JobSink::Outcome, result)
                == SinkMessage::Outcome(BrokerOutcome::Cancelled) && run_message_of(
                JobSink::Events,
                result,
            ) == SinkMessage::Event(SessionEvent::Cancelled)
            &&& error is WrongMode ==> (run_message_of(
                JobSink::Outcome,
                result,
            ) matches SinkMessage::Outcome(BrokerOutcome::Denied(_))) && run_message_of(
                JobSink::Events,
                result,
            ) == SinkMessage::Event(SessionEvent::Denied)
            &&& !(error is Cancelled) && !(error is WrongMode) ==> run_message_of(
                JobSink::Outcome,
                result,
            ) == SinkMessage::Outcome(BrokerOutcome::Failed(error)) && run_message_of(
                JobSink::Events,
                result,
            ) == SinkMessage::Event(SessionEvent::Unsupported)
        },
{
}

/// No step changes how many sessions a broker may hold or how long a parked one waits, and none of
/// these makes the queue stop being served.
pub proof fn law_steps_keep_the_configuration<P>(
    broker: BrokerView<P>,
    job: JobView<P>,
    signal: CancelHandle,
    id: u64,
    now: u128,
    notified: bool,
    result: Result<WasiOutput, RuntimeError>,
    snapshot: JobSnapshotView,
)
    ensures
        same_configuration(broker, broker.after_submit(job, signal)),
        same_configuration(broker, broker.after_next()),
        same_configuration(broker, broker.after_turn(job, now as nat)),
        same_configuration(broker, broker.after_notice(id, notified)),
        same_configuration(broker, broker.after_run(job, result)),
        same_configuration(broker, broker.after_panic(snapshot)),
        same_configuration(broker, broker.after_approve(id)),
        same_configuration(broker, broker.after_deny(id)),
        same_configuration(broker, broker.after_cancel(id)),
        same_configuration(broker, broker.after_sweep(now)),
        same_configuration(broker, broker.all_cancelled()),
{
}

/// Whether two brokers are set up alike.
pub open spec fn same_configuration<P>(one: BrokerView<P>, other: BrokerView<P>) -> bool {
    &&& one.capacity == other.capacity
    &&& one.approval_timeout == other.approval_timeout
    &&& one.worker_stopped == other.worker_stopped
}

/// A cancellation of an id under which nothing is held changes nothing; one that finds sessions
/// records those that were parked and nothing else.
pub proof fn law_cancellations_find_what_is_held<P>(broker: BrokerView<P>, id: u64)
    ensures
        broker.is_live(id) <==> {
            ||| broker.taken matches Some(taken) && taken.id == id
            ||| exists|i: int|
                0 <= i < broker.queue.len() && (#[trigger] broker.queue[i]).job.request.id == id
            ||| exists|i: int|
                0 <= i < broker.pending.len() && (#[trigger] broker.pending[i]).job.request.id == id
        },
        !broker.is_live(id) ==> broker.after_cancel(id) == broker,
        broker.is_live(id) ==> broker.after_cancel(id).audit == newest(
            broker.audit + broker.pending.filter(
                |one: PendingView<P>| Ending::Cancelled(id).selects(one),
            ).map_values(|one: PendingView<P>| Ending::Cancelled(id).entry(one)),
        ),
{
    let queued = broker.queued_ids();
    let parked = broker.parked_ids();
    if queued.contains(id) {
        let k = choose|k: int| 0 <= k < queued.len() && queued[k] == id;
        assert(broker.queue[k].job.request.id == id);
    }
    if parked.contains(id) {
        let k = choose|k: int| 0 <= k < parked.len() && parked[k] == id;
        assert(broker.pending[k].job.request.id == id);
    }
    if exists|i: int|
        0 <= i < broker.queue.len() && (#[trigger] broker.queue[i]).job.request.id == id {
        let k = choose|i: int|
            0 <= i < broker.queue.len() && (#[trigger] broker.queue[i]).job.request.id == id;
        assert(queued[k] == id);
    }
    if exists|i: int|
        0 <= i < broker.pending.len() && (#[trigger] broker.pending[i]).job.request.id == id {
        let k = choose|i: int|
            0 <= i < broker.pending.len() && (#[trigger] broker.pending[i]).job.request.id == id;
        assert(parked[k] == id);
    }
}

/// The next session is the first in the queue, and it is taken only if none is being worked on.
pub proof fn law_the_next_session_is_the_first_queued<P>(broker: BrokerView<P>)
    ensures
        broker.has_next() <==> broker.taken is None && broker.queue.len() > 0,
        !broker.has_next() ==> broker.after_next() == broker,
        broker.has_next() ==> {
            let after = broker.after_next();
            &&& after.taken == Some(
                Taken { id: broker.queue[0].job.request.id, ticket: broker.queue[0].ticket },
            )
            &&& after.queue == broker.queue.skip(1)
            &&& after.pending == broker.pending
            &&& after.audit == broker.audit
        },
{
}

/// A step says what to do with the session and leaves it as it is: one that waits is named and its
/// caller told why, one that runs keeps its request, payload, sink and admission and is running from
/// then on, and one that ends hands back its payload with the message for its caller.
pub proof fn law_steps_hand_over_the_session<P>(
    broker: BrokerView<P>,
    job: JobView<P>,
    step: JobStep<P>,
)
    requires
        step.carries_out(broker.turn(job), job, broker.taken),
    ensures
        broker.turn(job) matches Turn::Wait(reason) ==> (step matches JobStep::Parked { id, message }
            && id == job.request.id && message == pending_message_of(job.sink, reason)),
        broker.turn(job) is Run ==> (step matches JobStep::Run { job: running, cancel, started } && {
            &&& running@.request == job.request
            &&& running@.payload == job.payload
            &&& running@.sink == job.sink
            &&& running@.admission == job.admission
            &&& running@.session.lifecycle == Lifecycle::Running
            &&& running@.session.output_bytes == job.session.output_bytes
            &&& started == (if job.sink == JobSink::Events {
                Some(SessionEvent::Started)
            } else {
                None
            })
        }),
        !(broker.turn(job) is Wait) && !(broker.turn(job) is Run) ==> (step matches JobStep::Ended {
            payload,
            message,
        } && payload == job.payload && message == turn_message(broker.turn(job), job.sink)),
{
}

/// A new broker holds nothing, has recorded nothing and serves its queue, with the capacity and the
/// timeout it was made with.
pub proof fn law_new_brokers_hold_nothing<P>(capacity: nat, approval_timeout: nat)
    ensures
        ({
            let broker = BrokerView::<P>::fresh(capacity, approval_timeout);
            &&& broker.capacity == capacity
            &&& broker.approval_timeout == approval_timeout
            &&& !broker.worker_stopped
            &&& broker.taken is None
            &&& broker.queue == Seq::<QueuedView<P>>::empty()
            &&& broker.pending == Seq::<PendingView<P>>::empty()
            &&& broker.audit == Seq::<AuditView>::empty()
            &&& broker.held() == 0
        }),
{
}

/// How many sessions are held is how many are queued, parked and worked on, each counted once.
pub proof fn law_every_session_counts_once<P>(broker: BrokerView<P>)
    ensures
        broker.taken is None ==> broker.held() == broker.queue.len() + broker.pending.len(),
        broker.taken is Some ==> broker.held() == broker.queue.len() + broker.pending.len() + 1,
{
}

} // verus!
