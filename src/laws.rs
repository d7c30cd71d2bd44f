//! Properties of the runtime that relate several of its operations.
use crate::model::{
    evicted_by, first_answer, AssignmentView, AwaitView, CharcoalView, PendingView,
    RouteOutcome, SessionView, WaitOutcomeView, MAILBOX_CAPACITY, OUTBOUND_CAPACITY,
    VOLUME_SCALE,
};
use crate::errors::ActionError;
use crate::messages::{CommandView, InboundView, OutboundView, ReplyKind, WorkerActionView};
use vstd::prelude::*;

verus! {

/// Joining with a session that has no job enqueues exactly one job-creation
/// command, routed back to the session's mailbox, and nothing else. Once the
/// job is assigned, finishing the join enqueues exactly one join command
/// after it, for the assigned job and worker, and records the assignment.
pub proof fn lemma_join_creates_job_then_joins(
    v: CharcoalView,
    key: Seq<char>,
    target: Seq<char>,
    job_id: Seq<char>,
    worker_id: Seq<char>,
)
    requires
        v.wf(),
        v.players.contains_key(key),
        v.players[key].assignment is None,
        v.players[key].awaiting != Some(ReplyKind::JobAssignment),
        v.outbound.len() + 2 <= OUTBOUND_CAPACITY,
    ensures
        v.join(key, target) is Ok,
        ({
            let (w, p) = v.join(key, target).unwrap();
            let id = v.players[key].mailbox_id;
            let create = OutboundView { command: CommandView::QueueJob, key, reply_route: Some(id) };
            let join = OutboundView {
                command: CommandView::Worker {
                    job_id,
                    worker_id,
                    action: WorkerActionView::JoinChannel { voice_channel_id: target },
                },
                key,
                reply_route: None,
            };
            &&& p == Some(PendingView { key, mailbox_id: id, kind: ReplyKind::JobAssignment })
            &&& w.outbound == v.outbound.push(create)
            &&& w.complete_join(key, target, job_id, worker_id) is Ok
            &&& w.complete_join(key, target, job_id, worker_id).unwrap().outbound == v.outbound.push(
                create,
            ).push(join)
            &&& w.complete_join(key, target, job_id, worker_id).unwrap().players[key].assignment
                == Some(AssignmentView { job_id, worker_id })
        }),
{
}

/// While a session's job assignment is awaited, joining again is refused
/// and enqueues nothing: two joins on one session ask for one job.
pub proof fn lemma_join_asks_for_one_job(
    v: CharcoalView,
    key: Seq<char>,
    first: Seq<char>,
    second: Seq<char>,
)
    requires
        v.wf(),
        v.players.contains_key(key),
        v.players[key].assignment is None,
        v.players[key].awaiting != Some(ReplyKind::JobAssignment),
        v.outbound.len() < OUTBOUND_CAPACITY,
    ensures
        v.join(key, first) is Ok,
        v.join(key, first).unwrap().0.join(key, second) == Err::<
            (CharcoalView, Option<PendingView>),
            ActionError,
        >(ActionError::JobCreationPending),
{
}

/// A request whose publishing failed ends the wait for its reply: once the
/// failure is handed to the session, the next wait step for that reply ends
/// on the failure notice, where no reply came before it.
pub proof fn lemma_failed_request_ends_wait(
    v: CharcoalView,
    c: OutboundView,
    request_id: Seq<char>,
    w: AwaitView,
    now: u128,
)
    requires
        v.wf(),
        v.players.contains_key(c.key),
        c.reply_route == Some(v.players[c.key].mailbox_id),
        v.players[c.key].mailbox.len() < MAILBOX_CAPACITY,
        w.pending.key == c.key,
        w.pending.mailbox_id == v.players[c.key].mailbox_id,
        forall|i: int|
            0 <= i < v.players[c.key].mailbox.len() ==> !(
            #[trigger] v.players[c.key].mailbox[i]).answers(w.pending.kind),
    ensures
        v.report_failure(c, request_id).1 == RouteOutcome::Delivered,
        v.report_failure(c, request_id).0.wait_step(w, now).1 == WaitOutcomeView::Matched(
            InboundView::PublishFailed { key: c.key, request_id, correlated: true },
        ),
{
    let x = v.report_failure(c, request_id).0;
    let m = x.players[c.key].mailbox;
    let n = v.players[c.key].mailbox.len() as int;
    assert(m == v.players[c.key].mailbox.push(
        InboundView::PublishFailed { key: c.key, request_id, correlated: true },
    ));
    assert(first_answer(m, w.pending.kind, n)) by {
        assert forall|a: int| 0 <= a < n implies !(#[trigger] m[a]).answers(w.pending.kind) by {
            assert(m[a] == v.players[c.key].mailbox[a]);
        }
    }
    let i = choose|i: int| first_answer(m, w.pending.kind, i);
    assert(i == n) by {
        if i < n {
            assert(!m[i].answers(w.pending.kind)) by {
                assert(m[i] == v.players[c.key].mailbox[i]);
            }
        }
    }
}

/// Joining with a session that already has a job enqueues the join command
/// for that job alone: no job-creation command, and nothing is awaited.
pub proof fn lemma_join_when_assigned_only_joins(
    v: CharcoalView,
    key: Seq<char>,
    target: Seq<char>,
)
    requires
        v.wf(),
        v.is_assigned(key),
        v.outbound.len() < OUTBOUND_CAPACITY,
    ensures
        v.join(key, target) is Ok,
        ({
            let (w, p) = v.join(key, target).unwrap();
            let a = v.players[key].assignment.unwrap();
            &&& p is None
            &&& w.players == v.players
            &&& w.outbound == v.outbound.push(
                OutboundView {
                    command: CommandView::Worker {
                        job_id: a.job_id,
                        worker_id: a.worker_id,
                        action: WorkerActionView::JoinChannel { voice_channel_id: target },
                    },
                    key,
                    reply_route: None,
                },
            )
        }),
{
}

/// A metadata wait whose mailbox holds no metadata reply, and no failure to
/// publish the request, ends in a timeout once the deadline has passed, and
/// until then stays pending: it never waits past the deadline.
pub proof fn lemma_metadata_wait_times_out(v: CharcoalView, w: AwaitView, now: u128)
    requires
        v.wf(),
        w.pending.kind == ReplyKind::MetadataReply,
        v.wait_open(w.pending),
        forall|i: int|
            0 <= i < v.players[w.pending.key].mailbox.len() ==> !(
            #[trigger] v.players[w.pending.key].mailbox[i]).answers(ReplyKind::MetadataReply),
    ensures
        w.expired(now) ==> v.wait_step(w, now).1 == WaitOutcomeView::TimedOut,
        !w.expired(now) ==> v.wait_step(w, now).1 == WaitOutcomeView::Pending,
        w.expired(now) ==> v.wait_step(w, now).0.players[w.pending.key].awaiting is None,
{
    let m = v.players[w.pending.key].mailbox;
    assert(!exists|i: int| first_answer(m, w.pending.kind, i)) by {
        assert forall|i: int| !first_answer(m, w.pending.kind, i) by {
            if 0 <= i < m.len() {
                assert(!m[i].answers(w.pending.kind));
            }
        }
    }
}

/// An envelope routed by the key `a` reaches no other session: every session
/// under another key is left as it was, and where the envelope is delivered
/// it is appended to the mailbox of the session for `a`.
pub proof fn lemma_no_cross_talk(v: CharcoalView, e: InboundView, a: Seq<char>, b: Seq<char>)
    requires
        v.wf(),
        e.route_key() == Some(a),
        a != b,
        v.players.contains_key(b),
    ensures
        v.route(e).0.players.contains_key(b),
        v.route(e).0.players[b] == v.players[b],
        v.route(e).1 == RouteOutcome::Delivered ==> v.route(e).0.players[a].mailbox
            == v.players[a].mailbox.push(e),
{
}

/// Every envelope in a session's mailbox is routed by that session's key.
pub proof fn lemma_mailbox_holds_own_replies(v: CharcoalView, k: Seq<char>, i: int)
    requires
        v.wf(),
        v.players.contains_key(k),
        0 <= i < v.players[k].mailbox.len(),
    ensures
        v.players[k].mailbox[i].route_key() == Some(k),
{
}

/// Once a job-expiry event for `key` has been routed and applied, the
/// registry holds no session for `key`; a session created for it afterwards
/// is fresh, with no job, an empty mailbox, and a mailbox identity that no
/// earlier session had.
pub proof fn lemma_expired_session_is_recreated_fresh(
    v: CharcoalView,
    key: Seq<char>,
    job_id: Seq<char>,
)
    requires
        v.wf(),
    ensures
        ({
            let (w, o) = v.route(InboundView::JobExpired { key, job_id });
            let x = w.fleet_events_applied();
            &&& o == RouteOutcome::FleetEvent
            &&& !x.players.contains_key(key)
            &&& x.created(key).players[key] == SessionView::fresh(key, x.next_mailbox)
            &&& x.created(key).players[key].assignment is None
            &&& forall|k: Seq<char>| #[trigger]
                v.players.contains_key(k) ==> v.players[k].mailbox_id != x.next_mailbox
        }),
{
    let e = InboundView::JobExpired { key, job_id };
    let w = v.route(e).0;
    assert(w.events[w.events.len() - 1] == e);
    assert(e.evicted_keys().contains(key)) by {
        assert(e.evicted_keys()[0] == key);
    }
    assert(evicted_by(w.events).contains(key));
}

/// A volume outside full scale is refused before anything else happens, so
/// no command is enqueued; the bounds themselves are accepted.
pub proof fn lemma_volume_bounds(v: CharcoalView, key: Seq<char>, volume: int)
    ensures
        volume < 0 || volume > VOLUME_SCALE ==> v.set_volume(key, volume) == Err::<
            CharcoalView,
            ActionError,
        >(ActionError::VolumeOutOfRange),
        v.is_assigned(key) && v.outbound.len() < OUTBOUND_CAPACITY && (volume == 0 || volume
            == VOLUME_SCALE) ==> v.set_volume(key, volume) is Ok,
{
}

} // verus!
