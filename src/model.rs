//! The mathematical model of the runtime: the abstract state, its
//! invariant, and the transition that each operation makes.
use crate::errors::ActionError;
use crate::messages::{CommandView, InboundView, OutboundView, ReplyKind, WorkerActionView};
use vstd::prelude::*;

verus! {

/// How many envelopes a session's mailbox holds before routing to it fails.
pub const MAILBOX_CAPACITY: usize = 64;

/// How many commands wait in the outbound queue before enqueueing fails.
///
/// This bound is the library's own: the queue it stands for was unbounded.
/// It keeps memory bounded when the bus processor stalls, and an action that
/// finds the queue full fails with `TransportSendError`, the same error that a
/// failed publish hands to the session (see `report_publish_failure`).
pub const OUTBOUND_CAPACITY: usize = 4096;

/// The job and worker assigned to a session.
pub struct AssignmentView {
    pub job_id: Seq<char>,
    pub worker_id: Seq<char>,
}

/// The state of one session.
pub struct SessionView {
    pub key: Seq<char>,
    pub assignment: Option<AssignmentView>,
    /// Identity of the mailbox, never shared by two sessions of one runtime.
    pub mailbox_id: u64,
    pub mailbox: Seq<InboundView>,
    /// The reply that a bounded wait on this session is waiting for, if any.
    pub awaiting: Option<ReplyKind>,
    pub event_handler: bool,
}

impl SessionView {
    /// A session as it is created: no job, an empty mailbox, nothing awaited.
    pub open spec fn fresh(key: Seq<char>, mailbox_id: u64) -> SessionView {
        SessionView {
            key,
            assignment: None,
            mailbox_id,
            mailbox: Seq::empty(),
            awaiting: None,
            event_handler: false,
        }
    }
}

/// The state of the runtime.
pub struct CharcoalView {
    /// The session registry, by key.
    pub players: Map<Seq<char>, SessionView>,
    /// Commands enqueued and not yet taken by the bus processor, oldest first.
    pub outbound: Seq<OutboundView>,
    /// Where the next reply for each key goes.
    pub routes: Map<Seq<char>, u64>,
    /// Job-expiry and worker-shutdown events not yet applied, oldest first.
    pub events: Seq<InboundView>,
    /// The identity that the next new mailbox gets.
    pub next_mailbox: u64,
}

/// The key of a session.
pub open spec fn session_key() -> spec_fn(SessionView) -> Seq<char> {
    |s: SessionView| s.key
}

impl CharcoalView {
    /// Replies routed to `mailbox_id` can only reach a session with key `key`.
    pub open spec fn route_ok(self, key: Seq<char>, mailbox_id: u64) -> bool {
        &&& mailbox_id < self.next_mailbox
        &&& forall|p: Seq<char>|
            #[trigger] self.players.contains_key(p) && self.players[p].mailbox_id == mailbox_id
                ==> p == key
    }

    /// The invariant of the runtime.
    pub open spec fn wf(self) -> bool {
        &&& forall|k: Seq<char>| #[trigger]
            self.players.contains_key(k) ==> {
                let s = self.players[k];
                &&& s.key == k
                &&& s.mailbox_id < self.next_mailbox
                &&& s.mailbox.len() <= MAILBOX_CAPACITY
                &&& forall|i: int|
                    0 <= i < s.mailbox.len() ==> (#[trigger] s.mailbox[i]).route_key() == Some(k)
            }
        &&& forall|a: Seq<char>, b: Seq<char>|
            #[trigger] self.players.contains_key(a) && #[trigger] self.players.contains_key(b)
                && a != b ==> self.players[a].mailbox_id != self.players[b].mailbox_id
        &&& forall|k: Seq<char>| #[trigger]
            self.routes.contains_key(k) ==> self.route_ok(k, self.routes[k])
        &&& self.outbound.len() <= OUTBOUND_CAPACITY
        &&& forall|i: int|
            0 <= i < self.outbound.len() ==> match (#[trigger] self.outbound[i]).reply_route {
                Some(m) => self.route_ok(self.outbound[i].key, m),
                None => true,
            }
        &&& forall|i: int| 0 <= i < self.events.len() ==> (#[trigger] self.events[i]).is_fleet_event()
    }

    /// The session for `key` holds an assignment.
    pub open spec fn is_assigned(self, key: Seq<char>) -> bool {
        self.players.contains_key(key) && self.players[key].assignment is Some
    }
}

/// Full scale of a playback volume, in millionths.
pub const VOLUME_SCALE: i64 = 1_000_000;

/// A reply to wait for: its key, the mailbox it is routed to, and its kind.
pub struct PendingView {
    pub key: Seq<char>,
    pub mailbox_id: u64,
    pub kind: ReplyKind,
}

impl CharcoalView {
    /// The command that directs the worker of the session `key` to `action`.
    pub open spec fn worker_command(
        self,
        key: Seq<char>,
        action: WorkerActionView,
        reply: bool,
    ) -> OutboundView {
        let a = self.players[key].assignment.unwrap();
        OutboundView {
            command: CommandView::Worker { job_id: a.job_id, worker_id: a.worker_id, action },
            key,
            reply_route: if reply {
                Some(self.players[key].mailbox_id)
            } else {
                None
            },
        }
    }

    /// Sending `action` to the worker of the session `key`: the state after
    /// it, or why it fails. A failed action changes nothing.
    pub open spec fn send_worker(
        self,
        key: Seq<char>,
        action: WorkerActionView,
        reply: bool,
    ) -> Result<CharcoalView, ActionError> {
        if !self.players.contains_key(key) {
            Err(ActionError::SessionNotFound)
        } else if self.players[key].assignment is None {
            Err(ActionError::SessionNotReady)
        } else if self.outbound.len() >= OUTBOUND_CAPACITY {
            Err(ActionError::TransportSendError)
        } else {
            Ok(
                CharcoalView {
                    outbound: self.outbound.push(self.worker_command(key, action, reply)),
                    ..self
                },
            )
        }
    }

    /// The state with the session `key` replaced by `s`.
    pub open spec fn with_session(self, key: Seq<char>, s: SessionView) -> CharcoalView {
        CharcoalView { players: self.players.insert(key, s), ..self }
    }

    /// The state with the session `key` awaiting `kind`.
    pub open spec fn awaiting(self, key: Seq<char>, kind: Option<ReplyKind>) -> CharcoalView {
        self.with_session(key, SessionView { awaiting: kind, ..self.players[key] })
    }

    /// Joining the voice channel `target` with the session `key`. With a job
    /// assigned, the join command goes out at once and nothing is awaited.
    /// Without one, a job-creation command goes out with a reply route and
    /// the job assignment is awaited; while that assignment is still awaited,
    /// a further join is refused and enqueues nothing, so that one session
    /// never asks for two jobs.
    pub open spec fn join(self, key: Seq<char>, target: Seq<char>) -> Result<
        (CharcoalView, Option<PendingView>),
        ActionError,
    > {
        if !self.players.contains_key(key) {
            Err(ActionError::SessionNotFound)
        } else if self.players[key].assignment is None && self.players[key].awaiting == Some(
            ReplyKind::JobAssignment,
        ) {
            Err(ActionError::JobCreationPending)
        } else if self.outbound.len() >= OUTBOUND_CAPACITY {
            Err(ActionError::TransportSendError)
        } else if self.players[key].assignment is Some {
            Ok(
                (
                    CharcoalView {
                        outbound: self.outbound.push(
                            self.worker_command(
                                key,
                                WorkerActionView::JoinChannel { voice_channel_id: target },
                                false,
                            ),
                        ),
                        ..self
                    },
                    None,
                ),
            )
        } else {
            let id = self.players[key].mailbox_id;
            let w = CharcoalView {
                outbound: self.outbound.push(
                    OutboundView { command: CommandView::QueueJob, key, reply_route: Some(id) },
                ),
                ..self
            };
            Ok(
                (
                    w.awaiting(key, Some(ReplyKind::JobAssignment)),
                    Some(PendingView { key, mailbox_id: id, kind: ReplyKind::JobAssignment }),
                ),
            )
        }
    }

    /// Finishing a join once the job `job_id` on `worker_id` was assigned: the
    /// assignment is recorded where the session has none, and the join
    /// command goes out with the session's assignment.
    pub open spec fn complete_join(
        self,
        key: Seq<char>,
        target: Seq<char>,
        job_id: Seq<char>,
        worker_id: Seq<char>,
    ) -> Result<CharcoalView, ActionError> {
        if !self.players.contains_key(key) {
            Err(ActionError::SessionNotFound)
        } else if self.outbound.len() >= OUTBOUND_CAPACITY {
            Err(ActionError::TransportSendError)
        } else {
            let s = self.players[key];
            let a = match s.assignment {
                Some(a) => a,
                None => AssignmentView { job_id, worker_id },
            };
            let w = self.with_session(key, SessionView { assignment: Some(a), ..s });
            Ok(
                CharcoalView {
                    outbound: w.outbound.push(
                        w.worker_command(
                            key,
                            WorkerActionView::JoinChannel { voice_channel_id: target },
                            false,
                        ),
                    ),
                    ..w
                },
            )
        }
    }

    /// Leaving the voice channel: the leave command goes out and the session
    /// leaves the registry.
    pub open spec fn leave(self, key: Seq<char>) -> Result<CharcoalView, ActionError> {
        match self.send_worker(key, WorkerActionView::LeaveChannel, false) {
            Ok(w) => Ok(CharcoalView { players: w.players.remove(key), ..w }),
            Err(e) => Err(e),
        }
    }

    /// Asking for playback metadata: the request goes out with a reply route
    /// and the metadata reply is awaited.
    pub open spec fn request_metadata(self, key: Seq<char>) -> Result<
        (CharcoalView, PendingView),
        ActionError,
    > {
        match self.send_worker(key, WorkerActionView::GetMetaData, true) {
            Ok(w) => Ok(
                (
                    w.awaiting(key, Some(ReplyKind::MetadataReply)),
                    PendingView {
                        key,
                        mailbox_id: self.players[key].mailbox_id,
                        kind: ReplyKind::MetadataReply,
                    },
                ),
            ),
            Err(e) => Err(e),
        }
    }

    /// Setting the volume to `volume` millionths of full scale. A volume out
    /// of range is refused before anything else is looked at.
    pub open spec fn set_volume(self, key: Seq<char>, volume: int) -> Result<
        CharcoalView,
        ActionError,
    > {
        if volume < 0 || volume > VOLUME_SCALE {
            Err(ActionError::VolumeOutOfRange)
        } else {
            self.send_worker(
                key,
                WorkerActionView::SetPlaybackVolume { volume: volume as u32 },
                false,
            )
        }
    }
}

/// What the bus processor did with an inbound envelope.
#[derive(Clone, Copy, PartialEq, Eq, Structural, Debug)]
pub enum RouteOutcome {
    /// Pushed onto the mailbox of the session that the reply was routed to.
    Delivered,
    /// Pushed onto the mailbox of fleet-wide events.
    FleetEvent,
    /// No route is registered for the envelope's key; it was dropped.
    RoutingMiss,
    /// The routed-to session has left the registry; it was dropped.
    MailboxClosed,
    /// The routed-to mailbox is full; it was dropped.
    MailboxFull,
}

impl CharcoalView {
    /// Routing the inbound envelope `e`: the state after it, and what became
    /// of `e`.
    pub open spec fn route(self, e: InboundView) -> (CharcoalView, RouteOutcome) {
        if e.is_fleet_event() {
            (CharcoalView { events: self.events.push(e), ..self }, RouteOutcome::FleetEvent)
        } else {
            match e.route_key() {
                Some(k) => if !self.routes.contains_key(k) {
                    (self, RouteOutcome::RoutingMiss)
                } else if !self.players.contains_key(k) || self.players[k].mailbox_id
                    != self.routes[k] {
                    (self, RouteOutcome::MailboxClosed)
                } else if self.players[k].mailbox.len() >= MAILBOX_CAPACITY {
                    (self, RouteOutcome::MailboxFull)
                } else {
                    (
                        self.with_session(
                            k,
                            SessionView {
                                mailbox: self.players[k].mailbox.push(e),
                                ..self.players[k]
                            },
                        ),
                        RouteOutcome::Delivered,
                    )
                },
                None => (self, RouteOutcome::RoutingMiss),
            }
        }
    }
}

impl CharcoalView {
    /// Handing the failure to publish `c`, whose request identifier is
    /// `request_id`, to the session `c` belongs to: a notice is appended to
    /// its mailbox, unless the session is gone, the command was routed to a
    /// mailbox that is no longer the session's, or the mailbox is full.
    pub open spec fn report_failure(self, c: OutboundView, request_id: Seq<char>) -> (
        CharcoalView,
        RouteOutcome,
    ) {
        let k = c.key;
        if !self.players.contains_key(k) {
            (self, RouteOutcome::MailboxClosed)
        } else if c.reply_route is Some && c.reply_route != Some(self.players[k].mailbox_id) {
            (self, RouteOutcome::MailboxClosed)
        } else if self.players[k].mailbox.len() >= MAILBOX_CAPACITY {
            (self, RouteOutcome::MailboxFull)
        } else {
            let notice = InboundView::PublishFailed {
                key: k,
                request_id,
                correlated: c.reply_route is Some,
            };
            (
                self.with_session(
                    k,
                    SessionView { mailbox: self.players[k].mailbox.push(notice), ..self.players[k] },
                ),
                RouteOutcome::Delivered,
            )
        }
    }
}

/// The routing table after the bus processor has taken `cmds`, in order.
pub open spec fn register_routes(routes: Map<Seq<char>, u64>, cmds: Seq<OutboundView>) -> Map<
    Seq<char>,
    u64,
>
    decreases cmds.len(),
{
    if cmds.len() == 0 {
        routes
    } else {
        let prior = register_routes(routes, cmds.drop_last());
        match cmds.last().reply_route {
            Some(m) => prior.insert(cmds.last().key, m),
            None => prior,
        }
    }
}

/// The keys that the fleet-wide events `events` evict, together.
pub open spec fn evicted_by(events: Seq<InboundView>) -> Set<Seq<char>> {
    Set::new(
        |k: Seq<char>|
            exists|i: int| 0 <= i < events.len() && (#[trigger] events[i]).evicted_keys().contains(k),
    )
}

/// An envelope that an event handler is told about.
pub open spec fn notification() -> spec_fn(InboundView) -> bool {
    |e: InboundView| e.is_notification()
}

/// `m[i]` is the first envelope of `m` that answers `kind`.
pub open spec fn first_answer(m: Seq<InboundView>, kind: ReplyKind, i: int) -> bool {
    &&& 0 <= i < m.len()
    &&& m[i].answers(kind)
    &&& forall|a: int| 0 <= a < i ==> !(#[trigger] m[a]).answers(kind)
}

/// Milliseconds from `started` to `now`; none where the clock went back.
pub open spec fn elapsed(started: u128, now: u128) -> int {
    if now >= started {
        now - started
    } else {
        0
    }
}

/// A bounded wait: the reply awaited, when the wait began, and its timeout.
pub struct AwaitView {
    pub pending: PendingView,
    pub started_ms: u128,
    pub timeout_ms: u128,
}

impl AwaitView {
    /// The deadline has passed at `now`.
    pub open spec fn expired(self, now: u128) -> bool {
        elapsed(self.started_ms, now) > self.timeout_ms
    }
}

/// How one step of a bounded wait ended.
pub enum WaitOutcomeView {
    Matched(InboundView),
    Pending,
    TimedOut,
    Closed,
}

impl CharcoalView {
    /// The session that the pending reply is for is still the one registered.
    pub open spec fn wait_open(self, p: PendingView) -> bool {
        self.players.contains_key(p.key) && self.players[p.key].mailbox_id == p.mailbox_id
    }

    /// One step of the bounded wait `w` at time `now`: the state after it,
    /// how it ended, and the notifications met on the way. The mailbox is
    /// read from the front up to the first answer; every envelope read leaves
    /// it, and those that are notifications are handed on. Without an answer
    /// the wait times out once the deadline has passed.
    pub open spec fn wait_step(self, w: AwaitView, now: u128) -> (
        CharcoalView,
        WaitOutcomeView,
        Seq<InboundView>,
    ) {
        let k = w.pending.key;
        if !self.wait_open(w.pending) {
            (self, WaitOutcomeView::Closed, Seq::empty())
        } else {
            let s = self.players[k];
            let m = s.mailbox;
            if exists|i: int| first_answer(m, w.pending.kind, i) {
                let i = choose|i: int| first_answer(m, w.pending.kind, i);
                (
                    self.with_session(k, SessionView { mailbox: m.skip(i + 1), awaiting: None, ..s }),
                    WaitOutcomeView::Matched(m[i]),
                    m.take(i).filter(notification()),
                )
            } else if w.expired(now) {
                (
                    self.with_session(k, SessionView { mailbox: Seq::empty(), awaiting: None, ..s }),
                    WaitOutcomeView::TimedOut,
                    m.filter(notification()),
                )
            } else {
                (
                    self.with_session(k, SessionView { mailbox: Seq::empty(), ..s }),
                    WaitOutcomeView::Pending,
                    m.filter(notification()),
                )
            }
        }
    }

    /// Handing the notifications of the session `key` to its event handler:
    /// only with a handler registered and no wait under way, and then the
    /// whole mailbox is read.
    pub open spec fn notifications(self, key: Seq<char>) -> (CharcoalView, Seq<InboundView>) {
        if self.players.contains_key(key) && self.players[key].event_handler
            && self.players[key].awaiting is None {
            let s = self.players[key];
            (
                self.with_session(key, SessionView { mailbox: Seq::empty(), ..s }),
                s.mailbox.filter(notification()),
            )
        } else {
            (self, Seq::empty())
        }
    }
}

impl CharcoalView {
    /// The state after every pending fleet-wide event has been applied.
    pub open spec fn fleet_events_applied(self) -> CharcoalView {
        CharcoalView {
            players: self.players.remove_keys(evicted_by(self.events)),
            events: Seq::empty(),
            ..self
        }
    }

    /// The state with a fresh session for `key` added, under the next mailbox
    /// identity.
    pub open spec fn created(self, key: Seq<char>) -> CharcoalView {
        CharcoalView {
            players: self.players.insert(key, SessionView::fresh(key, self.next_mailbox)),
            next_mailbox: (self.next_mailbox + 1) as u64,
            ..self
        }
    }
}

/// An action that returned `r` took the state from `pre` to `post` as the
/// transition `t` says: to its state where it succeeds, nowhere where it fails.
pub open spec fn follows(
    pre: CharcoalView,
    post: CharcoalView,
    t: Result<CharcoalView, ActionError>,
    r: Result<(), ActionError>,
) -> bool {
    match t {
        Ok(w) => r is Ok && post == w,
        Err(e) => r == Err::<(), ActionError>(e) && post == pre,
    }
}

/// Replacing the session under `k` by one with the same key and mailbox
/// identity, whose mailbox holds only replies for `k`, keeps the invariant.
pub proof fn lemma_wf_update_session(v: CharcoalView, k: Seq<char>, s: SessionView)
    requires
        v.wf(),
        v.players.contains_key(k),
        s.key == k,
        s.mailbox_id == v.players[k].mailbox_id,
        s.mailbox.len() <= MAILBOX_CAPACITY,
        forall|i: int| 0 <= i < s.mailbox.len() ==> (#[trigger] s.mailbox[i]).route_key() == Some(k),
    ensures
        (CharcoalView { players: v.players.insert(k, s), ..v }).wf(),
{
    let w = CharcoalView { players: v.players.insert(k, s), ..v };
    assert forall|a: Seq<char>, b: Seq<char>|
        #[trigger] w.players.contains_key(a) && #[trigger] w.players.contains_key(b) && a
            != b implies w.players[a].mailbox_id != w.players[b].mailbox_id by {
        assert(v.players.contains_key(a) && v.players.contains_key(b));
    }
    assert forall|r: Seq<char>| #[trigger] w.routes.contains_key(r) implies w.route_ok(
        r,
        w.routes[r],
    ) by {
        assert(v.route_ok(r, v.routes[r]));
        assert forall|p: Seq<char>| #[trigger]
            w.players.contains_key(p) && w.players[p].mailbox_id == w.routes[r] implies p == r by {
            assert(v.players.contains_key(p));
        }
    }
    assert forall|i: int| 0 <= i < w.outbound.len() implies match (#[trigger] w.outbound[i]).reply_route {
        Some(m) => w.route_ok(w.outbound[i].key, m),
        None => true,
    } by {
        if let Some(m) = w.outbound[i].reply_route {
            assert(v.route_ok(v.outbound[i].key, m));
            assert forall|p: Seq<char>| #[trigger]
                w.players.contains_key(p) && w.players[p].mailbox_id == m implies p
                == w.outbound[i].key by {
                assert(v.players.contains_key(p));
            }
        }
    }
}

/// Removing a session keeps the invariant.
pub proof fn lemma_wf_remove_session(v: CharcoalView, k: Seq<char>)
    requires
        v.wf(),
    ensures
        (CharcoalView { players: v.players.remove(k), ..v }).wf(),
{
    let w = CharcoalView { players: v.players.remove(k), ..v };
    assert forall|r: Seq<char>| #[trigger] w.routes.contains_key(r) implies w.route_ok(
        r,
        w.routes[r],
    ) by {
        assert(v.route_ok(r, v.routes[r]));
        assert forall|p: Seq<char>| #[trigger]
            w.players.contains_key(p) && w.players[p].mailbox_id == w.routes[r] implies p == r by {
            assert(v.players.contains_key(p));
        }
    }
    assert forall|i: int| 0 <= i < w.outbound.len() implies match (#[trigger] w.outbound[i]).reply_route {
        Some(m) => w.route_ok(w.outbound[i].key, m),
        None => true,
    } by {
        if let Some(m) = w.outbound[i].reply_route {
            assert(v.route_ok(v.outbound[i].key, m));
            assert forall|p: Seq<char>| #[trigger]
                w.players.contains_key(p) && w.players[p].mailbox_id == m implies p
                == w.outbound[i].key by {
                assert(v.players.contains_key(p));
            }
        }
    }
}

/// Appending a command whose reply route leads only to its own session keeps
/// the invariant.
pub proof fn lemma_wf_push_outbound(v: CharcoalView, c: OutboundView)
    requires
        v.wf(),
        v.outbound.len() < OUTBOUND_CAPACITY,
        match c.reply_route {
            Some(m) => v.route_ok(c.key, m),
            None => true,
        },
    ensures
        (CharcoalView { outbound: v.outbound.push(c), ..v }).wf(),
{
    let w = CharcoalView { outbound: v.outbound.push(c), ..v };
    assert forall|i: int| 0 <= i < w.outbound.len() implies match (#[trigger] w.outbound[i]).reply_route {
        Some(m) => w.route_ok(w.outbound[i].key, m),
        None => true,
    } by {
        if i < v.outbound.len() {
            assert(w.outbound[i] == v.outbound[i]);
        }
    }
}

/// Keeping only a suffix of the outbound queue keeps the invariant.
pub proof fn lemma_wf_outbound_suffix(v: CharcoalView, rest: Seq<OutboundView>)
    requires
        v.wf(),
        rest.len() <= v.outbound.len(),
        forall|a: int| 0 <= a < rest.len() ==> #[trigger] rest[a] == v.outbound[a + v.outbound.len() - rest.len()],
    ensures
        (CharcoalView { outbound: rest, ..v }).wf(),
{
    let w = CharcoalView { outbound: rest, ..v };
    assert forall|a: int| 0 <= a < w.outbound.len() implies match (#[trigger] w.outbound[a]).reply_route {
        Some(m) => w.route_ok(w.outbound[a].key, m),
        None => true,
    } by {
        let b = a + v.outbound.len() - rest.len();
        assert(w.outbound[a] == v.outbound[b]);
    }
}

/// Replacing a session twice is replacing it by the second.
pub proof fn lemma_with_session_twice(v: CharcoalView, k: Seq<char>, a: SessionView, b: SessionView)
    ensures
        v.with_session(k, a).with_session(k, b) == v.with_session(k, b),
{
    assert(v.players.insert(k, a).insert(k, b) =~= v.players.insert(k, b));
}

/// A session's own mailbox is a reply route that leads only to it.
pub proof fn lemma_own_route(v: CharcoalView, k: Seq<char>)
    requires
        v.wf(),
        v.players.contains_key(k),
    ensures
        v.route_ok(k, v.players[k].mailbox_id),
{
}

} // verus!
