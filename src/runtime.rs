//! The session registry and the queues that connect sessions to the bus
//! processor.
use crate::errors::{
    ActionError, ChannelManagerError, CreateJobError, PlayerActionError,
    RegisterEventHandlerError, TrackActionError,
};
use crate::helpers::unix_millis;
use crate::ids::new_random_id;
use crate::keyed::{
    has_key, keyed_map, lemma_keyed_index, lemma_keyed_push, lemma_keyed_remove,
    lemma_keyed_update, unique_keys,
};
use crate::messages::{
    answers, is_notification, string_views, views, Command, CommandView, Inbound, InboundView,
    OutboundCommand, OutboundView, ReplyKind, WorkerAction, WorkerActionView,
};
use crate::model::{
    evicted_by, first_answer, follows, lemma_own_route, lemma_wf_outbound_suffix,
    lemma_wf_push_outbound, lemma_wf_remove_session, lemma_wf_update_session,
    lemma_with_session_twice, notification, register_routes, session_key, AssignmentView,
    AwaitView, CharcoalView, PendingView, RouteOutcome, SessionView, WaitOutcomeView,
    MAILBOX_CAPACITY, OUTBOUND_CAPACITY, VOLUME_SCALE,
};
use vstd::prelude::*;

verus! {

/// The job that serves a session, and the worker that runs it.
#[derive(Debug)]
pub struct Assignment {
    pub job_id: String,
    pub worker_id: String,
}

impl View for Assignment {
    type V = AssignmentView;

    open spec fn view(&self) -> AssignmentView {
        AssignmentView { job_id: self.job_id@, worker_id: self.worker_id@ }
    }
}

/// The state of one session: its key, the job assigned to it, and its mailbox.
pub struct PlayerObjectData {
    guild_id: String,
    assignment: Option<Assignment>,
    mailbox_id: u64,
    mailbox: Vec<Inbound>,
    awaiting: Option<ReplyKind>,
    event_handler: bool,
}

/// The view of an optional assignment.
pub open spec fn assignment_view(a: Option<Assignment>) -> Option<AssignmentView> {
    match a {
        Some(x) => Some(x@),
        None => None,
    }
}

impl View for PlayerObjectData {
    type V = SessionView;

    closed spec fn view(&self) -> SessionView {
        SessionView {
            key: self.guild_id@,
            assignment: assignment_view(self.assignment),
            mailbox_id: self.mailbox_id,
            mailbox: views(self.mailbox@),
            awaiting: self.awaiting,
            event_handler: self.event_handler,
        }
    }
}

impl PlayerObjectData {
    /// A new session for `guild_id` with the mailbox `mailbox_id`.
    pub fn new(guild_id: String, mailbox_id: u64) -> (r: PlayerObjectData)
        ensures
            r@ == SessionView::fresh(guild_id@, mailbox_id),
    {
        let r = PlayerObjectData {
            guild_id,
            assignment: None,
            mailbox_id,
            mailbox: Vec::new(),
            awaiting: None,
            event_handler: false,
        };
        assert(views(r.mailbox@) =~= Seq::<InboundView>::empty());
        r
    }

    pub fn guild_id(&self) -> (r: &String)
        ensures
            r@ == self@.key,
    {
        &self.guild_id
    }

    pub fn assignment(&self) -> (r: &Option<Assignment>)
        ensures
            assignment_view(*r) == self@.assignment,
    {
        &self.assignment
    }

    pub fn mailbox_id(&self) -> (r: u64)
        ensures
            r == self@.mailbox_id,
    {
        self.mailbox_id
    }

    pub fn mailbox(&self) -> (r: &Vec<Inbound>)
        ensures
            views(r@) == self@.mailbox,
    {
        &self.mailbox
    }

    pub fn awaiting(&self) -> (r: Option<ReplyKind>)
        ensures
            r == self@.awaiting,
    {
        self.awaiting
    }

    pub fn has_event_handler(&self) -> (r: bool)
        ensures
            r == self@.event_handler,
    {
        self.event_handler
    }
}

/// An entry of the routing table: replies for `guild_id` go to `mailbox_id`.
pub struct Route {
    pub guild_id: String,
    pub mailbox_id: u64,
}

/// The runtime: session registry, outbound queue, routing table and the
/// mailbox of fleet-wide events.
pub struct Charcoal {
    players: Vec<PlayerObjectData>,
    outbound: Vec<OutboundCommand>,
    routes: Vec<Route>,
    events: Vec<Inbound>,
    next_mailbox: u64,
}

/// The key of a route.
pub open spec fn route_key() -> spec_fn(Route) -> Seq<char> {
    |r: Route| r.guild_id@
}

/// The mailbox that a route leads to.
pub open spec fn route_target() -> spec_fn(Route) -> u64 {
    |r: Route| r.mailbox_id
}

impl View for Charcoal {
    type V = CharcoalView;

    closed spec fn view(&self) -> CharcoalView {
        CharcoalView {
            players: keyed_map(views(self.players@), session_key()),
            outbound: views(self.outbound@),
            routes: keyed_map(self.routes@, route_key()).map_values(route_target()),
            events: views(self.events@),
            next_mailbox: self.next_mailbox,
        }
    }
}

/// A correlated reply that a caller has to wait for.
#[derive(Debug)]
pub struct PendingReply {
    pub guild_id: String,
    pub mailbox_id: u64,
    pub kind: ReplyKind,
}

impl View for PendingReply {
    type V = PendingView;

    open spec fn view(&self) -> PendingView {
        PendingView { key: self.guild_id@, mailbox_id: self.mailbox_id, kind: self.kind }
    }
}

/// A bounded wait for a correlated reply, begun at `started_ms`, that gives
/// up once more than `timeout_ms` milliseconds have passed.
#[derive(Debug)]
pub struct AwaitAction {
    pub pending: PendingReply,
    pub started_ms: u128,
    pub timeout_ms: u128,
}

impl View for AwaitAction {
    type V = AwaitView;

    open spec fn view(&self) -> AwaitView {
        AwaitView { pending: self.pending@, started_ms: self.started_ms, timeout_ms: self.timeout_ms }
    }
}

impl AwaitAction {
    /// A wait for `pending` begun at `started_ms`.
    pub fn new(pending: PendingReply, started_ms: u128, timeout_ms: u128) -> (r: AwaitAction)
        ensures
            r@ == (AwaitView { pending: pending@, started_ms, timeout_ms }),
    {
        AwaitAction { pending, started_ms, timeout_ms }
    }

    /// A wait for `pending` begun now, by the system clock; where the clock
    /// reads before the Unix epoch the wait is taken to begin at it.
    pub fn start(pending: PendingReply, timeout_ms: u128) -> (r: AwaitAction)
        ensures
            r@.pending == pending@,
            r@.timeout_ms == timeout_ms,
    {
        let started_ms = match unix_millis() {
            Some(t) => t,
            None => 0,
        };
        AwaitAction::new(pending, started_ms, timeout_ms)
    }
}

/// How one step of a bounded wait ended.
#[derive(Debug)]
pub enum WaitOutcome {
    /// The awaited reply.
    Matched(Inbound),
    /// Nothing yet, and the deadline has not passed.
    Pending,
    /// The deadline passed without the reply.
    TimedOut,
    /// The session waited on has left the registry.
    Closed,
}

impl View for WaitOutcome {
    type V = WaitOutcomeView;

    open spec fn view(&self) -> WaitOutcomeView {
        match self {
            WaitOutcome::Matched(e) => WaitOutcomeView::Matched(e@),
            WaitOutcome::Pending => WaitOutcomeView::Pending,
            WaitOutcome::TimedOut => WaitOutcomeView::TimedOut,
            WaitOutcome::Closed => WaitOutcomeView::Closed,
        }
    }
}

/// One step of a bounded wait: how it ended, and the envelopes met on the
/// way that the session's event handler is to be told about.
pub struct WaitPoll {
    pub outcome: WaitOutcome,
    pub notifications: Vec<Inbound>,
}

/// What one iteration of the bus processor did, and what is left for its
/// caller to do.
pub struct ProcessorStep {
    /// What became of the inbound envelope, where there was one.
    pub routed: Option<RouteOutcome>,
    /// The commands to publish, in this order.
    pub publish: Vec<OutboundCommand>,
    /// Neither inbound nor outbound work was found: the caller pauses.
    pub idle: bool,
}

impl Charcoal {
    /// The representation holds distinct keys and a well-formed view.
    pub closed spec fn inv(&self) -> bool {
        &&& unique_keys(views(self.players@), session_key())
        &&& unique_keys(self.routes@, route_key())
        &&& self@.wf()
    }

    /// The invariant of the representation gives that of the view.
    pub proof fn lemma_inv_wf(&self)
        requires
            self.inv(),
        ensures
            self@.wf(),
    {
    }

    /// A runtime with no sessions and empty queues.
    pub fn new() -> (r: Charcoal)
        ensures
            r.inv(),
            r@.players == Map::<Seq<char>, SessionView>::empty(),
            r@.outbound == Seq::<OutboundView>::empty(),
            r@.routes == Map::<Seq<char>, u64>::empty(),
            r@.events == Seq::<InboundView>::empty(),
            r@.next_mailbox == 0,
    {
        let r = Charcoal {
            players: Vec::new(),
            outbound: Vec::new(),
            routes: Vec::new(),
            events: Vec::new(),
            next_mailbox: 0,
        };
        assert(r@.players =~= Map::<Seq<char>, SessionView>::empty());
        assert(r@.routes =~= Map::<Seq<char>, u64>::empty());
        assert(r@.outbound =~= Seq::<OutboundView>::empty());
        assert(r@.events =~= Seq::<InboundView>::empty());
        r
    }

    /// How many commands wait in the outbound queue.
    pub fn outbound_len(&self) -> (r: usize)
        requires
            self.inv(),
        ensures
            r == self@.outbound.len(),
    {
        self.outbound.len()
    }

    /// How many fleet-wide events wait to be applied.
    pub fn pending_fleet_events(&self) -> (r: usize)
        requires
            self.inv(),
        ensures
            r == self@.events.len(),
    {
        self.events.len()
    }

    /// The index of the session for `guild_id`.
    fn find_player(&self, guild_id: &String) -> (r: Option<usize>)
        requires
            self.inv(),
        ensures
            match r {
                Some(i) => i < self.players@.len() && self.players@[i as int]@.key == guild_id@
                    && self@.players.contains_key(guild_id@) && self@.players[guild_id@]
                    == self.players@[i as int]@,
                None => !self@.players.contains_key(guild_id@),
            },
    {
        let ghost vs = views(self.players@);
        let mut i: usize = 0;
        while i < self.players.len()
            invariant
                self.inv(),
                i <= self.players@.len(),
                vs == views(self.players@),
                forall|j: int| 0 <= j < i ==> (#[trigger] vs[j]).key != guild_id@,
            decreases self.players@.len() - i,
        {
            if self.players[i].guild_id == *guild_id {
                proof {
                    assert(vs[i as int] == self.players@[i as int]@);
                    lemma_keyed_index(vs, session_key(), i as int);
                }
                return Some(i);
            }
            i += 1;
        }
        proof {
            if has_key(vs, session_key(), guild_id@) {
                let j = choose|j: int|
                    0 <= j < vs.len() && session_key()(#[trigger] vs[j]) == guild_id@;
                assert(vs[j].key != guild_id@);
            }
        }
        None
    }

    /// The session for `guild_id`, if the registry holds one.
    pub fn get(&self, guild_id: &String) -> (r: Option<&PlayerObjectData>)
        requires
            self.inv(),
        ensures
            match r {
                Some(p) => self@.players.contains_key(guild_id@) && p@ == self@.players[guild_id@],
                None => !self@.players.contains_key(guild_id@),
            },
    {
        match self.find_player(guild_id) {
            Some(i) => Some(&self.players[i]),
            None => None,
        }
    }

    /// The mailbox identity of the session for `guild_id`, creating the
    /// session first where the registry holds none. `None` only where a new
    /// session is needed and mailbox identities are exhausted.
    pub fn get_or_create(&mut self, guild_id: &String) -> (r: Option<u64>)
        requires
            old(self).inv(),
        ensures
            final(self).inv(),
            final(self)@.outbound == old(self)@.outbound,
            final(self)@.routes == old(self)@.routes,
            final(self)@.events == old(self)@.events,
            old(self)@.players.contains_key(guild_id@) ==> {
                &&& final(self)@ == old(self)@
                &&& r == Some(old(self)@.players[guild_id@].mailbox_id)
            },
            !old(self)@.players.contains_key(guild_id@) ==> if old(self)@.next_mailbox < u64::MAX {
                &&& r == Some(old(self)@.next_mailbox)
                &&& final(self)@ == old(self)@.created(guild_id@)
            } else {
                &&& r is None
                &&& final(self)@ == old(self)@
            },
    {
        match self.find_player(guild_id) {
            Some(i) => Some(self.players[i].mailbox_id),
            None => {
                if self.next_mailbox == u64::MAX {
                    return None;
                }
                let id = self.next_mailbox;
                let p = PlayerObjectData::new(guild_id.clone(), id);
                let ghost old_vs = views(self.players@);
                let ghost old_view = self@;
                assert(old_view.wf());
                self.players.push(p);
                self.next_mailbox = id + 1;
                proof {
                    assert(views(self.players@) =~= old_vs.push(p@));
                    lemma_keyed_push(old_vs, session_key(), p@);
                    let v = self@;
                    assert(v.players == old_view.players.insert(guild_id@, p@));
                    assert forall|k: Seq<char>| #[trigger] v.players.contains_key(k) implies {
                        let s = v.players[k];
                        &&& s.key == k
                        &&& s.mailbox_id < v.next_mailbox
                        &&& s.mailbox.len() <= MAILBOX_CAPACITY
                        &&& forall|i: int|
                            0 <= i < s.mailbox.len() ==> (#[trigger] s.mailbox[i]).route_key()
                                == Some(k)
                    } by {
                        if k != guild_id@ {
                            assert(old_view.players.contains_key(k));
                        }
                    }
                    assert forall|a: Seq<char>, b: Seq<char>|
                        #[trigger] v.players.contains_key(a) && #[trigger] v.players.contains_key(b)
                            && a != b implies v.players[a].mailbox_id != v.players[b].mailbox_id by {
                        if a != guild_id@ {
                            assert(old_view.players.contains_key(a));
                        }
                        if b != guild_id@ {
                            assert(old_view.players.contains_key(b));
                        }
                    }
                    assert forall|k: Seq<char>| #[trigger] v.routes.contains_key(k) implies v.route_ok(k, v.routes[k]) by {
                        assert(old_view.route_ok(k, old_view.routes[k]));
                    }
                    assert forall|i: int| 0 <= i < v.outbound.len() implies match (#[trigger] v.outbound[i]).reply_route {
                        Some(m) => v.route_ok(v.outbound[i].key, m),
                        None => true,
                    } by {
                        assert(old_view.outbound[i] == v.outbound[i]);
                    }
                    assert forall|i: int| 0 <= i < v.events.len() implies (#[trigger] v.events[i]).is_fleet_event() by {
                        assert(old_view.events[i] == v.events[i]);
                    }
                }
                Some(id)
            },
        }
    }

    /// Removes the session for `guild_id`; true where there was one.
    pub fn remove(&mut self, guild_id: &String) -> (r: bool)
        requires
            old(self).inv(),
        ensures
            final(self).inv(),
            r == old(self)@.players.contains_key(guild_id@),
            final(self)@ == (CharcoalView {
                players: old(self)@.players.remove(guild_id@),
                ..old(self)@
            }),
    {
        match self.find_player(guild_id) {
            Some(i) => {
                let ghost ps = self.players@;
                let ghost v = self@;
                proof {
                    lemma_players_remove(ps, i as int);
                    lemma_wf_remove_session(v, guild_id@);
                }
                self.players.remove(i);
                proof {
                    assert(self@.players == v.players.remove(guild_id@));
                }
                true
            },
            None => {
                assert(self@.players.remove(guild_id@) =~= self@.players);
                false
            },
        }
    }

    /// The command that directs the worker of the session at index `i`.
    fn worker_command(&self, i: usize, action: WorkerAction, reply: bool) -> (c: OutboundCommand)
        requires
            self.inv(),
            i < self.players@.len(),
            self.players@[i as int]@.assignment is Some,
        ensures
            c@ == self@.worker_command(self.players@[i as int]@.key, action@, reply),
    {
        proof {
            lemma_keyed_index(views(self.players@), session_key(), i as int);
            assert(views(self.players@)[i as int] == self.players@[i as int]@);
        }
        let p = &self.players[i];
        let a = p.assignment.as_ref().unwrap();
        OutboundCommand {
            command: Command::Worker {
                job_id: a.job_id.clone(),
                worker_id: a.worker_id.clone(),
                request_id: new_random_id(),
                action,
            },
            guild_id: p.guild_id.clone(),
            reply_route: if reply {
                Some(p.mailbox_id)
            } else {
                None
            },
        }
    }

    /// Appends a command to the outbound queue.
    fn push_command(&mut self, c: OutboundCommand)
        requires
            old(self).inv(),
            old(self)@.outbound.len() < OUTBOUND_CAPACITY,
            match c@.reply_route {
                Some(m) => old(self)@.route_ok(c@.key, m),
                None => true,
            },
        ensures
            final(self).inv(),
            final(self).players@ == old(self).players@,
            final(self)@ == (CharcoalView { outbound: old(self)@.outbound.push(c@), ..old(self)@ }),
    {
        let ghost v = self@;
        proof {
            lemma_wf_push_outbound(v, c@);
        }
        self.outbound.push(c);
        assert(self@.outbound =~= v.outbound.push(c@));
    }

    /// Records what the session at index `i` awaits.
    fn set_awaiting(&mut self, i: usize, kind: Option<ReplyKind>)
        requires
            old(self).inv(),
            i < old(self).players@.len(),
        ensures
            final(self).inv(),
            final(self).players@.len() == old(self).players@.len(),
            final(self)@ == old(self)@.awaiting(old(self).players@[i as int]@.key, kind),
    {
        let ghost v = self@;
        let ghost k = self.players@[i as int]@.key;
        proof {
            lemma_keyed_index(views(self.players@), session_key(), i as int);
            assert(views(self.players@)[i as int] == self.players@[i as int]@);
        }
        let ghost ps = self.players@;
        self.players[i].awaiting = kind;
        proof {
            lemma_players_update(ps, i as int, self.players@[i as int]);
            assert(self.players@ == ps.update(i as int, self.players@[i as int]));
            assert(self.players@[i as int]@ == SessionView { awaiting: kind, ..v.players[k] });
            lemma_wf_update_session(v, k, self.players@[i as int]@);
        }
    }

    /// Sends `action` to the worker of the session for `guild_id`, with a
    /// reply route to the session's mailbox where `reply` is set.
    fn send_worker(&mut self, guild_id: &String, action: WorkerAction, reply: bool) -> (r: Result<(), ActionError>)
        requires
            old(self).inv(),
        ensures
            final(self).inv(),
            follows(old(self)@, final(self)@, old(self)@.send_worker(guild_id@, action@, reply), r),
    {
        let i = match self.find_player(guild_id) {
            Some(i) => i,
            None => return Err(ActionError::SessionNotFound),
        };
        if self.players[i].assignment.is_none() {
            return Err(ActionError::SessionNotReady);
        }
        if self.outbound.len() >= OUTBOUND_CAPACITY {
            return Err(ActionError::TransportSendError);
        }
        let c = self.worker_command(i, action, reply);
        proof {
            lemma_own_route(self@, guild_id@);
        }
        self.push_command(c);
        Ok(())
    }

    /// Starts playback of the audio at `url`, fetched over HTTP.
    pub fn play_from_http(&mut self, guild_id: &String, url: String) -> (r: Result<(), PlayerActionError>)
        requires
            old(self).inv(),
        ensures
            final(self).inv(),
            follows(
                old(self)@,
                final(self)@,
                old(self)@.send_worker(guild_id@, WorkerActionView::PlayDirectLink { url: url@ }, false),
                r,
            ),
    {
        self.send_worker(guild_id, WorkerAction::PlayDirectLink { url }, false)
    }

    /// Starts playback of the track that `url` names on YouTube, or that a
    /// search for it finds.
    pub fn play_from_youtube(&mut self, guild_id: &String, url: String) -> (r: Result<(), PlayerActionError>)
        requires
            old(self).inv(),
        ensures
            final(self).inv(),
            follows(
                old(self)@,
                final(self)@,
                old(self)@.send_worker(guild_id@, WorkerActionView::PlayFromYoutube { url: url@ }, false),
                r,
            ),
    {
        self.send_worker(guild_id, WorkerAction::PlayFromYoutube { url }, false)
    }

    /// Pauses playback.
    pub fn pause_playback(&mut self, guild_id: &String) -> (r: Result<(), TrackActionError>)
        requires
            old(self).inv(),
        ensures
            final(self).inv(),
            follows(
                old(self)@,
                final(self)@,
                old(self)@.send_worker(guild_id@, WorkerActionView::PausePlayback, false),
                r,
            ),
    {
        self.send_worker(guild_id, WorkerAction::PausePlayback, false)
    }

    /// Resumes playback.
    pub fn resume_playback(&mut self, guild_id: &String) -> (r: Result<(), TrackActionError>)
        requires
            old(self).inv(),
        ensures
            final(self).inv(),
            follows(
                old(self)@,
                final(self)@,
                old(self)@.send_worker(guild_id@, WorkerActionView::ResumePlayback, false),
                r,
            ),
    {
        self.send_worker(guild_id, WorkerAction::ResumePlayback, false)
    }

    /// Loops the current track until told otherwise.
    pub fn loop_indefinitely(&mut self, guild_id: &String) -> (r: Result<(), TrackActionError>)
        requires
            old(self).inv(),
        ensures
            final(self).inv(),
            follows(
                old(self)@,
                final(self)@,
                old(self)@.send_worker(guild_id@, WorkerActionView::LoopForever, false),
                r,
            ),
    {
        self.send_worker(guild_id, WorkerAction::LoopForever, false)
    }

    /// Stops looping the current track.
    pub fn force_stop_loop(&mut self, guild_id: &String) -> (r: Result<(), TrackActionError>)
        requires
            old(self).inv(),
        ensures
            final(self).inv(),
            follows(
                old(self)@,
                final(self)@,
                old(self)@.send_worker(guild_id@, WorkerActionView::ForceStopLoop, false),
                r,
            ),
    {
        self.send_worker(guild_id, WorkerAction::ForceStopLoop, false)
    }

    /// Loops the current track `times` times.
    pub fn loop_x_times(&mut self, times: usize, guild_id: &String) -> (r: Result<(), TrackActionError>)
        requires
            old(self).inv(),
        ensures
            final(self).inv(),
            follows(
                old(self)@,
                final(self)@,
                old(self)@.send_worker(guild_id@, WorkerActionView::LoopXTimes { times }, false),
                r,
            ),
    {
        self.send_worker(guild_id, WorkerAction::LoopXTimes { times }, false)
    }

    /// Moves playback to `position_ms` milliseconds from the start.
    pub fn seek_to_position(&mut self, position_ms: u64, guild_id: &String) -> (r: Result<(), TrackActionError>)
        requires
            old(self).inv(),
        ensures
            final(self).inv(),
            follows(
                old(self)@,
                final(self)@,
                old(self)@.send_worker(guild_id@, WorkerActionView::SeekToPosition { position_ms }, false),
                r,
            ),
    {
        self.send_worker(guild_id, WorkerAction::SeekToPosition { position_ms }, false)
    }

    /// Sets the volume to `playback_volume` millionths of full scale. A volume
    /// outside `0..=VOLUME_SCALE` is refused before any command is enqueued.
    pub fn set_playback_volume(&mut self, playback_volume: i64, guild_id: &String) -> (r: Result<(), TrackActionError>)
        requires
            old(self).inv(),
        ensures
            final(self).inv(),
            follows(
                old(self)@,
                final(self)@,
                old(self)@.set_volume(guild_id@, playback_volume as int),
                r,
            ),
    {
        if playback_volume < 0 || playback_volume > VOLUME_SCALE {
            return Err(ActionError::VolumeOutOfRange);
        }
        self.send_worker(
            guild_id,
            WorkerAction::SetPlaybackVolume { volume: playback_volume as u32 },
            false,
        )
    }

    /// Leaves the voice channel and removes the session from the registry.
    pub fn exit_channel(&mut self, guild_id: &String) -> (r: Result<(), ChannelManagerError>)
        requires
            old(self).inv(),
        ensures
            final(self).inv(),
            follows(old(self)@, final(self)@, old(self)@.leave(guild_id@), r),
    {
        self.send_worker(guild_id, WorkerAction::LeaveChannel, false)?;
        self.remove(guild_id);
        Ok(())
    }

    /// Asks the worker for playback metadata; the reply is then awaited on
    /// the session's mailbox.
    pub fn get_metadata(&mut self, guild_id: &String) -> (r: Result<PendingReply, TrackActionError>)
        requires
            old(self).inv(),
        ensures
            final(self).inv(),
            match old(self)@.request_metadata(guild_id@) {
                Ok((w, p)) => r is Ok && r.unwrap()@ == p && final(self)@ == w,
                Err(e) => r == Err::<PendingReply, ActionError>(e) && final(self)@ == old(self)@,
            },
    {
        let i = match self.find_player(guild_id) {
            Some(i) => i,
            None => return Err(ActionError::SessionNotFound),
        };
        if self.players[i].assignment.is_none() {
            return Err(ActionError::SessionNotReady);
        }
        if self.outbound.len() >= OUTBOUND_CAPACITY {
            return Err(ActionError::TransportSendError);
        }
        let mailbox_id = self.players[i].mailbox_id;
        let c = self.worker_command(i, WorkerAction::GetMetaData, true);
        proof {
            lemma_own_route(self@, guild_id@);
        }
        self.push_command(c);
        self.set_awaiting(i, Some(ReplyKind::MetadataReply));
        Ok(PendingReply { guild_id: guild_id.clone(), mailbox_id, kind: ReplyKind::MetadataReply })
    }

    /// Joins the voice channel `voice_channel_id`. With a job assigned the
    /// join command goes out and `None` comes back; without one a
    /// job-creation command goes out and the reply to await comes back.
    pub fn join_channel(&mut self, guild_id: &String, voice_channel_id: String) -> (r: Result<Option<PendingReply>, CreateJobError>)
        requires
            old(self).inv(),
        ensures
            final(self).inv(),
            match old(self)@.join(guild_id@, voice_channel_id@) {
                Ok((w, p)) => r is Ok && final(self)@ == w && match p {
                    Some(pv) => r.unwrap() is Some && r.unwrap().unwrap()@ == pv,
                    None => r.unwrap() is None,
                },
                Err(e) => r == Err::<Option<PendingReply>, ActionError>(e) && final(self)@ == old(self)@,
            },
    {
        let i = match self.find_player(guild_id) {
            Some(i) => i,
            None => return Err(ActionError::SessionNotFound),
        };
        if self.players[i].assignment.is_none() && self.players[i].awaiting == Some(
            ReplyKind::JobAssignment,
        ) {
            return Err(ActionError::JobCreationPending);
        }
        if self.outbound.len() >= OUTBOUND_CAPACITY {
            return Err(ActionError::TransportSendError);
        }
        proof {
            lemma_own_route(self@, guild_id@);
        }
        if self.players[i].assignment.is_some() {
            let c = self.worker_command(i, WorkerAction::JoinChannel { voice_channel_id }, false);
            self.push_command(c);
            Ok(None)
        } else {
            let mailbox_id = self.players[i].mailbox_id;
            let c = OutboundCommand {
                command: Command::QueueJob { request_id: new_random_id() },
                guild_id: guild_id.clone(),
                reply_route: Some(mailbox_id),
            };
            self.push_command(c);
            self.set_awaiting(i, Some(ReplyKind::JobAssignment));
            Ok(
                Some(
                    PendingReply {
                        guild_id: guild_id.clone(),
                        mailbox_id,
                        kind: ReplyKind::JobAssignment,
                    },
                ),
            )
        }
    }

    /// Registers an event handler on the session for `guild_id`: from now on
    /// its error reports and metadata replies that no wait takes are handed
    /// out by `take_notifications`.
    pub fn register_event_handler(&mut self, guild_id: &String) -> (r: Result<(), RegisterEventHandlerError>)
        requires
            old(self).inv(),
        ensures
            final(self).inv(),
            old(self)@.players.contains_key(guild_id@) ==> r is Ok && final(self)@ == old(self)@.with_session(
                guild_id@,
                SessionView { event_handler: true, ..old(self)@.players[guild_id@] },
            ),
            !old(self)@.players.contains_key(guild_id@) ==> r == Err::<(), RegisterEventHandlerError>(
                RegisterEventHandlerError::FailedToGetPlayerInstance,
            ) && final(self)@ == old(self)@,
    {
        let i = match self.find_player(guild_id) {
            Some(i) => i,
            None => return Err(RegisterEventHandlerError::FailedToGetPlayerInstance),
        };
        let ghost v = self@;
        let ghost ps = self.players@;
        self.players[i].event_handler = true;
        proof {
            lemma_players_update(ps, i as int, self.players@[i as int]);
            assert(self.players@ == ps.update(i as int, self.players@[i as int]));
            assert(self.players@[i as int]@ == SessionView { event_handler: true, ..v.players[guild_id@] });
            lemma_wf_update_session(v, guild_id@, self.players@[i as int]@);
        }
        Ok(())
    }

    /// Finishes a join once the job `job_id` on `worker_id` was assigned to
    /// the session: records the assignment where the session has none, and
    /// enqueues the join command with the session's assignment.
    pub fn complete_join(
        &mut self,
        guild_id: &String,
        voice_channel_id: String,
        job_id: String,
        worker_id: String,
    ) -> (r: Result<(), CreateJobError>)
        requires
            old(self).inv(),
        ensures
            final(self).inv(),
            follows(
                old(self)@,
                final(self)@,
                old(self)@.complete_join(guild_id@, voice_channel_id@, job_id@, worker_id@),
                r,
            ),
    {
        let i = match self.find_player(guild_id) {
            Some(i) => i,
            None => return Err(ActionError::SessionNotFound),
        };
        if self.outbound.len() >= OUTBOUND_CAPACITY {
            return Err(ActionError::TransportSendError);
        }
        let ghost v = self@;
        let ghost k = guild_id@;
        if self.players[i].assignment.is_none() {
            let ghost ps = self.players@;
            self.players[i].assignment = Some(Assignment { job_id, worker_id });
            proof {
                lemma_players_update(ps, i as int, self.players@[i as int]);
                assert(self.players@ == ps.update(i as int, self.players@[i as int]));
                assert(self.players@[i as int]@ == SessionView {
                    assignment: Some(AssignmentView { job_id: job_id@, worker_id: worker_id@ }),
                    ..v.players[k]
                });
                lemma_wf_update_session(v, k, self.players@[i as int]@);
            }
        } else {
            assert(v.players.insert(k, SessionView { assignment: v.players[k].assignment, ..v.players[k] }) =~= v.players);
        }
        proof {
            lemma_own_route(self@, k);
            lemma_keyed_index(views(self.players@), session_key(), i as int);
            assert(views(self.players@)[i as int] == self.players@[i as int]@);
        }
        let c = self.worker_command(i, WorkerAction::JoinChannel { voice_channel_id }, false);
        self.push_command(c);
        Ok(())
    }

    /// The mailbox that the next reply for `guild_id` is routed to.
    fn find_route(&self, guild_id: &String) -> (r: Option<usize>)
        requires
            self.inv(),
        ensures
            match r {
                Some(j) => j < self.routes@.len() && self.routes@[j as int].guild_id@ == guild_id@
                    && self@.routes.contains_key(guild_id@) && self@.routes[guild_id@]
                    == self.routes@[j as int].mailbox_id,
                None => !self@.routes.contains_key(guild_id@),
            },
    {
        let mut j: usize = 0;
        while j < self.routes.len()
            invariant
                self.inv(),
                j <= self.routes@.len(),
                forall|a: int| 0 <= a < j ==> (#[trigger] self.routes@[a]).guild_id@ != guild_id@,
            decreases self.routes@.len() - j,
        {
            if self.routes[j].guild_id == *guild_id {
                proof {
                    lemma_keyed_index(self.routes@, route_key(), j as int);
                }
                return Some(j);
            }
            j += 1;
        }
        proof {
            if has_key(self.routes@, route_key(), guild_id@) {
                let a = choose|a: int|
                    0 <= a < self.routes@.len() && route_key()(#[trigger] self.routes@[a])
                        == guild_id@;
                assert(self.routes@[a].guild_id@ != guild_id@);
            }
        }
        None
    }

    /// Routes one inbound envelope: a reply goes to the mailbox that the
    /// routing table names for its key, a job-expiry or worker-shutdown event
    /// to the mailbox of fleet-wide events. An envelope that cannot be
    /// delivered is dropped, and the outcome says why.
    pub fn parse_message(&mut self, message: Inbound) -> (r: RouteOutcome)
        requires
            old(self).inv(),
        ensures
            final(self).inv(),
            (final(self)@, r) == old(self)@.route(message@),
    {
        let ghost v = self@;
        match &message {
            Inbound::JobExpired { .. } | Inbound::WorkerShutdown { .. } => {
                self.events.push(message);
                proof {
                    assert(self@.events =~= v.events.push(message@));
                    assert forall|i: int| 0 <= i < self@.events.len() implies (#[trigger] self@.events[i]).is_fleet_event() by {
                        if i < v.events.len() {
                            assert(self@.events[i] == v.events[i]);
                        }
                    }
                }
                return RouteOutcome::FleetEvent;
            },
            _ => {},
        }
        let key = match &message {
            Inbound::RemoteError { guild_id, .. } => guild_id.clone(),
            Inbound::JobAssigned { guild_id, .. } => guild_id.clone(),
            Inbound::MetadataResult { guild_id, .. } => guild_id.clone(),
            Inbound::PublishFailed { guild_id, .. } => guild_id.clone(),
            _ => return RouteOutcome::RoutingMiss,
        };
        assert(message@.route_key() == Some(key@));
        let target = match self.find_route(&key) {
            Some(j) => self.routes[j].mailbox_id,
            None => return RouteOutcome::RoutingMiss,
        };
        let i = match self.find_player(&key) {
            Some(i) => i,
            None => return RouteOutcome::MailboxClosed,
        };
        if self.players[i].mailbox_id != target {
            return RouteOutcome::MailboxClosed;
        }
        if self.players[i].mailbox.len() >= MAILBOX_CAPACITY {
            return RouteOutcome::MailboxFull;
        }
        let ghost ps = self.players@;
        let ghost e = message@;
        self.players[i].mailbox.push(message);
        proof {
            lemma_players_update(ps, i as int, self.players@[i as int]);
            assert(self.players@ == ps.update(i as int, self.players@[i as int]));
            assert(self.players@[i as int]@.mailbox =~= v.players[key@].mailbox.push(e));
            assert(self.players@[i as int]@ == SessionView {
                mailbox: v.players[key@].mailbox.push(e),
                ..v.players[key@]
            });
            lemma_wf_update_session(v, key@, self.players@[i as int]@);
        }
        RouteOutcome::Delivered
    }

    /// Hands the failure to publish `command` to the session it belongs to:
    /// an error notice goes onto the session's mailbox, where a wait for the
    /// command's reply ends on it with `TransportSendError` and an event
    /// handler is told of it otherwise. A command that expected a reply
    /// reaches only the mailbox it was routed to.
    pub fn report_publish_failure(&mut self, command: &OutboundCommand) -> (r: RouteOutcome)
        requires
            old(self).inv(),
        ensures
            final(self).inv(),
            (final(self)@, r) == old(self)@.report_failure(
                command@,
                command.command.request_id_view(),
            ),
    {
        let ghost v = self@;
        let i = match self.find_player(&command.guild_id) {
            Some(i) => i,
            None => return RouteOutcome::MailboxClosed,
        };
        if let Some(m) = command.reply_route {
            if m != self.players[i].mailbox_id {
                return RouteOutcome::MailboxClosed;
            }
        }
        if self.players[i].mailbox.len() >= MAILBOX_CAPACITY {
            return RouteOutcome::MailboxFull;
        }
        let key = &command.guild_id;
        let notice = Inbound::PublishFailed {
            guild_id: key.clone(),
            request_id: command.command.request_id().clone(),
            correlated: command.reply_route.is_some(),
        };
        let ghost ps = self.players@;
        let ghost e = notice@;
        self.players[i].mailbox.push(notice);
        proof {
            lemma_players_update(ps, i as int, self.players@[i as int]);
            assert(self.players@ == ps.update(i as int, self.players@[i as int]));
            assert(self.players@[i as int]@.mailbox =~= v.players[key@].mailbox.push(e));
            assert(self.players@[i as int]@ == SessionView {
                mailbox: v.players[key@].mailbox.push(e),
                ..v.players[key@]
            });
            lemma_wf_update_session(v, key@, self.players@[i as int]@);
        }
        RouteOutcome::Delivered
    }

    /// Registers that the next reply for `guild_id` goes to `mailbox_id`.
    fn insert_route(&mut self, guild_id: &String, mailbox_id: u64)
        requires
            old(self).inv(),
            old(self)@.route_ok(guild_id@, mailbox_id),
        ensures
            final(self).inv(),
            final(self)@ == (CharcoalView {
                routes: old(self)@.routes.insert(guild_id@, mailbox_id),
                ..old(self)@
            }),
    {
        let ghost v = self@;
        let ghost rs = self.routes@;
        let ghost m0 = keyed_map(rs, route_key());
        match self.find_route(guild_id) {
            Some(j) => {
                self.routes[j].mailbox_id = mailbox_id;
                proof {
                    assert(self.routes@ == rs.update(j as int, self.routes@[j as int]));
                    lemma_keyed_update(rs, route_key(), j as int, self.routes@[j as int]);
                }
            },
            None => {
                let r = Route { guild_id: guild_id.clone(), mailbox_id };
                self.routes.push(r);
                proof {
                    lemma_keyed_push(rs, route_key(), r);
                }
            },
        }
        proof {
            assert(keyed_map(self.routes@, route_key()).map_values(route_target()) =~= v.routes.insert(
                guild_id@,
                mailbox_id,
            ));
            let w = self@;
            assert forall|k: Seq<char>| #[trigger] w.routes.contains_key(k) implies w.route_ok(k, w.routes[k]) by {
                if k != guild_id@ {
                    assert(v.routes.contains_key(k));
                    assert(v.route_ok(k, v.routes[k]));
                }
            }
        }
    }

    /// Takes up to `max` commands from the front of the outbound queue, in
    /// the order they were enqueued, for the bus processor to publish. Each
    /// command that expects a reply first registers its reply route.
    pub fn drain_outbound(&mut self, max: usize) -> (r: Vec<OutboundCommand>)
        requires
            old(self).inv(),
        ensures
            final(self).inv(),
            ({
                let n = if max < old(self)@.outbound.len() { max as int } else { old(self)@.outbound.len() as int };
                &&& views(r@) == old(self)@.outbound.take(n)
                &&& final(self)@ == (CharcoalView {
                    outbound: old(self)@.outbound.skip(n),
                    routes: register_routes(old(self)@.routes, old(self)@.outbound.take(n)),
                    ..old(self)@
                })
            }),
    {
        let ghost v = self@;
        let mut out: Vec<OutboundCommand> = Vec::new();
        let mut i: usize = 0;
        assert(v.outbound.skip(0) =~= v.outbound);
        assert(v.outbound.take(0) =~= Seq::<OutboundView>::empty());
        assert(views(out@) =~= Seq::<OutboundView>::empty());
        while i < max && self.outbound.len() > 0
            invariant
                self.inv(),
                i <= v.outbound.len(),
                i <= max,
                self.outbound@.len() == v.outbound.len() - i,
                views(out@) == v.outbound.take(i as int),
                self@ == (CharcoalView {
                    outbound: v.outbound.skip(i as int),
                    routes: register_routes(v.routes, v.outbound.take(i as int)),
                    ..v
                }),
            decreases v.outbound.len() - i,
        {
            let ghost pre = self@;
            let ghost pre_vec = self.outbound@;
            assert(views(pre_vec)[0] == pre_vec[0]@);
            let c = self.outbound.remove(0);
            proof {
                assert(self.outbound@ == pre_vec.remove(0));
                assert(c@ == v.outbound[i as int]);
                assert(views(pre_vec.remove(0)) =~= views(pre_vec).skip(1));
                assert(v.outbound.skip(i as int).skip(1) =~= v.outbound.skip(i + 1));
                assert(self@.outbound =~= v.outbound.skip(i + 1));
                let w = self@;
                assert(pre.outbound[0] == c@);
                assert(pre.wf());
                assert(w == CharcoalView { outbound: w.outbound, ..pre });
                lemma_wf_outbound_suffix(pre, w.outbound);
            }
            if let Some(m) = c.reply_route {
                self.insert_route(&c.guild_id, m);
            }
            proof {
                assert(v.outbound.take(i + 1).drop_last() =~= v.outbound.take(i as int));
                assert(v.outbound.take(i + 1).last() == c@);
            }
            out.push(c);
            proof {
                assert(views(out@) =~= v.outbound.take(i + 1));
            }
            i += 1;
        }
        proof {
            let n = if max < v.outbound.len() { max as int } else { v.outbound.len() as int };
            assert(i == n);
        }
        out
    }

    /// Removes the sessions that the fleet-wide event `e` names.
    fn evict(&mut self, e: &Inbound)
        requires
            old(self).inv(),
        ensures
            final(self).inv(),
            final(self)@ == (CharcoalView {
                players: old(self)@.players.remove_keys(e@.evicted_keys().to_set()),
                ..old(self)@
            }),
    {
        let ghost v = self@;
        match e {
            Inbound::JobExpired { guild_id, .. } => {
                self.remove(guild_id);
                assert(seq![guild_id@].to_set() =~= set![guild_id@]) by {
                    assert(seq![guild_id@][0] == guild_id@);
                }
                assert(v.players.remove_keys(set![guild_id@]) =~= v.players.remove(guild_id@));
            },
            Inbound::WorkerShutdown { guild_ids, .. } => {
                let ghost keys = string_views(guild_ids@);
                let mut j: usize = 0;
                assert(keys.take(0).to_set() =~= Set::<Seq<char>>::empty());
                assert(v.players.remove_keys(Set::<Seq<char>>::empty()) =~= v.players);
                while j < guild_ids.len()
                    invariant
                        self.inv(),
                        j <= guild_ids@.len(),
                        keys == string_views(guild_ids@),
                        self@ == (CharcoalView {
                            players: v.players.remove_keys(keys.take(j as int).to_set()),
                            ..v
                        }),
                    decreases guild_ids@.len() - j,
                {
                    let ghost pre = self@;
                    self.remove(&guild_ids[j]);
                    proof {
                        let k = guild_ids@[j as int]@;
                        assert(keys[j as int] == k);
                        let s0 = keys.take(j as int).to_set();
                        let s1 = keys.take(j + 1).to_set();
                        assert(s1 =~= s0.insert(k)) by {
                            assert forall|x: Seq<char>| s1.contains(x) <==> s0.insert(k).contains(x) by {
                                if s1.contains(x) {
                                    let a = choose|a: int| 0 <= a < keys.take(j + 1).len() && #[trigger] keys.take(j + 1)[a] == x;
                                    if a < j {
                                        assert(keys.take(j as int)[a] == x);
                                    }
                                }
                                if s0.contains(x) {
                                    let a = choose|a: int| 0 <= a < keys.take(j as int).len() && #[trigger] keys.take(j as int)[a] == x;
                                    assert(keys.take(j + 1)[a] == x);
                                }
                                if x == k {
                                    assert(keys.take(j + 1)[j as int] == x);
                                }
                            }
                        }
                        assert(v.players.remove_keys(s0).remove(k) =~= v.players.remove_keys(s1));
                    }
                    j += 1;
                }
                assert(keys.take(guild_ids@.len() as int) =~= keys);
            },
            _ => {
                assert(e@.evicted_keys().to_set() =~= Set::<Seq<char>>::empty());
                assert(v.players.remove_keys(Set::<Seq<char>>::empty()) =~= v.players);
            },
        }
    }

    /// Applies every pending job-expiry and worker-shutdown event, oldest
    /// first: the sessions they name leave the registry. Returns how many
    /// events were applied.
    pub fn apply_fleet_events(&mut self) -> (r: usize)
        requires
            old(self).inv(),
        ensures
            final(self).inv(),
            r == old(self)@.events.len(),
            final(self)@ == old(self)@.fleet_events_applied(),
    {
        let ghost v = self@;
        let mut evs: Vec<Inbound> = Vec::new();
        std::mem::swap(&mut self.events, &mut evs);
        assert(views(evs@) == v.events);
        assert(self@.events =~= Seq::<InboundView>::empty());
        assert(evicted_by(v.events.take(0)) =~= Set::<Seq<char>>::empty());
        assert(v.players.remove_keys(Set::<Seq<char>>::empty()) =~= v.players);
        let mut k: usize = 0;
        while k < evs.len()
            invariant
                self.inv(),
                k <= evs@.len(),
                views(evs@) == v.events,
                self@ == (CharcoalView {
                    players: v.players.remove_keys(evicted_by(v.events.take(k as int))),
                    events: Seq::empty(),
                    ..v
                }),
            decreases evs@.len() - k,
        {
            self.evict(&evs[k]);
            proof {
                let e = v.events[k as int];
                assert(evs@[k as int]@ == e);
                let a0 = evicted_by(v.events.take(k as int));
                let a1 = evicted_by(v.events.take(k + 1));
                let b = e.evicted_keys().to_set();
                assert(a1 =~= a0.union(b)) by {
                    assert forall|x: Seq<char>| a1.contains(x) <==> a0.union(b).contains(x) by {
                        if a1.contains(x) {
                            let i = choose|i: int| 0 <= i < v.events.take(k + 1).len() && (#[trigger] v.events.take(k + 1)[i]).evicted_keys().contains(x);
                            if i < k {
                                assert(v.events.take(k as int)[i] == v.events.take(k + 1)[i]);
                            } else {
                                assert(v.events.take(k + 1)[i] == e);
                            }
                        }
                        if a0.contains(x) {
                            let i = choose|i: int| 0 <= i < v.events.take(k as int).len() && (#[trigger] v.events.take(k as int)[i]).evicted_keys().contains(x);
                            assert(v.events.take(k as int)[i] == v.events.take(k + 1)[i]);
                        }
                        if b.contains(x) {
                            assert(v.events.take(k + 1)[k as int] == e);
                        }
                    }
                }
                assert(v.players.remove_keys(a0).remove_keys(b) =~= v.players.remove_keys(a1));
            }
            k += 1;
        }
        assert(v.events.take(evs@.len() as int) =~= v.events);
        evs.len()
    }

    /// Replaces the mailbox and the awaited reply of the session at index `i`.
    fn set_mailbox(&mut self, i: usize, mailbox: Vec<Inbound>, awaiting: Option<ReplyKind>)
        requires
            old(self).inv(),
            i < old(self).players@.len(),
            views(mailbox@).len() <= MAILBOX_CAPACITY,
            forall|a: int|
                0 <= a < mailbox@.len() ==> (#[trigger] mailbox@[a])@.route_key() == Some(
                    old(self).players@[i as int]@.key,
                ),
        ensures
            final(self).inv(),
            final(self)@ == old(self)@.with_session(
                old(self).players@[i as int]@.key,
                SessionView {
                    mailbox: views(mailbox@),
                    awaiting,
                    ..old(self)@.players[old(self).players@[i as int]@.key]
                },
            ),
    {
        let ghost v = self@;
        let ghost k = self.players@[i as int]@.key;
        proof {
            lemma_keyed_index(views(self.players@), session_key(), i as int);
            assert(views(self.players@)[i as int] == self.players@[i as int]@);
        }
        let ghost ps = self.players@;
        self.players[i].mailbox = mailbox;
        self.players[i].awaiting = awaiting;
        proof {
            lemma_players_update(ps, i as int, self.players@[i as int]);
            assert(self.players@ == ps.update(i as int, self.players@[i as int]));
            let s = self.players@[i as int]@;
            assert forall|a: int| 0 <= a < s.mailbox.len() implies (#[trigger] s.mailbox[a]).route_key() == Some(k) by {
                assert(s.mailbox[a] == self.players@[i as int].mailbox@[a]@);
            }
            lemma_wf_update_session(v, k, s);
        }
    }

    /// One step of the bounded wait `w`, at `now_ms` milliseconds since the
    /// Unix epoch.
    pub fn wait_step(&mut self, w: &AwaitAction, now_ms: u128) -> (r: WaitPoll)
        requires
            old(self).inv(),
        ensures
            final(self).inv(),
            (final(self)@, r.outcome@, views(r.notifications@)) == old(self)@.wait_step(w@, now_ms),
    {
        let ghost v = self@;
        let key = &w.pending.guild_id;
        let kind = w.pending.kind;
        let i = match self.find_player(key) {
            Some(i) => i,
            None => {
                let none: Vec<Inbound> = Vec::new();
                assert(views(none@) =~= Seq::<InboundView>::empty());
                return WaitPoll { outcome: WaitOutcome::Closed, notifications: none };
            },
        };
        if self.players[i].mailbox_id != w.pending.mailbox_id {
            let none: Vec<Inbound> = Vec::new();
            assert(views(none@) =~= Seq::<InboundView>::empty());
            return WaitPoll { outcome: WaitOutcome::Closed, notifications: none };
        }
        let ghost s = v.players[key@];
        let ghost m = s.mailbox;
        proof {
            assert(v.wf());
            assert(v.players.contains_key(key@));
        }
        let mut taken: Vec<Inbound> = Vec::new();
        let ghost ps = self.players@;
        proof {
            lemma_keyed_index(views(self.players@), session_key(), i as int);
            assert(views(self.players@)[i as int] == self.players@[i as int]@);
        }
        std::mem::swap(&mut self.players[i].mailbox, &mut taken);
        proof {
            lemma_players_update(ps, i as int, self.players@[i as int]);
            assert(self.players@ == ps.update(i as int, self.players@[i as int]));
            assert(self.players@[i as int]@.mailbox =~= Seq::<InboundView>::empty());
            assert(self.players@[i as int]@ == SessionView { mailbox: Seq::empty(), ..s });
            lemma_wf_update_session(v, key@, self.players@[i as int]@);
        }
        assert(views(taken@) == m);
        let ghost mid = self@;
        let mut notes: Vec<Inbound> = Vec::new();
        let mut matched: Option<Inbound> = None;
        let mut j: usize = 0;
        assert(m.skip(0) =~= m);
        assert(m.take(0) =~= Seq::<InboundView>::empty());
        assert(views(notes@) =~= Seq::<InboundView>::empty());
        while matched.is_none() && taken.len() > 0
            invariant
                j <= m.len(),
                m.len() <= MAILBOX_CAPACITY,
                j + taken@.len() == m.len(),
                views(taken@) == m.skip(j as int),
                matched is None ==> views(notes@) == m.take(j as int).filter(notification())
                    && forall|a: int| 0 <= a < j ==> !(#[trigger] m[a]).answers(kind),
                matched is Some ==> j >= 1 && first_answer(m, kind, j - 1) && matched.unwrap()@
                    == m[j - 1] && views(notes@) == m.take(j - 1).filter(notification()),
            decreases m.len() - j,
        {
            let ghost pre = taken@;
            assert(views(pre)[0] == pre[0]@);
            let e = taken.remove(0);
            proof {
                assert(views(taken@) =~= views(pre).skip(1));
                assert(m.skip(j as int).skip(1) =~= m.skip(j + 1));
                assert(e@ == m[j as int]);
                assert(m.take(j + 1).drop_last() =~= m.take(j as int));
                assert(m.take(j + 1).last() == m[j as int]);
                assert(m.take(j + 1).len() == j + 1);
                reveal_with_fuel(Seq::filter, 1);
                assert(m.take(j + 1).filter(notification()) == if m[j as int].is_notification() {
                    m.take(j as int).filter(notification()).push(m[j as int])
                } else {
                    m.take(j as int).filter(notification())
                });
            }
            if answers(&e, kind) {
                matched = Some(e);
            } else {
                if is_notification(&e) {
                    let ghost before = notes@;
                    notes.push(e);
                    assert(views(notes@) =~= views(before).push(m[j as int]));
                }
            }
            j += 1;
        }
        let ghost rest = views(taken@);
        proof {
            assert(mid.players[key@] == SessionView { mailbox: Seq::empty(), ..s });
            assert(mid == v.with_session(key@, SessionView { mailbox: Seq::empty(), ..s }));
            lemma_with_session_twice(v, key@, SessionView { mailbox: Seq::empty(), ..s }, SessionView { mailbox: rest, awaiting: None, ..s });
            lemma_with_session_twice(v, key@, SessionView { mailbox: Seq::empty(), ..s }, SessionView { mailbox: rest, awaiting: s.awaiting, ..s });
            assert forall|a: int| 0 <= a < taken@.len() implies (#[trigger] taken@[a])@.route_key() == Some(key@) by {
                assert(taken@[a]@ == rest[a]);
                assert(rest[a] == m[a + j]);
            }
        }
        match matched {
            Some(e) => {
                self.set_mailbox(i, taken, None);
                proof {
                    assert(first_answer(m, kind, j - 1));
                    let c = choose|c: int| first_answer(m, kind, c);
                    assert(c == j - 1) by {
                        if c < j - 1 {
                            assert(!m[c].answers(kind));
                        } else if c > j - 1 {
                            assert(!m[j - 1].answers(kind));
                        }
                    }
                }
                WaitPoll { outcome: WaitOutcome::Matched(e), notifications: notes }
            },
            None => {
                proof {
                    assert(j == m.len());
                    assert(m.take(j as int) =~= m);
                    assert(rest =~= Seq::<InboundView>::empty());
                    assert(!exists|c: int| first_answer(m, kind, c));
                }
                let elapsed: u128 = if now_ms >= w.started_ms {
                    now_ms - w.started_ms
                } else {
                    0
                };
                if elapsed > w.timeout_ms {
                    self.set_mailbox(i, taken, None);
                    WaitPoll { outcome: WaitOutcome::TimedOut, notifications: notes }
                } else {
                    let awaiting = self.players[i].awaiting;
                    self.set_mailbox(i, taken, awaiting);
                    WaitPoll { outcome: WaitOutcome::Pending, notifications: notes }
                }
            },
        }
    }

    /// One step of the bounded wait `w` at the present time, by the system
    /// clock. Where the clock reads before the Unix epoch it cannot bound the
    /// wait, so the step is taken at the latest time there is, and the
    /// deadline counts as passed. Whatever the clock reads, the step is that
    /// of `wait_step` at some time.
    pub fn boilerplate_parse_ipc(&mut self, w: &AwaitAction) -> (r: WaitPoll)
        requires
            old(self).inv(),
        ensures
            final(self).inv(),
            exists|now: u128|
                (final(self)@, r.outcome@, views(r.notifications@)) == #[trigger] old(self)@.wait_step(
                    w@,
                    now,
                ),
    {
        let now = match unix_millis() {
            Some(t) => t,
            None => u128::MAX,
        };
        self.wait_step(w, now)
    }

    /// Hands out the notifications waiting on the session for `guild_id`, for
    /// its event handler: only with a handler registered and no bounded wait
    /// under way, which reads the mailbox itself.
    pub fn take_notifications(&mut self, guild_id: &String) -> (r: Vec<Inbound>)
        requires
            old(self).inv(),
        ensures
            final(self).inv(),
            (final(self)@, views(r@)) == old(self)@.notifications(guild_id@),
    {
        let ghost v = self@;
        let none: Vec<Inbound> = Vec::new();
        assert(views(none@) =~= Seq::<InboundView>::empty());
        let i = match self.find_player(guild_id) {
            Some(i) => i,
            None => return none,
        };
        if !self.players[i].event_handler || self.players[i].awaiting.is_some() {
            return none;
        }
        let ghost s = v.players[guild_id@];
        let ghost m = s.mailbox;
        proof {
            assert(v.wf());
        }
        let mut taken: Vec<Inbound> = Vec::new();
        let ghost ps = self.players@;
        proof {
            lemma_keyed_index(views(self.players@), session_key(), i as int);
            assert(views(self.players@)[i as int] == self.players@[i as int]@);
        }
        std::mem::swap(&mut self.players[i].mailbox, &mut taken);
        proof {
            lemma_players_update(ps, i as int, self.players@[i as int]);
            assert(self.players@ == ps.update(i as int, self.players@[i as int]));
            assert(self.players@[i as int]@.mailbox =~= Seq::<InboundView>::empty());
            assert(self.players@[i as int]@ == SessionView { mailbox: Seq::empty(), ..s });
            lemma_wf_update_session(v, guild_id@, self.players@[i as int]@);
        }
        let mut notes: Vec<Inbound> = none;
        let mut j: usize = 0;
        assert(m.skip(0) =~= m);
        assert(m.take(0) =~= Seq::<InboundView>::empty());
        while taken.len() > 0
            invariant
                j <= m.len(),
                m.len() <= MAILBOX_CAPACITY,
                j + taken@.len() == m.len(),
                views(taken@) == m.skip(j as int),
                views(notes@) == m.take(j as int).filter(notification()),
            decreases m.len() - j,
        {
            let ghost pre = taken@;
            assert(views(pre)[0] == pre[0]@);
            let e = taken.remove(0);
            proof {
                assert(views(taken@) =~= views(pre).skip(1));
                assert(m.skip(j as int).skip(1) =~= m.skip(j + 1));
                assert(e@ == m[j as int]);
                assert(m.take(j + 1).drop_last() =~= m.take(j as int));
                assert(m.take(j + 1).last() == m[j as int]);
                assert(m.take(j + 1).len() == j + 1);
                reveal_with_fuel(Seq::filter, 1);
                assert(m.take(j + 1).filter(notification()) == if m[j as int].is_notification() {
                    m.take(j as int).filter(notification()).push(m[j as int])
                } else {
                    m.take(j as int).filter(notification())
                });
            }
            if is_notification(&e) {
                let ghost before = notes@;
                notes.push(e);
                assert(views(notes@) =~= views(before).push(m[j as int]));
            }
            j += 1;
        }
        proof {
            assert(m.take(j as int) =~= m);
        }
        notes
    }

    /// One iteration of the bus processor: routes the envelope `inbound`
    /// polled from the bus, if any, then takes up to `max` commands from the
    /// outbound queue for publishing.
    pub fn processor_step(&mut self, inbound: Option<Inbound>, max: usize) -> (r: ProcessorStep)
        requires
            old(self).inv(),
        ensures
            final(self).inv(),
            ({
                let routed = match inbound {
                    Some(e) => old(self)@.route(e@).0,
                    None => old(self)@,
                };
                let n = if max < routed.outbound.len() { max as int } else { routed.outbound.len() as int };
                &&& r.routed == match inbound {
                    Some(e) => Some(old(self)@.route(e@).1),
                    None => None,
                }
                &&& views(r.publish@) == routed.outbound.take(n)
                &&& final(self)@ == (CharcoalView {
                    outbound: routed.outbound.skip(n),
                    routes: register_routes(routed.routes, routed.outbound.take(n)),
                    ..routed
                })
                &&& r.idle == (inbound is None && n == 0)
            }),
    {
        let had_inbound = inbound.is_some();
        let routed = match inbound {
            Some(e) => Some(self.parse_message(e)),
            None => None,
        };
        let publish = self.drain_outbound(max);
        let idle = !had_inbound && publish.len() == 0;
        ProcessorStep { routed, publish, idle }
    }
}

/// What a caller of a correlated action makes of one wait step: the reply,
/// nothing yet, or the error that ends the wait. A failure to publish the
/// request ends it with `TransportSendError`.
pub fn correlated(outcome: WaitOutcome) -> (r: Result<Option<Inbound>, ActionError>)
    ensures
        match outcome@ {
            WaitOutcomeView::Matched(e) => if e is PublishFailed {
                r == Err::<Option<Inbound>, ActionError>(ActionError::TransportSendError)
            } else {
                r is Ok && r.unwrap() is Some && r.unwrap().unwrap()@ == e
            },
            WaitOutcomeView::Pending => r is Ok && r.unwrap() is None,
            WaitOutcomeView::TimedOut => r == Err::<Option<Inbound>, ActionError>(
                ActionError::CorrelationTimeout,
            ),
            WaitOutcomeView::Closed => r == Err::<Option<Inbound>, ActionError>(
                ActionError::MailboxClosed,
            ),
        },
{
    match outcome {
        WaitOutcome::Matched(Inbound::PublishFailed { .. }) => Err(ActionError::TransportSendError),
        WaitOutcome::Matched(e) => Ok(Some(e)),
        WaitOutcome::Pending => Ok(None),
        WaitOutcome::TimedOut => Err(ActionError::CorrelationTimeout),
        WaitOutcome::Closed => Err(ActionError::MailboxClosed),
    }
}

/// The view of a sequence of sessions after one of them is replaced.
pub proof fn lemma_players_update(ps: Seq<PlayerObjectData>, i: int, p: PlayerObjectData)
    requires
        unique_keys(views(ps), session_key()),
        0 <= i < ps.len(),
        p@.key == ps[i]@.key,
    ensures
        unique_keys(views(ps.update(i, p)), session_key()),
        keyed_map(views(ps.update(i, p)), session_key()) == keyed_map(views(ps), session_key()).insert(
            p@.key,
            p@,
        ),
{
    assert(views(ps.update(i, p)) =~= views(ps).update(i, p@));
    lemma_keyed_update(views(ps), session_key(), i, p@);
}

/// The view of a sequence of sessions after one of them is removed.
pub proof fn lemma_players_remove(ps: Seq<PlayerObjectData>, i: int)
    requires
        unique_keys(views(ps), session_key()),
        0 <= i < ps.len(),
    ensures
        unique_keys(views(ps.remove(i)), session_key()),
        keyed_map(views(ps.remove(i)), session_key()) == keyed_map(views(ps), session_key()).remove(
            ps[i]@.key,
        ),
{
    assert(views(ps.remove(i)) =~= views(ps).remove(i));
    lemma_keyed_remove(views(ps), session_key(), i);
}

} // verus!
