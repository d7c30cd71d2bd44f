//! The values that travel over the bus: inbound envelopes from the worker pool
//! and outbound commands to it, each with its mathematical view.
use vstd::prelude::*;

verus! {

/// Playback state reported by a worker for one job.
#[derive(Debug)]
pub struct Metadata {
    pub job_id: String,
    /// Length of the track, in seconds.
    pub duration: Option<u64>,
    /// Current position in the track, in seconds.
    pub position: Option<u64>,
    pub sample_rate: Option<u32>,
}

/// The view of [`Metadata`].
pub struct MetadataView {
    pub job_id: Seq<char>,
    pub duration: Option<u64>,
    pub position: Option<u64>,
    pub sample_rate: Option<u32>,
}

impl View for Metadata {
    type V = MetadataView;

    open spec fn view(&self) -> MetadataView {
        MetadataView {
            job_id: self.job_id@,
            duration: self.duration,
            position: self.position,
            sample_rate: self.sample_rate,
        }
    }
}

/// A failure reported by the worker pool for one job or request.
#[derive(Debug)]
pub struct ErrorReport {
    pub error: String,
    pub request_id: String,
    pub job_id: String,
}

/// The view of [`ErrorReport`].
pub struct ErrorReportView {
    pub error: Seq<char>,
    pub request_id: Seq<char>,
    pub job_id: Seq<char>,
}

impl View for ErrorReport {
    type V = ErrorReportView;

    open spec fn view(&self) -> ErrorReportView {
        ErrorReportView { error: self.error@, request_id: self.request_id@, job_id: self.job_id@ }
    }
}

/// An envelope received from the bus, already decoded.
#[derive(Debug)]
pub enum Inbound {
    /// The worker pool reports a failure for the session `guild_id`.
    RemoteError { guild_id: String, report: ErrorReport },
    /// A job was created for the session `guild_id` and runs on `worker_id`.
    JobAssigned { guild_id: String, job_id: String, worker_id: String },
    /// Reply to a metadata request of the session `guild_id`.
    MetadataResult { guild_id: String, metadata: Metadata },
    /// The job of the session `guild_id` has expired on the worker pool.
    JobExpired { guild_id: String, job_id: String },
    /// A worker shuts down; the sessions in `guild_ids` lose their jobs.
    WorkerShutdown { worker_id: String, guild_ids: Vec<String> },
    /// Publishing the command `request_id` of the session `guild_id` failed.
    /// `correlated` tells whether that command was waiting for a reply.
    /// Handed to the session by the bus processor, not received from the bus.
    PublishFailed { guild_id: String, request_id: String, correlated: bool },
}

/// The view of [`Inbound`]: strings as sequences of characters.
pub enum InboundView {
    RemoteError { key: Seq<char>, report: ErrorReportView },
    JobAssigned { key: Seq<char>, job_id: Seq<char>, worker_id: Seq<char> },
    MetadataResult { key: Seq<char>, metadata: MetadataView },
    JobExpired { key: Seq<char>, job_id: Seq<char> },
    WorkerShutdown { worker_id: Seq<char>, keys: Seq<Seq<char>> },
    PublishFailed { key: Seq<char>, request_id: Seq<char>, correlated: bool },
}

/// The views of a sequence of strings.
pub open spec fn string_views(v: Seq<String>) -> Seq<Seq<char>> {
    v.map_values(|s: String| s@)
}

impl View for Inbound {
    type V = InboundView;

    open spec fn view(&self) -> InboundView {
        match self {
            Inbound::RemoteError { guild_id, report } => InboundView::RemoteError {
                key: guild_id@,
                report: report@,
            },
            Inbound::JobAssigned { guild_id, job_id, worker_id } => InboundView::JobAssigned {
                key: guild_id@,
                job_id: job_id@,
                worker_id: worker_id@,
            },
            Inbound::MetadataResult { guild_id, metadata } => InboundView::MetadataResult {
                key: guild_id@,
                metadata: metadata@,
            },
            Inbound::JobExpired { guild_id, job_id } => InboundView::JobExpired {
                key: guild_id@,
                job_id: job_id@,
            },
            Inbound::WorkerShutdown { worker_id, guild_ids } => InboundView::WorkerShutdown {
                worker_id: worker_id@,
                keys: string_views(guild_ids@),
            },
            Inbound::PublishFailed { guild_id, request_id, correlated } =>
                InboundView::PublishFailed {
                key: guild_id@,
                request_id: request_id@,
                correlated: *correlated,
            },
        }
    }
}

/// The kinds of reply that a session can wait for.
#[derive(Clone, Copy, PartialEq, Eq, Structural, Debug)]
pub enum ReplyKind {
    JobAssignment,
    MetadataReply,
}

impl InboundView {
    /// The session key that a reply is routed by; fleet-wide events have none.
    pub open spec fn route_key(self) -> Option<Seq<char>> {
        match self {
            InboundView::RemoteError { key, .. } => Some(key),
            InboundView::JobAssigned { key, .. } => Some(key),
            InboundView::MetadataResult { key, .. } => Some(key),
            InboundView::PublishFailed { key, .. } => Some(key),
            _ => None,
        }
    }

    /// A job-expiry or worker-shutdown event, meant for the expiry watcher.
    pub open spec fn is_fleet_event(self) -> bool {
        self is JobExpired || self is WorkerShutdown
    }

    /// An envelope that the event handler of a session is told about.
    pub open spec fn is_notification(self) -> bool {
        self is RemoteError || self is MetadataResult || self is PublishFailed
    }

    /// The failure to publish a command that was waiting for a reply.
    pub open spec fn is_correlated_failure(self) -> bool {
        match self {
            InboundView::PublishFailed { correlated, .. } => correlated,
            _ => false,
        }
    }

    /// The envelope ends a wait for a reply of kind `kind`: it is that reply,
    /// or the failure to publish the request.
    pub open spec fn answers(self, kind: ReplyKind) -> bool {
        self.is_correlated_failure() || match kind {
            ReplyKind::JobAssignment => self is JobAssigned,
            ReplyKind::MetadataReply => self is MetadataResult,
        }
    }

    /// The session keys that a fleet-wide event evicts.
    pub open spec fn evicted_keys(self) -> Seq<Seq<char>> {
        match self {
            InboundView::JobExpired { key, .. } => seq![key],
            InboundView::WorkerShutdown { keys, .. } => keys,
            _ => Seq::empty(),
        }
    }
}

/// The envelope is the reply of kind `kind`.
pub fn answers(e: &Inbound, kind: ReplyKind) -> (r: bool)
    ensures
        r == e@.answers(kind),
{
    if let Inbound::PublishFailed { correlated, .. } = e {
        return *correlated;
    }
    match kind {
        ReplyKind::JobAssignment => matches!(e, Inbound::JobAssigned { .. }),
        ReplyKind::MetadataReply => matches!(e, Inbound::MetadataResult { .. }),
    }
}

/// An envelope that the event handler of a session is told about.
pub fn is_notification(e: &Inbound) -> (r: bool)
    ensures
        r == e@.is_notification(),
{
    matches!(
        e,
        Inbound::RemoteError { .. } | Inbound::MetadataResult { .. } | Inbound::PublishFailed { .. }
    )
}

/// What a worker is asked to do for a job.
#[derive(Debug)]
pub enum WorkerAction {
    JoinChannel { voice_channel_id: String },
    LeaveChannel,
    PlayDirectLink { url: String },
    PlayFromYoutube { url: String },
    PausePlayback,
    ResumePlayback,
    /// Volume in millionths of full scale, within `0..=VOLUME_SCALE`.
    SetPlaybackVolume { volume: u32 },
    /// Position in milliseconds from the start of the track.
    SeekToPosition { position_ms: u64 },
    LoopForever,
    LoopXTimes { times: usize },
    ForceStopLoop,
    GetMetaData,
}

/// The view of [`WorkerAction`].
pub enum WorkerActionView {
    JoinChannel { voice_channel_id: Seq<char> },
    LeaveChannel,
    PlayDirectLink { url: Seq<char> },
    PlayFromYoutube { url: Seq<char> },
    PausePlayback,
    ResumePlayback,
    SetPlaybackVolume { volume: u32 },
    SeekToPosition { position_ms: u64 },
    LoopForever,
    LoopXTimes { times: usize },
    ForceStopLoop,
    GetMetaData,
}

impl View for WorkerAction {
    type V = WorkerActionView;

    open spec fn view(&self) -> WorkerActionView {
        match self {
            WorkerAction::JoinChannel { voice_channel_id } => WorkerActionView::JoinChannel {
                voice_channel_id: voice_channel_id@,
            },
            WorkerAction::LeaveChannel => WorkerActionView::LeaveChannel,
            WorkerAction::PlayDirectLink { url } => WorkerActionView::PlayDirectLink { url: url@ },
            WorkerAction::PlayFromYoutube { url } => WorkerActionView::PlayFromYoutube {
                url: url@,
            },
            WorkerAction::PausePlayback => WorkerActionView::PausePlayback,
            WorkerAction::ResumePlayback => WorkerActionView::ResumePlayback,
            WorkerAction::SetPlaybackVolume { volume } => WorkerActionView::SetPlaybackVolume {
                volume: *volume,
            },
            WorkerAction::SeekToPosition { position_ms } => WorkerActionView::SeekToPosition {
                position_ms: *position_ms,
            },
            WorkerAction::LoopForever => WorkerActionView::LoopForever,
            WorkerAction::LoopXTimes { times } => WorkerActionView::LoopXTimes { times: *times },
            WorkerAction::ForceStopLoop => WorkerActionView::ForceStopLoop,
            WorkerAction::GetMetaData => WorkerActionView::GetMetaData,
        }
    }
}

/// The payload of an outbound command.
#[derive(Debug)]
pub enum Command {
    /// Ask the worker pool to create a job for the session.
    QueueJob { request_id: String },
    /// Direct a worker that runs the session's job.
    Worker { job_id: String, worker_id: String, request_id: String, action: WorkerAction },
}

/// A command without its request identifier, which is random.
pub enum CommandView {
    QueueJob,
    Worker { job_id: Seq<char>, worker_id: Seq<char>, action: WorkerActionView },
}

impl View for Command {
    type V = CommandView;

    open spec fn view(&self) -> CommandView {
        match self {
            Command::QueueJob { .. } => CommandView::QueueJob,
            Command::Worker { job_id, worker_id, action, .. } => CommandView::Worker {
                job_id: job_id@,
                worker_id: worker_id@,
                action: action@,
            },
        }
    }
}

impl Command {
    /// The request identifier that the command carries.
    pub fn request_id(&self) -> (r: &String)
        ensures
            r@ == self.request_id_view(),
    {
        match self {
            Command::QueueJob { request_id } => request_id,
            Command::Worker { request_id, .. } => request_id,
        }
    }

    /// The request identifier that the command carries.
    pub open spec fn request_id_view(&self) -> Seq<char> {
        match self {
            Command::QueueJob { request_id } => request_id@,
            Command::Worker { request_id, .. } => request_id@,
        }
    }
}

/// A command on its way to the bus, with the session it belongs to and, where
/// a reply is expected, the mailbox that the reply is routed to.
#[derive(Debug)]
pub struct OutboundCommand {
    pub command: Command,
    pub guild_id: String,
    pub reply_route: Option<u64>,
}

/// The view of [`OutboundCommand`].
pub struct OutboundView {
    pub command: CommandView,
    pub key: Seq<char>,
    pub reply_route: Option<u64>,
}

impl View for OutboundCommand {
    type V = OutboundView;

    open spec fn view(&self) -> OutboundView {
        OutboundView { command: self.command@, key: self.guild_id@, reply_route: self.reply_route }
    }
}

/// The views of a sequence of values.
pub open spec fn views<T: View>(s: Seq<T>) -> Seq<T::V> {
    s.map_values(|x: T| x@)
}

} // verus!
