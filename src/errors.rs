//! The errors that actions on a session report to their caller.
use vstd::prelude::*;

verus! {

/// Why an action on a session did not go through.
#[derive(Clone, Copy, PartialEq, Eq, Structural, Debug)]
pub enum ActionError {
    /// The outbound queue accepts no more commands.
    TransportSendError,
    /// The awaited reply did not arrive before the deadline.
    CorrelationTimeout,
    /// The registry holds no session for the key.
    SessionNotFound,
    /// The session has no job and worker assigned yet.
    SessionNotReady,
    /// The session that a wait was on has left the registry.
    MailboxClosed,
    /// A volume outside full scale.
    VolumeOutOfRange,
    /// A job for the session has been asked for and its assignment is still
    /// awaited; joining again would ask for a second job.
    JobCreationPending,
}

/// Errors of joining a channel, which may create a job first.
pub type CreateJobError = ActionError;

/// Errors of leaving a channel.
pub type ChannelManagerError = ActionError;

/// Errors of starting playback.
pub type PlayerActionError = ActionError;

/// Errors of the playback controls and of the metadata request.
pub type TrackActionError = ActionError;

/// Why an event handler could not be registered.
#[derive(Clone, Copy, PartialEq, Eq, Structural, Debug)]
pub enum RegisterEventHandlerError {
    /// The registry holds no session for the key.
    FailedToGetPlayerInstance,
}

} // verus!
