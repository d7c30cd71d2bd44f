//! Client runtime for a pool of remote audio workers reached over a message bus.
//!
//! Many sessions, one per guild, issue commands to the worker pool through one
//! shared outbound queue. A single bus processor publishes those commands and
//! routes the replies back to the mailbox of the session that asked for them.
//! Job-expiry and worker-shutdown events evict sessions from the registry.
//!
//! The library holds the state and makes the decisions. The bus connection,
//! the threads and the pauses between polls belong to the caller, which hands
//! the library plain values and carries out what it returns.

pub mod config;
pub mod errors;
pub mod helpers;
pub mod ids;
pub mod keyed;
pub mod laws;
pub mod messages;
pub mod model;
pub mod runtime;

pub use config::{
    CharcoalConfig, SASLConfig, SSLConfig, configure_kafka_ssl, consumer_config, producer_config,
};
pub use errors::{
    ActionError, ChannelManagerError, CreateJobError, PlayerActionError,
    RegisterEventHandlerError, TrackActionError,
};
pub use helpers::{get_unix_timestamp, unix_millis};
pub use ids::{REQUEST_ID_LEN, new_random_id};
pub use messages::{
    Command, ErrorReport, Inbound, Metadata, OutboundCommand, ReplyKind, WorkerAction,
};
pub use model::{RouteOutcome, MAILBOX_CAPACITY, OUTBOUND_CAPACITY, VOLUME_SCALE};
pub use runtime::{
    correlated, Assignment, AwaitAction, Charcoal, PendingReply, PlayerObjectData,
    ProcessorStep, WaitOutcome, WaitPoll,
};
