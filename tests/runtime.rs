use charcoal::{
    correlated, ActionError, AwaitAction, Charcoal, Command, ErrorReport, Inbound, Metadata,
    OutboundCommand, PendingReply, RegisterEventHandlerError, ReplyKind, RouteOutcome,
    WaitOutcome, WorkerAction, MAILBOX_CAPACITY, OUTBOUND_CAPACITY, REQUEST_ID_LEN, VOLUME_SCALE,
};

fn s(text: &str) -> String {
    text.to_string()
}

fn assigned(guild: &str, job: &str, worker: &str) -> Inbound {
    Inbound::JobAssigned { guild_id: s(guild), job_id: s(job), worker_id: s(worker) }
}

fn metadata_reply(guild: &str, job: &str) -> Inbound {
    Inbound::MetadataResult {
        guild_id: s(guild),
        metadata: Metadata {
            job_id: s(job),
            duration: Some(180),
            position: Some(42),
            sample_rate: Some(48000),
        },
    }
}

fn remote_error(guild: &str, text: &str) -> Inbound {
    Inbound::RemoteError {
        guild_id: s(guild),
        report: ErrorReport { error: s(text), request_id: s("r1"), job_id: s("j1") },
    }
}

/// A runtime with a session for `guild` that holds the job `job` on `worker`.
fn with_assigned_session(guild: &str, job: &str, worker: &str) -> Charcoal {
    let mut c = Charcoal::new();
    let key = s(guild);
    c.get_or_create(&key).unwrap();
    let pending = c.join_channel(&key, s("chan0")).unwrap().unwrap();
    c.drain_outbound(usize::MAX);
    assert_eq!(c.parse_message(assigned(guild, job, worker)), RouteOutcome::Delivered);
    let wait = AwaitAction::new(pending, 0, 3000);
    let poll = c.wait_step(&wait, 10);
    assert!(matches!(poll.outcome, WaitOutcome::Matched(_)));
    c.complete_join(&key, s("chan0"), s(job), s(worker)).unwrap();
    c.drain_outbound(usize::MAX);
    c
}

fn is_queue_job(c: &OutboundCommand) -> bool {
    matches!(c.command, Command::QueueJob { .. })
}

fn is_join(c: &OutboundCommand, job: &str, worker: &str, chan: &str) -> bool {
    match &c.command {
        Command::Worker { job_id, worker_id, action: WorkerAction::JoinChannel { voice_channel_id }, .. } => {
            job_id == job && worker_id == worker && voice_channel_id == chan
        }
        _ => false,
    }
}

#[test]
fn get_or_create_is_idempotent() {
    let mut c = Charcoal::new();
    let key = s("g1");
    let first = c.get_or_create(&key).unwrap();
    let second = c.get_or_create(&key).unwrap();
    assert_eq!(first, second);
    let other = c.get_or_create(&s("g2")).unwrap();
    assert_ne!(first, other);
    let p = c.get(&key).unwrap();
    assert_eq!(p.guild_id(), "g1");
    assert!(p.assignment().is_none());
    assert_eq!(p.mailbox_id(), first);
    assert!(c.get(&s("g3")).is_none());
}

#[test]
fn join_without_job_creates_job_then_joins() {
    let mut c = Charcoal::new();
    let key = s("g1");
    let mailbox = c.get_or_create(&key).unwrap();
    let pending = c.join_channel(&key, s("chan1")).unwrap().unwrap();
    assert_eq!(pending.kind, ReplyKind::JobAssignment);
    assert_eq!(pending.mailbox_id, mailbox);
    assert_eq!(c.get(&key).unwrap().awaiting(), Some(ReplyKind::JobAssignment));
    let first = c.drain_outbound(usize::MAX);
    assert_eq!(first.len(), 1);
    assert!(is_queue_job(&first[0]));
    assert_eq!(first[0].guild_id, "g1");
    assert_eq!(first[0].reply_route, Some(mailbox));
    assert_eq!(c.parse_message(assigned("g1", "j1", "w1")), RouteOutcome::Delivered);
    let wait = AwaitAction::new(pending, 0, 10_000);
    let poll = c.wait_step(&wait, 150);
    let reply = correlated(poll.outcome).unwrap().unwrap();
    let (job, worker) = match reply {
        Inbound::JobAssigned { job_id, worker_id, .. } => (job_id, worker_id),
        _ => panic!("expected a job assignment"),
    };
    c.complete_join(&key, s("chan1"), job, worker).unwrap();
    let second = c.drain_outbound(usize::MAX);
    assert_eq!(second.len(), 1);
    assert!(is_join(&second[0], "j1", "w1", "chan1"));
    assert_eq!(second[0].reply_route, None);
    let a = c.get(&key).unwrap().assignment().as_ref().unwrap();
    assert_eq!(a.job_id, "j1");
    assert_eq!(a.worker_id, "w1");
}

#[test]
fn join_with_job_only_joins() {
    let mut c = with_assigned_session("g1", "j1", "w1");
    let key = s("g1");
    assert!(c.join_channel(&key, s("chan2")).unwrap().is_none());
    let out = c.drain_outbound(usize::MAX);
    assert_eq!(out.len(), 1);
    assert!(is_join(&out[0], "j1", "w1", "chan2"));
    assert!(out.iter().all(|cmd| !is_queue_job(cmd)));
}

#[test]
fn join_unknown_session_is_not_found() {
    let mut c = Charcoal::new();
    assert_eq!(c.join_channel(&s("nope"), s("chan")).unwrap_err(), ActionError::SessionNotFound);
    assert_eq!(c.outbound_len(), 0);
}

#[test]
fn metadata_without_reply_times_out() {
    let mut c = with_assigned_session("g1", "j1", "w1");
    let key = s("g1");
    let pending = c.get_metadata(&key).unwrap();
    assert_eq!(pending.kind, ReplyKind::MetadataReply);
    let out = c.drain_outbound(usize::MAX);
    assert_eq!(out.len(), 1);
    assert!(matches!(out[0].command, Command::Worker { action: WorkerAction::GetMetaData, .. }));
    assert!(out[0].reply_route.is_some());
    let wait = AwaitAction::new(pending, 1_000, 500);
    let early = c.wait_step(&wait, 1_200);
    assert!(matches!(correlated(early.outcome), Ok(None)));
    let at_deadline = c.wait_step(&wait, 1_500);
    assert!(matches!(at_deadline.outcome, WaitOutcome::Pending));
    let late = c.wait_step(&wait, 1_501);
    assert_eq!(correlated(late.outcome).unwrap_err(), ActionError::CorrelationTimeout);
    assert_eq!(c.get(&key).unwrap().awaiting(), None);
}

#[test]
fn metadata_reply_is_returned() {
    let mut c = with_assigned_session("g1", "j1", "w1");
    let key = s("g1");
    let pending = c.get_metadata(&key).unwrap();
    c.drain_outbound(usize::MAX);
    assert_eq!(c.parse_message(remote_error("g1", "boom")), RouteOutcome::Delivered);
    assert_eq!(c.parse_message(metadata_reply("g1", "j1")), RouteOutcome::Delivered);
    let wait = AwaitAction::new(pending, 0, 3000);
    let poll = c.wait_step(&wait, 100);
    assert_eq!(poll.notifications.len(), 1);
    assert!(matches!(poll.notifications[0], Inbound::RemoteError { .. }));
    match poll.outcome {
        WaitOutcome::Matched(Inbound::MetadataResult { metadata, .. }) => {
            assert_eq!(metadata.position, Some(42));
            assert_eq!(metadata.duration, Some(180));
        }
        _ => panic!("expected the metadata reply"),
    }
    assert_eq!(c.get(&key).unwrap().mailbox().len(), 0);
}

#[test]
fn replies_reach_only_their_own_session() {
    let mut c = Charcoal::new();
    let a = s("A");
    let b = s("B");
    c.get_or_create(&a).unwrap();
    c.get_or_create(&b).unwrap();
    let pa = c.join_channel(&a, s("ca")).unwrap().unwrap();
    let pb = c.join_channel(&b, s("cb")).unwrap().unwrap();
    assert_eq!(c.drain_outbound(usize::MAX).len(), 2);
    assert_eq!(c.parse_message(assigned("A", "ja", "wa")), RouteOutcome::Delivered);
    assert_eq!(c.get(&a).unwrap().mailbox().len(), 1);
    assert_eq!(c.get(&b).unwrap().mailbox().len(), 0);
    let wb = AwaitAction::new(pb, 0, 3000);
    assert!(matches!(c.wait_step(&wb, 100).outcome, WaitOutcome::Pending));
    let wa = AwaitAction::new(pa, 0, 3000);
    match c.wait_step(&wa, 100).outcome {
        WaitOutcome::Matched(Inbound::JobAssigned { guild_id, job_id, .. }) => {
            assert_eq!(guild_id, "A");
            assert_eq!(job_id, "ja");
        }
        _ => panic!("expected A's assignment"),
    }
}

#[test]
fn job_expiry_evicts_and_recreates_fresh() {
    let mut c = with_assigned_session("K", "j1", "w1");
    let key = s("K");
    let old_mailbox = c.get(&key).unwrap().mailbox_id();
    let expired = Inbound::JobExpired { guild_id: s("K"), job_id: s("j1") };
    assert_eq!(c.parse_message(expired), RouteOutcome::FleetEvent);
    assert_eq!(c.pending_fleet_events(), 1);
    assert_eq!(c.apply_fleet_events(), 1);
    assert!(c.get(&key).is_none());
    let new_mailbox = c.get_or_create(&key).unwrap();
    assert_ne!(new_mailbox, old_mailbox);
    let p = c.get(&key).unwrap();
    assert!(p.assignment().is_none());
    assert_eq!(p.mailbox().len(), 0);
    assert!(c.join_channel(&key, s("chan")).unwrap().is_some());
    let out = c.drain_outbound(usize::MAX);
    assert!(is_queue_job(&out[0]));
}

#[test]
fn worker_shutdown_evicts_every_named_session() {
    let mut c = Charcoal::new();
    for g in ["a", "b", "c"] {
        c.get_or_create(&s(g)).unwrap();
    }
    let shutdown = Inbound::WorkerShutdown { worker_id: s("w1"), guild_ids: vec![s("a"), s("c"), s("zz")] };
    assert_eq!(c.parse_message(shutdown), RouteOutcome::FleetEvent);
    c.apply_fleet_events();
    assert!(c.get(&s("a")).is_none());
    assert!(c.get(&s("b")).is_some());
    assert!(c.get(&s("c")).is_none());
    assert_eq!(c.pending_fleet_events(), 0);
}

#[test]
fn late_reply_after_eviction_is_dropped() {
    let mut c = Charcoal::new();
    let key = s("g1");
    c.get_or_create(&key).unwrap();
    let pending = c.join_channel(&key, s("chan")).unwrap().unwrap();
    c.drain_outbound(usize::MAX);
    c.parse_message(Inbound::JobExpired { guild_id: s("g1"), job_id: s("j0") });
    c.apply_fleet_events();
    assert_eq!(c.parse_message(assigned("g1", "j1", "w1")), RouteOutcome::MailboxClosed);
    let wait = AwaitAction::new(pending, 0, 3000);
    let outcome = c.wait_step(&wait, 10).outcome;
    assert_eq!(correlated(outcome).unwrap_err(), ActionError::MailboxClosed);
}

#[test]
fn reply_without_route_is_a_routing_miss() {
    let mut c = Charcoal::new();
    c.get_or_create(&s("g1")).unwrap();
    assert_eq!(c.parse_message(assigned("g1", "j1", "w1")), RouteOutcome::RoutingMiss);
    assert_eq!(c.get(&s("g1")).unwrap().mailbox().len(), 0);
}

#[test]
fn full_mailbox_drops_the_reply() {
    let mut c = Charcoal::new();
    let key = s("g1");
    c.get_or_create(&key).unwrap();
    c.join_channel(&key, s("chan")).unwrap();
    c.drain_outbound(usize::MAX);
    for _ in 0..MAILBOX_CAPACITY {
        assert_eq!(c.parse_message(remote_error("g1", "e")), RouteOutcome::Delivered);
    }
    assert_eq!(c.parse_message(remote_error("g1", "e")), RouteOutcome::MailboxFull);
    assert_eq!(c.get(&key).unwrap().mailbox().len(), MAILBOX_CAPACITY);
}

#[test]
fn set_volume_checks_range_before_enqueueing() {
    let mut c = with_assigned_session("g1", "j1", "w1");
    let key = s("g1");
    let scale = VOLUME_SCALE as f32;
    let too_loud = (1.5f32 * scale).round() as i64;
    let negative = (-0.1f32 * scale).round() as i64;
    assert_eq!(c.set_playback_volume(too_loud, &key).unwrap_err(), ActionError::VolumeOutOfRange);
    assert_eq!(c.set_playback_volume(negative, &key).unwrap_err(), ActionError::VolumeOutOfRange);
    assert_eq!(c.drain_outbound(usize::MAX).len(), 0);
    assert!(c.set_playback_volume((0.0f32 * scale) as i64, &key).is_ok());
    assert!(c.set_playback_volume((1.0f32 * scale) as i64, &key).is_ok());
    let out = c.drain_outbound(usize::MAX);
    assert_eq!(out.len(), 2);
    assert!(matches!(out[0].command, Command::Worker { action: WorkerAction::SetPlaybackVolume { volume: 0 }, .. }));
    assert!(matches!(out[1].command, Command::Worker { action: WorkerAction::SetPlaybackVolume { volume: 1_000_000 }, .. }));
    assert_eq!(
        c.set_playback_volume(-1, &s("unknown")).unwrap_err(),
        ActionError::VolumeOutOfRange
    );
}

#[test]
fn end_to_end_join_with_stub_transport() {
    let mut c = Charcoal::new();
    let key = s("g1");
    c.get_or_create(&key).unwrap();
    let pending = c.join_channel(&key, s("chan1")).unwrap().unwrap();
    let wait = AwaitAction::new(pending, 0, 3_000);
    // The stub answers 50 ms after it sees the job-creation publish for g1.
    let mut reply_due: Option<u128> = None;
    let mut now: u128 = 0;
    let mut assignment: Option<(String, String)> = None;
    while now <= 3_000 && assignment.is_none() {
        let inbound = match reply_due {
            Some(t) if now >= t => {
                reply_due = None;
                Some(assigned("g1", "j1", "w1"))
            }
            _ => None,
        };
        let step = c.processor_step(inbound, usize::MAX);
        for cmd in &step.publish {
            if is_queue_job(cmd) && cmd.guild_id == "g1" {
                reply_due = Some(now + 50);
            }
        }
        if now % 150 == 0 {
            let poll = c.wait_step(&wait, now);
            match correlated(poll.outcome).unwrap() {
                Some(Inbound::JobAssigned { job_id, worker_id, .. }) => {
                    assignment = Some((job_id, worker_id));
                }
                Some(_) => panic!("unexpected reply"),
                None => {}
            }
        }
        now += 25;
    }
    let (job, worker) = assignment.unwrap();
    c.complete_join(&key, s("chan1"), job, worker).unwrap();
    let a = c.get(&key).unwrap().assignment().as_ref().unwrap();
    assert_eq!(a.job_id, "j1");
    assert_eq!(a.worker_id, "w1");
    let step = c.processor_step(None, usize::MAX);
    assert_eq!(step.publish.len(), 1);
    assert!(is_join(&step.publish[0], "j1", "w1", "chan1"));
}

#[test]
fn controls_need_an_assigned_job() {
    let mut c = Charcoal::new();
    let key = s("g1");
    c.get_or_create(&key).unwrap();
    assert_eq!(c.pause_playback(&key).unwrap_err(), ActionError::SessionNotReady);
    assert_eq!(c.exit_channel(&key).unwrap_err(), ActionError::SessionNotReady);
    assert_eq!(c.get_metadata(&key).unwrap_err(), ActionError::SessionNotReady);
    assert_eq!(c.resume_playback(&s("x")).unwrap_err(), ActionError::SessionNotFound);
    assert_eq!(c.outbound_len(), 0);
}

#[test]
fn controls_carry_job_and_worker() {
    let mut c = with_assigned_session("g1", "j1", "w1");
    let key = s("g1");
    c.play_from_http(&key, s("http://a/b.mp3")).unwrap();
    c.play_from_youtube(&key, s("never gonna")).unwrap();
    c.pause_playback(&key).unwrap();
    c.resume_playback(&key).unwrap();
    c.seek_to_position(90_000, &key).unwrap();
    c.loop_indefinitely(&key).unwrap();
    c.loop_x_times(3, &key).unwrap();
    c.force_stop_loop(&key).unwrap();
    let out = c.drain_outbound(3);
    assert_eq!(out.len(), 3);
    assert_eq!(c.outbound_len(), 5);
    let rest = c.drain_outbound(usize::MAX);
    let all: Vec<&OutboundCommand> = out.iter().chain(rest.iter()).collect();
    assert_eq!(all.len(), 8);
    for cmd in &all {
        match &cmd.command {
            Command::Worker { job_id, worker_id, request_id, .. } => {
                assert_eq!(job_id, "j1");
                assert_eq!(worker_id, "w1");
                assert_eq!(request_id.chars().count(), REQUEST_ID_LEN);
            }
            _ => panic!("expected a worker command"),
        }
        assert_eq!(cmd.reply_route, None);
    }
    assert!(matches!(&all[0].command, Command::Worker { action: WorkerAction::PlayDirectLink { url }, .. } if url == "http://a/b.mp3"));
    assert!(matches!(&all[1].command, Command::Worker { action: WorkerAction::PlayFromYoutube { url }, .. } if url == "never gonna"));
    assert!(matches!(all[2].command, Command::Worker { action: WorkerAction::PausePlayback, .. }));
    assert!(matches!(all[3].command, Command::Worker { action: WorkerAction::ResumePlayback, .. }));
    assert!(matches!(all[4].command, Command::Worker { action: WorkerAction::SeekToPosition { position_ms: 90_000 }, .. }));
    assert!(matches!(all[5].command, Command::Worker { action: WorkerAction::LoopForever, .. }));
    assert!(matches!(all[6].command, Command::Worker { action: WorkerAction::LoopXTimes { times: 3 }, .. }));
    assert!(matches!(all[7].command, Command::Worker { action: WorkerAction::ForceStopLoop, .. }));
}

#[test]
fn leaving_sends_leave_and_removes_session() {
    let mut c = with_assigned_session("g1", "j1", "w1");
    let key = s("g1");
    c.exit_channel(&key).unwrap();
    assert!(c.get(&key).is_none());
    let out = c.drain_outbound(usize::MAX);
    assert_eq!(out.len(), 1);
    assert!(matches!(out[0].command, Command::Worker { action: WorkerAction::LeaveChannel, .. }));
}

#[test]
fn full_outbound_queue_refuses_commands() {
    let mut c = with_assigned_session("g1", "j1", "w1");
    let key = s("g1");
    for _ in 0..OUTBOUND_CAPACITY {
        c.pause_playback(&key).unwrap();
    }
    assert_eq!(c.pause_playback(&key).unwrap_err(), ActionError::TransportSendError);
    assert_eq!(c.outbound_len(), OUTBOUND_CAPACITY);
}

#[test]
fn event_handler_gets_notifications_outside_waits() {
    let mut c = with_assigned_session("g1", "j1", "w1");
    let key = s("g1");
    assert_eq!(
        c.register_event_handler(&s("other")).unwrap_err(),
        RegisterEventHandlerError::FailedToGetPlayerInstance
    );
    c.register_event_handler(&key).unwrap();
    assert!(c.get(&key).unwrap().has_event_handler());
    c.parse_message(remote_error("g1", "boom"));
    c.parse_message(assigned("g1", "j9", "w9"));
    c.parse_message(metadata_reply("g1", "j1"));
    let notes = c.take_notifications(&key);
    assert_eq!(notes.len(), 2);
    assert!(matches!(notes[0], Inbound::RemoteError { .. }));
    assert!(matches!(notes[1], Inbound::MetadataResult { .. }));
    assert_eq!(c.get(&key).unwrap().mailbox().len(), 0);
    let _pending: PendingReply = c.get_metadata(&key).unwrap();
    c.drain_outbound(usize::MAX);
    c.parse_message(remote_error("g1", "again"));
    assert_eq!(c.take_notifications(&key).len(), 0);
    assert_eq!(c.get(&key).unwrap().mailbox().len(), 1);
}

#[test]
fn clock_driven_wait_step_stays_pending_before_deadline() {
    let mut c = with_assigned_session("g1", "j1", "w1");
    let key = s("g1");
    let pending = c.get_metadata(&key).unwrap();
    c.drain_outbound(usize::MAX);
    let wait = AwaitAction::start(pending, 60_000);
    assert!(wait.started_ms > 0);
    assert!(matches!(c.boilerplate_parse_ipc(&wait).outcome, WaitOutcome::Pending));
}

#[test]
fn second_join_while_job_is_awaited_creates_no_job() {
    let mut c = Charcoal::new();
    let key = s("g1");
    c.get_or_create(&key).unwrap();
    let pending = c.join_channel(&key, s("chan1")).unwrap().unwrap();
    assert_eq!(c.outbound_len(), 1);
    assert_eq!(c.join_channel(&key, s("chan2")).unwrap_err(), ActionError::JobCreationPending);
    assert_eq!(c.outbound_len(), 1);
    let out = c.drain_outbound(usize::MAX);
    assert_eq!(out.iter().filter(|cmd| is_queue_job(cmd)).count(), 1);
    // Once the wait has timed out the session may ask for a job again.
    let wait = AwaitAction::new(pending, 0, 100);
    assert!(matches!(c.wait_step(&wait, 101).outcome, WaitOutcome::TimedOut));
    assert!(c.join_channel(&key, s("chan1")).unwrap().is_some());
    assert_eq!(c.outbound_len(), 1);
}

#[test]
fn failed_job_request_publish_ends_the_wait() {
    let mut c = Charcoal::new();
    let key = s("g1");
    c.get_or_create(&key).unwrap();
    let pending = c.join_channel(&key, s("chan1")).unwrap().unwrap();
    let out = c.drain_outbound(usize::MAX);
    assert_eq!(c.report_publish_failure(&out[0]), RouteOutcome::Delivered);
    let wait = AwaitAction::new(pending, 0, 3000);
    let poll = c.wait_step(&wait, 10);
    assert_eq!(correlated(poll.outcome).unwrap_err(), ActionError::TransportSendError);
    assert!(c.get(&key).unwrap().assignment().is_none());
    assert_eq!(c.get(&key).unwrap().awaiting(), None);
}

#[test]
fn failed_control_publish_reaches_the_event_handler() {
    let mut c = with_assigned_session("g1", "j1", "w1");
    let key = s("g1");
    c.register_event_handler(&key).unwrap();
    c.pause_playback(&key).unwrap();
    let out = c.drain_outbound(usize::MAX);
    let request = match &out[0].command {
        Command::Worker { request_id, .. } => request_id.clone(),
        _ => panic!("expected a worker command"),
    };
    assert_eq!(c.report_publish_failure(&out[0]), RouteOutcome::Delivered);
    let notes = c.take_notifications(&key);
    assert_eq!(notes.len(), 1);
    match &notes[0] {
        Inbound::PublishFailed { guild_id, request_id, correlated } => {
            assert_eq!(guild_id, "g1");
            assert_eq!(request_id, &request);
            assert!(!correlated);
        }
        _ => panic!("expected a publish failure"),
    }
}

#[test]
fn publish_failure_for_a_removed_session_is_dropped() {
    let mut c = with_assigned_session("g1", "j1", "w1");
    let key = s("g1");
    c.pause_playback(&key).unwrap();
    let out = c.drain_outbound(usize::MAX);
    c.remove(&key);
    assert_eq!(c.report_publish_failure(&out[0]), RouteOutcome::MailboxClosed);
}
