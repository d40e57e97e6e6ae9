use av_mesh_node::addr::{parse_socket_address, SocketAddress};
use av_mesh_node::failover::{
    RelayDatagramObservation, RelayFailoverController, RelayFailoverListener,
    RelayIngressParentPath,
};
use av_mesh_node::forwarder::{
    FailoverForwardMode, MediaDatagramRole, RelayDownstreamForwarder, RelayForwardEndpoint,
    RelayForwardRole,
};
use av_mesh_node::histogram::{
    atomic_saturating_sub, duration_ms, duration_us, histogram_percentile_upper_bound_us,
    AtomicDurationHistogram, RelayAvailabilityObservation, RelayAvailabilityTelemetry,
    RelayPublicationClock, EDGE_RESPONSE_DURATION_BUCKETS_US,
};
use av_mesh_node::ingest::{
    commit_relay_object, relay_availability_observation, relay_ingest_step,
    relay_publication_clock, udp_fec_step, RelayCommitError, RelayIngestOutcome, RelayIngestStep,
    UdpFecOutcome, UdpFecStep,
};
use av_mesh_node::relay_snapshot::{
    RelayFailoverControllerState, RelayRuntime, RelaySessionIngressSnapshot,
};
use av_mesh_node::warm::{
    ObjectKey, WarmSourceReplayBuffer, RELAY_WARM_SOURCE_REPLAY_MAX_OBJECTS_PER_CHILD,
};
use media_object::MediaObject;

fn address(text: &str) -> SocketAddress {
    parse_socket_address(text).unwrap()
}

fn key(object: u64) -> ObjectKey {
    ObjectKey {
        tenant: "default".into(),
        stream: "1".into(),
        track: "muxed-fmp4".into(),
        epoch: 1,
        group: 0,
        object,
        version: 1,
        payload_hash: object.to_be_bytes().to_vec(),
    }
}

fn warm_forwarder(target: SocketAddress) -> RelayDownstreamForwarder {
    RelayDownstreamForwarder::new(&vec![RelayForwardEndpoint {
        bind: address("127.0.0.1:24001"),
        target,
        role: RelayForwardRole::Repair,
    }])
    .unwrap()
}

#[test]
fn relay_availability_uses_published_clock_and_preserves_error_bound() {
    let payload = b"published-object";
    let key =
        media_object::ObjectKey::for_payload("default", "1", "muxed-fmp4", 0, 0, 1, 1, payload)
            .unwrap();
    let published = media_object::ClockTimestamp::new(
        1_000_000_000,
        "source-clock",
        media_object::ClockConfidence::estimated(5_000_000),
    )
    .unwrap();
    let object = MediaObject::builder(key, media_object::ObjectKind::Media, payload.to_vec())
        .with_stage_timestamp(media_object::StageTimestamp::new(
            media_object::Stage::Published,
            published,
        ))
        .build()
        .unwrap();

    assert_eq!(
        relay_availability_observation(&object, 1_250_000),
        Some(RelayAvailabilityObservation::Measured {
            duration_us: 250_000,
            clock_error_us: 5_000,
        })
    );
    let clock = relay_publication_clock(&object).expect("published media clock");
    assert_eq!(
        clock.observe(1_275_000),
        RelayAvailabilityObservation::Measured {
            duration_us: 275_000,
            clock_error_us: 5_000,
        }
    );

    let mut telemetry = RelayAvailabilityTelemetry::default();
    telemetry.record(RelayAvailabilityObservation::Measured {
        duration_us: 250_000,
        clock_error_us: 5_000,
    });
    telemetry.record(RelayAvailabilityObservation::UnusableClock);
    let mut snapshot = RelaySessionIngressSnapshot::default();
    telemetry.apply_to(&mut snapshot);
    assert_eq!(snapshot.publication_to_available_count, 1);
    assert_eq!(snapshot.publication_to_available_sum_us, 250_000);
    assert_eq!(snapshot.publication_to_available_max_us, 250_000);
    assert_eq!(snapshot.publication_clock_error_max_us, 5_000);
    assert_eq!(snapshot.publication_clock_unusable_objects, 1);
}

#[test]
fn relay_objects_are_committed_to_the_stream_of_their_key() {
    let object = |stream: &str| {
        let payload = b"relayed";
        let key = media_object::ObjectKey::for_payload(
            "default", stream, "muxed-fmp4", 0, 0, 1, 1, payload,
        )
        .unwrap();
        MediaObject::builder(key, media_object::ObjectKind::Media, payload.to_vec())
            .build()
            .unwrap()
    };
    let (stream_id, wire) = commit_relay_object(&object("77")).unwrap();
    assert_eq!(stream_id, 77);
    assert_eq!(media_object::decode(&wire).unwrap().payload(), b"relayed");
    assert!(matches!(
        commit_relay_object(&object("stage")),
        Err(RelayCommitError::StreamNotNumeric)
    ));
    assert_eq!(
        relay_availability_observation(&object("77"), 5),
        Some(RelayAvailabilityObservation::UnusableClock)
    );
}

#[test]
fn warm_source_replay_buffer_retains_only_latest_bounded_objects() {
    let mut buffer = WarmSourceReplayBuffer::new();
    let now_us = 1_000_000;
    let mut retired = 0;
    for sequence in 0..=RELAY_WARM_SOURCE_REPLAY_MAX_OBJECTS_PER_CHILD {
        let payload = sequence.to_be_bytes();
        let mutation = buffer.push(&key(sequence as u64), now_us + 1_000_000, &payload, now_us);
        retired += mutation.retired_datagrams;
    }

    assert_eq!(
        buffer.object_order.len(),
        RELAY_WARM_SOURCE_REPLAY_MAX_OBJECTS_PER_CHILD
    );
    assert_eq!(
        buffer.datagrams.len(),
        RELAY_WARM_SOURCE_REPLAY_MAX_OBJECTS_PER_CHILD
    );
    assert_eq!(retired, 1);
    let batch = buffer.take_live(now_us);
    assert_eq!(
        batch.datagrams.len(),
        RELAY_WARM_SOURCE_REPLAY_MAX_OBJECTS_PER_CHILD
    );
    assert_eq!(buffer.bytes, 0);
}

#[test]
fn warm_buffers_drop_what_has_expired_and_what_does_not_fit() {
    let mut buffer = WarmSourceReplayBuffer::new();
    assert_eq!(buffer.push(&key(1), 1_000, b"late", 1_000).added_datagrams, 0);
    assert_eq!(buffer.push(&key(1), 2_000, b"first", 1_000).added_datagrams, 1);
    let mutation = buffer.push(&key(2), 9_000, b"second", 2_000);
    assert_eq!(mutation.expired_datagrams, 1);
    assert_eq!(mutation.expired_bytes, 5);
    let big = vec![0u8; 3 * 1024 * 1024];
    buffer.push(&key(3), 9_000, &big, 2_000);
    let mutation = buffer.push(&key(4), 9_000, &big, 2_000);
    assert_eq!(mutation.evicted_datagrams, 2);
    assert_eq!(mutation.evicted_bytes, 6 + big.len());
    assert_eq!(buffer.bytes, big.len());
    let batch = buffer.take_live(9_000);
    assert!(batch.datagrams.is_empty());
    assert_eq!(batch.expired_datagrams, 1);
}

#[test]
fn forwarders_send_by_lane_and_count_what_they_keep() {
    let mut forwarder = RelayDownstreamForwarder::new(&vec![
        RelayForwardEndpoint {
            bind: address("127.0.0.1:1"),
            target: address("127.0.0.1:2"),
            role: RelayForwardRole::All,
        },
        RelayForwardEndpoint {
            bind: address("127.0.0.1:3"),
            target: address("127.0.0.1:4"),
            role: RelayForwardRole::Repair,
        },
        RelayForwardEndpoint {
            bind: address("127.0.0.1:5"),
            target: address("127.0.0.1:6"),
            role: RelayForwardRole::Source,
        },
    ])
    .unwrap();
    let source = forwarder.forward(b"source", MediaDatagramRole::Source, Some(&key(1)), Some(9), 1);
    assert_eq!(source, vec![0, 2]);
    let repair = forwarder.forward(b"repair", MediaDatagramRole::Repair, Some(&key(1)), Some(9), 1);
    assert_eq!(repair, vec![0, 1]);
    forwarder.record_forward_success(MediaDatagramRole::Source, 6, 300_000);
    forwarder.record_forward_error();
    let snapshot = forwarder.snapshot();
    assert_eq!(snapshot.downstream_children, 3);
    assert_eq!(snapshot.source_datagrams, 1);
    assert_eq!(snapshot.repair_datagrams, 0);
    assert_eq!(snapshot.bytes, 6);
    assert_eq!(snapshot.errors, 1);
    assert_eq!(snapshot.filtered_datagrams, 2);
    assert_eq!(snapshot.warm_source_buffered_datagrams, 1);
    assert_eq!(snapshot.warm_source_buffered_bytes, 6);
    assert_eq!(snapshot.duration_count, 1);
    assert_eq!(snapshot.duration_max_us, 300);
    assert_eq!(snapshot.duration_buckets[1], 0);
    assert_eq!(snapshot.duration_buckets[2], 1);
    assert!(RelayDownstreamForwarder::new(&Vec::new()).is_none());
    assert!(RelayForwardRole::All.permits(MediaDatagramRole::Repair));
    assert!(!RelayForwardRole::Source.permits(MediaDatagramRole::Repair));
}

#[test]
fn leased_failover_promotes_one_warm_child_and_expires_to_repair_only() {
    let child = address("127.0.0.1:25001");
    let peer = address("127.0.0.1:22501");
    let mut forwarder = warm_forwarder(child);
    let mut listener = RelayFailoverListener::new(peer, child, 7, 9);
    forwarder.register_failover_listener();

    let buffered_source = b"source-buffered-before-promotion";
    let sent = forwarder.forward(
        buffered_source,
        MediaDatagramRole::Source,
        Some(&key(1)),
        Some(2_000_000),
        1_000_000,
    );
    assert!(sent.is_empty());
    assert_eq!(forwarder.snapshot().warm_source_buffered_datagrams, 1);

    let command = relay_session::FailoverLeaseCommand::new(
        relay_session::TopologyGeneration::new(7).unwrap(),
        relay_session::SubscriptionId::new(9).unwrap(),
        11,
        1_000_000,
        75_000,
        relay_session::FailoverForwardMode::SourceAndRepair,
    )
    .unwrap();
    let wire = command.encode();
    let stranger = listener.receive(
        &mut forwarder, address("127.0.0.1:1"), &wire, 500, 1_000, 1_000_000,
    );
    assert!(stranger.is_empty());
    assert_eq!(forwarder.snapshot().failover_promoted_children, 0);
    let rejected_before = forwarder.snapshot().failover_commands_rejected;
    assert_eq!(rejected_before, 1);

    let replayed = listener.receive(&mut forwarder, peer, &wire, 500, 1_000, 1_000_000);
    assert_eq!(replayed, vec![buffered_source.to_vec()]);
    forwarder.record_replay_success(buffered_source.len(), 1_000);
    assert_eq!(forwarder.snapshot().failover_promoted_children, 1);

    let promoted = forwarder.forward(b"promoted-source", MediaDatagramRole::Source, None, None, 1);
    assert_eq!(promoted, vec![0]);

    assert!(!listener.expire(&mut forwarder, 500 + 74_999_999, 1_075));
    assert!(listener.expire(&mut forwarder, 500 + 75_000_000, 1_076));
    let snapshot = forwarder.snapshot();
    assert_eq!(snapshot.failover_promoted_children, 0);
    assert_eq!(snapshot.failover_lease_expirations, 1);
    assert_eq!(snapshot.failover_commands_received, 1);
    assert_eq!(snapshot.failover_promotions_applied, 1);
    assert_eq!(snapshot.failover_demotions_applied, 1);
    assert_eq!(snapshot.warm_source_buffered_datagrams, 0);
    assert_eq!(snapshot.warm_source_replayed_datagrams, 1);
    assert_eq!(
        snapshot.warm_source_replayed_bytes,
        buffered_source.len() as u64
    );
}

#[test]
fn failover_controller_detects_promotes_and_demotes_make_before_break() {
    const MS: u64 = 1_000_000;
    let base = 10_000 * MS;
    let mut controller = RelayFailoverController::new(7, 9, 100, 40, 250, 1_000, 1, 1);
    assert_eq!(
        controller.snapshot().state,
        RelayFailoverControllerState::Arming
    );
    let source = RelayDatagramObservation {
        role: MediaDatagramRole::Source,
        decoded: true,
    };
    let repair = RelayDatagramObservation {
        role: MediaDatagramRole::Repair,
        decoded: false,
    };
    controller.observe(RelayIngressParentPath::Primary, source, base);
    controller.observe(RelayIngressParentPath::Secondary, repair, base);
    controller.tick(base, 1, 1_000);
    assert_eq!(
        controller.snapshot().state,
        RelayFailoverControllerState::Healthy
    );

    let failed_at = base + 101 * MS;
    controller.observe(RelayIngressParentPath::Secondary, repair, failed_at);
    let command = controller.tick(failed_at, 2, 2_000).unwrap();
    let decoded = relay_session::FailoverLeaseCommand::decode(&command).unwrap();
    assert_eq!(decoded.generation.get(), 7);
    assert_eq!(
        decoded.mode,
        relay_session::FailoverForwardMode::SourceAndRepair
    );
    controller.record_send(Some(command.len()));
    assert_eq!(
        controller.snapshot().state,
        RelayFailoverControllerState::Promoted
    );
    assert_eq!(controller.snapshot().promotions, 1);
    assert!(controller.snapshot().last_detection_us >= 100_000);

    let recovery_started = failed_at + 10 * MS;
    controller.observe(RelayIngressParentPath::Primary, source, recovery_started);
    controller.tick(recovery_started, 3, 3_000);
    assert_eq!(
        controller.snapshot().state,
        RelayFailoverControllerState::Recovering
    );
    let recovered = recovery_started + 41 * MS;
    controller.observe(RelayIngressParentPath::Primary, source, recovered);
    controller.tick(recovered, 4, 4_000);
    assert_eq!(
        controller.snapshot().state,
        RelayFailoverControllerState::Healthy
    );
    assert_eq!(controller.snapshot().demotions, 1);
    assert_eq!(controller.snapshot().commands_sent, 1);
    controller.record_send(None);
    assert_eq!(controller.snapshot().command_send_errors, 1);
}

#[test]
fn promotion_waits_for_a_warm_secondary() {
    const MS: u64 = 1_000_000;
    let base = 10_000 * MS;
    let mut controller = RelayFailoverController::new(7, 9, 100, 40, 250, 1_000, 1, 1);
    let source = RelayDatagramObservation {
        role: MediaDatagramRole::Source,
        decoded: true,
    };
    controller.observe(RelayIngressParentPath::Primary, source, base);
    controller.tick(base + 101 * MS, 2, 2_000);
    let snapshot = controller.snapshot();
    assert_eq!(
        snapshot.state,
        RelayFailoverControllerState::SecondaryUnavailable
    );
    assert_eq!(snapshot.promotions, 0);
    assert_eq!(snapshot.secondary_unavailable_events, 1);
}

#[test]
fn forwarders_apply_modes_to_known_children_only() {
    let child = address("127.0.0.1:25001");
    let mut forwarder = warm_forwarder(child);
    let mode = FailoverForwardMode::SourceAndRepair;
    assert_eq!(
        forwarder.apply_failover_mode(address("127.0.0.1:1"), mode, false, 5),
        None
    );
    assert_eq!(forwarder.apply_failover_mode(child, mode, false, 5), Some(true));
    assert_eq!(forwarder.apply_failover_mode(child, mode, false, 6), Some(false));
    assert_eq!(forwarder.snapshot().failover_last_transition_unix_ms, 5);
    let mut runtime = RelayRuntime::new();
    runtime.update_relay_forward(forwarder.snapshot());
    let snapshot = runtime.relay_ingress_snapshot();
    assert_eq!(snapshot.failover_promoted_children, 1);
    assert_eq!(snapshot.downstream_children, 1);
    assert_eq!(snapshot.forward_snapshot().failover_promoted_children, 1);
}

#[test]
fn relay_outcomes_become_steps() {
    let role = MediaDatagramRole::Source;
    let of = |outcome: RelayIngestOutcome| relay_ingest_step(&outcome);
    assert_eq!(of(RelayIngestOutcome::Legacy), RelayIngestStep::PassOn);
    assert_eq!(of(RelayIngestOutcome::Rejected), RelayIngestStep::Dropped);
    assert_eq!(
        of(RelayIngestOutcome::Decoded { key: key(1), role, expires_at_us: 5 }),
        RelayIngestStep::Commit { role }
    );
    assert_eq!(
        of(RelayIngestOutcome::Buffered { key: key(1), role, expires_at_us: 5 }),
        RelayIngestStep::Seen(RelayDatagramObservation { role, decoded: false })
    );
    let step = |outcome: UdpFecOutcome| udp_fec_step(&outcome);
    assert_eq!(
        step(UdpFecOutcome::Decoded { stream_id: Some(7), payload: Vec::new() }),
        UdpFecStep::Commit { stream_id: 7 }
    );
    assert_eq!(
        step(UdpFecOutcome::Decoded { stream_id: None, payload: Vec::new() }),
        UdpFecStep::Assemble
    );
    assert_eq!(step(UdpFecOutcome::Duplicate), UdpFecStep::Nothing);
}

#[test]
fn relay_outcomes_are_forwarded_and_accounted_for() {
    let child = address("127.0.0.1:25001");
    let mut forwarder = warm_forwarder(child);
    let role = MediaDatagramRole::Source;
    let buffered = RelayIngestOutcome::Buffered { key: key(1), role, expires_at_us: 9_000 };
    assert!(forwarder.forward_outcome(b"wire", &buffered, 1_000).is_empty());
    assert_eq!(forwarder.snapshot().warm_source_buffered_bytes, 4);
    let repair = RelayIngestOutcome::Duplicate {
        key: key(1),
        role: MediaDatagramRole::Repair,
        expires_at_us: 9_000,
    };
    assert_eq!(forwarder.forward_outcome(b"wire", &repair, 1_000), vec![0]);
    assert!(forwarder.forward_outcome(b"wire", &RelayIngestOutcome::Rejected, 1_000).is_empty());
    assert_eq!(forwarder.snapshot().filtered_datagrams, 1);

    let mut runtime = RelayRuntime::new();
    let clock = Some(RelayPublicationClock::Measured {
        published_us: 1_000,
        clock_error_us: 10,
    });
    let seen = runtime.relay_object_committed(role, true, clock, 1_500);
    assert!(seen.decoded);
    let failed = runtime.relay_object_committed(role, false, clock, 1_500);
    assert!(!failed.decoded);
    runtime.record_relay_processing(2_000_000);
    let mut controller = RelayFailoverController::new(7, 9, 100, 40, 250, 1_000, 1, 1);
    controller.record_send(None);
    runtime.update_relay_failover_controller(controller.snapshot());
    let snapshot = runtime.relay_ingress_snapshot();
    assert_eq!(snapshot.publication_to_available_count, 1);
    assert_eq!(snapshot.publication_to_available_sum_us, 500);
    assert_eq!(snapshot.publication_clock_error_max_us, 10);
    assert_eq!(snapshot.processing_duration_max_us, 2_000);
    assert_eq!(snapshot.failover_command_send_errors, 1);
    assert_eq!(
        snapshot.failover_controller_state,
        RelayFailoverControllerState::Arming
    );
}

#[test]
fn histograms_count_into_cumulative_buckets() {
    let mut histogram = AtomicDurationHistogram::default();
    assert_eq!(histogram.record(300_999), 300);
    histogram.record_us(2_000_000);
    assert_eq!(histogram.count, 2);
    assert_eq!(histogram.sum_us, 2_000_300);
    assert_eq!(histogram.max_us, 2_000_000);
    assert_eq!(histogram.buckets[..3], [0, 0, 1]);
    assert_eq!(histogram.buckets[12], 1);
    assert_eq!(
        histogram_percentile_upper_bound_us(2, &histogram.buckets, 50, histogram.max_us),
        Some(EDGE_RESPONSE_DURATION_BUCKETS_US[2])
    );
    assert_eq!(
        histogram_percentile_upper_bound_us(2, &histogram.buckets, 95, histogram.max_us),
        Some(2_000_000)
    );
    assert_eq!(histogram_percentile_upper_bound_us(0, &histogram.buckets, 95, 0), None);
    assert_eq!(duration_us(u128::MAX), u64::MAX);
    assert_eq!(duration_us(1_999), 1);
    assert_eq!(duration_ms(1_999_999), 1);
    let mut value = 3;
    atomic_saturating_sub(&mut value, 5);
    assert_eq!(value, 0);
    let mut value = 5;
    atomic_saturating_sub(&mut value, 3);
    assert_eq!(value, 2);
}
