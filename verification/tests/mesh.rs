use av_mesh_node::alerts::{derive_mesh_activity, derive_mesh_alerts, CANONICAL_EPOCH_ACTIVATION_WARN_US};
use av_mesh_node::api::{
    replica_reason_text, MeshApiSnapshot, MeshFecRuntimeSnapshot, ReplicaPlacement, ReplicaReason,
};
use av_mesh_node::control::{
    nodes_of_region, selected_control_target_node_ids, ControlKind, ControlPlane, ControlRequest,
    NodePlace,
};
use av_mesh_node::edge::{EdgeLoad, EdgeResponse, EdgeServiceSnapshot};
use av_mesh_node::histogram::EDGE_RESPONSE_DURATION_BUCKETS_US;
use av_mesh_node::mesh::{
    storage_percent, AggregateMetrics, MeshNode, MeshSnapshot, OrchestrationStatus, PeerSnapshot,
    PrivateDiscoveryStatus, RelayNodeSessionSnapshot, TelemetryHealthSnapshot,
};
use av_mesh_node::metrics::{
    canonical_epoch_activation_delay_max_us, prometheus_label_value,
    push_prometheus_metric_header, render_mesh_prometheus_metrics, Fractions, StreamFractions,
};
use av_mesh_node::provision::{ProvisionExecutor, ProvisionStatus};
use av_mesh_node::relay_snapshot::{RelayFailoverControllerState, RelaySessionIngressSnapshot};
use av_mesh_node::replicas::{
    demand_signal, format_replica_request_status, known_active_stream_ids,
    plan_replicas_from_snapshots, request_planned_local_replica, DemandTracker,
};
use av_mesh_node::streams::{
    canonical_epoch_divergent_stream_count, stream_id_text, stream_stale_threshold_ms,
    StatsSnapshot, StreamTelemetry,
};
use av_mesh_node::telemetry::{TelemetryAggregator, TelemetryPeerMonitor};

const NOW: u64 = 1_784_102_400_000;

fn snapshot_of(
    node_id: &str,
    region: &str,
    continent: &str,
    peers: Vec<PeerSnapshot>,
    stream_id: u64,
) -> MeshSnapshot {
    MeshSnapshot {
        updated_unix_ms: NOW,
        node: MeshNode {
            node_id: node_id.into(),
            region: region.into(),
            continent: continent.into(),
            latitude_bits: 51.5f64.to_bits(),
            longitude_bits: (-0.1f64).to_bits(),
            total_storage_bytes: 1_000_000,
            used_storage_bytes: 100_000,
            egress_capacity_bps: 10_000_000_000,
            contributor_streams: 1,
            active_streams: 1,
            draining: false,
        },
        mesh_addr: Some(node_id.into()),
        edge_service: None,
        relay_session: RelaySessionIngressSnapshot::default(),
        peers,
        stream: StatsSnapshot {
            stream_id,
            stream_id_text: stream_id_text(stream_id),
            part_target_ms: 500,
            parts_per_segment: 2,
            window_parts: 6,
            datagrams_received: 10,
            bytes_received: 20_000,
            current_part_bytes: 0,
            latest_local_part: Some(1),
            latest_local_part_bytes: Some(1024),
            latest_local_part_duration_ms: Some(500),
            latest_mesh_part: Some(1),
            canonical_epoch: Some(1),
            canonical_epoch_activation_delay_us: Some(250_000),
            contiguous_object: Some(1),
            head_object: Some(1),
            gap_count: Some(0),
            mesh_peers: Vec::new(),
            latest_local_part_age_ms: Some(10),
            last_ingest_age_ms: Some(10),
        },
        streams: Vec::new(),
        recent_commands: Vec::new(),
    }
}

fn peer(addr: &str) -> PeerSnapshot {
    PeerSnapshot { addr: addr.into(), state: "discovered".into() }
}

fn stream_of(node_id: &str, epoch: u64, object: u64) -> StreamTelemetry {
    StreamTelemetry {
        node_id: node_id.into(),
        stream_id: 77,
        stream_id_text: stream_id_text(77),
        latest_local_part: Some(object),
        latest_local_part_bytes: Some(4_096),
        latest_local_part_duration_ms: Some(500),
        latest_local_part_age_ms: Some(250),
        latest_mesh_part: Some(object),
        canonical_epoch: Some(epoch),
        canonical_epoch_activation_delay_us: None,
        contiguous_object: Some(object),
        head_object: Some(object),
        gap_count: Some(0),
        bytes_received: 4_096,
        datagrams_received: 1,
        last_ingest_age_ms: Some(250),
        stale_threshold_ms: Some(5_000),
        mesh_lag_parts: None,
    }
}

fn idle_provision() -> ProvisionStatus {
    ProvisionStatus {
        enabled: false,
        backends: Vec::new(),
        timeout_ms: 0,
        backend_statuses: Vec::new(),
    }
}

fn orchestration() -> OrchestrationStatus {
    OrchestrationStatus {
        control_dispatch_ready: false,
        provision: idle_provision(),
        telemetry_peers: Vec::new(),
        private_discovery: PrivateDiscoveryStatus::unavailable(),
    }
}

fn no_telemetry() -> TelemetryHealthSnapshot {
    TelemetryHealthSnapshot {
        stale_after_ms: 0,
        fresh_remote_count: 0,
        stale_remote_count: 0,
        stale_nodes: Vec::new(),
    }
}

fn pair_of_nodes() -> AggregateMetrics {
    AggregateMetrics {
        node_count: 2,
        connection_count: 1,
        total_storage_bytes: 0,
        used_storage_bytes: 0,
        total_egress_capacity_bps: 0,
        contributor_streams: 0,
        active_streams: 0,
    }
}

fn view_of(aggregator: &mut TelemetryAggregator, local: MeshSnapshot) -> MeshApiSnapshot {
    let copy = local.copy();
    let (snapshots, telemetry) = aggregator.snapshots_with_local(local, NOW);
    MeshApiSnapshot::from_snapshots(
        copy,
        snapshots,
        telemetry,
        Vec::new(),
        orchestration(),
        NOW,
    )
}

fn has_alert(snapshot: &MeshApiSnapshot, code: &str) -> bool {
    snapshot.alerts.iter().any(|alert| alert.code == code)
}

#[test]
fn mesh_alerts_when_linode_provisioning_lacks_private_discovery() {
    let local_stream = snapshot_of("uk-local", "uk", "eu", Vec::new(), 1).stream;
    let provision = ProvisionStatus {
        enabled: true,
        backends: vec!["linode".into()],
        timeout_ms: 1_000,
        backend_statuses: Vec::new(),
    };
    let private_discovery = PrivateDiscoveryStatus {
        compiled: true,
        enabled: false,
        state: "available",
        broadcast_port: None,
        mesh_port: None,
        details: vec!["pass --private-subnet-discovery".into()],
    };
    let alerts = derive_mesh_alerts(
        &pair_of_nodes(),
        &Vec::new(),
        &Vec::new(),
        &Vec::new(),
        &local_stream,
        "uk-local",
        &Vec::new(),
        &Vec::new(),
        &Vec::new(),
        &no_telemetry(),
        &RelaySessionIngressSnapshot::default(),
        &provision,
        &Vec::new(),
        &private_discovery,
        NOW,
    );

    assert!(alerts.iter().any(|alert| {
        alert.code == "linode_private_discovery_inactive"
            && alert.node_id.as_deref() == Some("uk-local")
    }));
}

#[test]
fn mesh_alerts_when_measured_relay_processing_exceeds_interactive_limit() {
    let local_stream = snapshot_of("edge", "jp", "apac", Vec::new(), 1).stream;
    let processing_duration_buckets =
        std::array::from_fn(|index| if index < 4 { 94 } else { 100 });
    let relay_nodes = vec![RelayNodeSessionSnapshot {
        node_id: "relay-primary".into(),
        region: "eu-west".into(),
        relay_session: RelaySessionIngressSnapshot {
            processing_duration_count: 100,
            processing_duration_sum_us: 50_000,
            processing_duration_max_us: 2_500,
            processing_duration_buckets,
            ..RelaySessionIngressSnapshot::default()
        },
    }];

    let alerts = derive_mesh_alerts(
        &pair_of_nodes(),
        &Vec::new(),
        &Vec::new(),
        &Vec::new(),
        &local_stream,
        "edge",
        &Vec::new(),
        &relay_nodes,
        &Vec::new(),
        &no_telemetry(),
        &RelaySessionIngressSnapshot::default(),
        &idle_provision(),
        &Vec::new(),
        &PrivateDiscoveryStatus::unavailable(),
        NOW,
    );

    assert!(alerts.iter().any(|alert| {
        alert.code == "relay_processing_p95_exceeded"
            && alert.node_id.as_deref() == Some("relay-primary")
            && alert.count == 2_500
    }));
}

#[test]
fn private_discovery_status_reports_enabled_ports() {
    let status = PrivateDiscoveryStatus::from_args(true, 12_345, 9_101);

    assert!(status.compiled);
    assert!(status.enabled);
    assert_eq!(status.state, "listening");
    assert_eq!(status.broadcast_port, Some(12_345));
    assert_eq!(status.mesh_port, Some(9_101));
    assert!(status.details.iter().any(|detail| detail.contains("12345")));
    assert!(status.details.iter().any(|detail| detail.contains("9101")));
}

#[test]
fn telemetry_aggregator_resolves_peer_addresses_to_node_ids() {
    let mut aggregator = TelemetryAggregator::default();
    let mut local = snapshot_of("uk-1", "uk", "eu", vec![peer("10.0.0.2:9100")], 1);
    local.mesh_addr = Some("10.0.0.1:9100".into());
    let mut us = snapshot_of("us-1", "us-east", "na", vec![peer("10.0.0.1:9100")], 1);
    us.mesh_addr = Some("10.0.0.2:9100".into());
    aggregator.ingest_snapshot(us);

    let aggregate = view_of(&mut aggregator, local);
    let connection = aggregate
        .connections
        .iter()
        .find(|connection| connection.source_node_id == "uk-1")
        .expect("missing uk connection");

    assert_eq!(connection.target_addr, "10.0.0.2:9100");
    assert_eq!(connection.target_node_id.as_deref(), Some("us-1"));
    assert!(connection.private_target);
    assert_eq!(aggregate.topology.connection_count, 2);
    assert_eq!(aggregate.topology.resolved_peer_count, 2);
    assert_eq!(aggregate.topology.unresolved_peer_count, 0);
    assert_eq!(aggregate.topology.private_peer_count, 2);
    assert_eq!(aggregate.topology.public_peer_count, 0);
    assert_eq!(aggregate.aggregate.node_count, 2);
    assert_eq!(aggregate.aggregate.total_storage_bytes, 2_000_000);
    assert_eq!(aggregate.aggregate.connection_count, 2);
    assert_eq!(aggregate.relay_nodes[0].node_id, "uk-1");
    assert_eq!(aggregate.edge_services.len(), 2);
    assert_eq!(aggregate.edge_services[1].node_id, "us-1");
}

#[test]
fn repeated_links_are_shown_once() {
    let mut aggregator = TelemetryAggregator::default();
    let local = snapshot_of(
        "uk-1",
        "uk",
        "eu",
        vec![peer("z:1"), peer("a:1"), peer("z:1")],
        1,
    );
    let view = view_of(&mut aggregator, local);
    let targets: Vec<&str> = view
        .connections
        .iter()
        .map(|connection| connection.target_addr.as_str())
        .collect();
    assert_eq!(targets, vec!["a:1", "z:1"]);
    assert_eq!(view.topology.unresolved_peer_count, 2);
}

#[test]
fn stale_telemetry_is_pruned_from_api_and_control_targets() {
    let mut telemetry = TelemetryAggregator::new(1_000);
    let mut stale = snapshot_of("jp-edge-old", "jp-east", "apac", Vec::new(), 7);
    stale.updated_unix_ms = NOW - 2_000;
    let live = snapshot_of("jp-edge-live", "jp-east", "apac", Vec::new(), 7);
    telemetry.ingest_snapshot(stale);
    telemetry.ingest_snapshot(live);

    let snapshot = view_of(
        &mut telemetry,
        snapshot_of("test-node", "test-region", "test-continent", Vec::new(), 1),
    );
    let places: Vec<NodePlace> = snapshot
        .nodes
        .iter()
        .map(|node| NodePlace {
            node_id: node.node_id.clone(),
            region: node.region.clone(),
        })
        .collect();
    let targets = selected_control_target_node_ids(
        ControlKind::WarmStream,
        &ControlRequest {
            node_id: None,
            region: Some("jp-east".into()),
            stream_id: Some(7),
        },
        &places,
    );

    assert_eq!(snapshot.aggregate.node_count, 2);
    assert_eq!(snapshot.telemetry.fresh_remote_count, 1);
    assert_eq!(snapshot.telemetry.stale_remote_count, 1);
    assert_eq!(snapshot.telemetry.stale_nodes[0].node_id, "jp-edge-old");
    assert_eq!(snapshot.telemetry.stale_nodes[0].region, "jp-east");
    assert_eq!(snapshot.telemetry.stale_nodes[0].age_ms, 2_000);
    assert!(snapshot
        .alerts
        .iter()
        .any(|alert| alert.code == "telemetry_snapshot_stale"
            && alert.node_id.as_deref() == Some("jp-edge-old")));
    assert!(snapshot.nodes.iter().any(|node| node.node_id == "test-node"));
    assert!(snapshot.nodes.iter().any(|node| node.node_id == "jp-edge-live"));
    assert!(!snapshot.nodes.iter().any(|node| node.node_id == "jp-edge-old"));
    assert_eq!(targets, vec!["jp-edge-live"]);
    assert!(!telemetry
        .snapshots
        .iter()
        .any(|snapshot| snapshot.node.node_id == "jp-edge-old"));

    telemetry.ingest_snapshot(snapshot_of("jp-edge-old", "jp-east", "apac", Vec::new(), 7));
    assert!(telemetry.stale_nodes.is_empty());
}

#[test]
fn the_longest_silent_nodes_are_remembered() {
    let mut telemetry = TelemetryAggregator::new(1);
    for index in 0..40u64 {
        let mut old = snapshot_of(&format!("node-{index:02}"), "r", "c", Vec::new(), 1);
        old.updated_unix_ms = NOW - 100 - index;
        telemetry.ingest_snapshot(old);
    }
    let (snapshots, health) =
        telemetry.snapshots_with_local(snapshot_of("local", "r", "c", Vec::new(), 1), NOW);
    assert_eq!(snapshots.len(), 1);
    assert_eq!(health.stale_remote_count, 32);
    assert_eq!(health.stale_nodes[0].node_id, "node-39");
    assert_eq!(health.stale_nodes[31].node_id, "node-08");
    let mut patient = TelemetryAggregator::new(0);
    let mut old = snapshot_of("old", "r", "c", Vec::new(), 1);
    old.updated_unix_ms = 0;
    assert!(!patient.is_stale(&old, NOW));
    patient.ingest_snapshot(old);
    let (snapshots, _) =
        patient.snapshots_with_local(snapshot_of("local", "r", "c", Vec::new(), 1), NOW);
    assert_eq!(snapshots.len(), 2);
    assert_eq!(snapshots[0].node.node_id, "local");
}

#[test]
fn mesh_api_reports_telemetry_peer_data_hose_status() {
    let peer = "127.0.0.1:7300";
    let mut monitor = TelemetryPeerMonitor::new(&vec![peer.to_owned(), peer.to_owned()]);
    monitor.record_connecting(peer);
    monitor.record_disconnected(peer, Some("dial failed".into()));

    let peers = monitor.snapshot();
    assert_eq!(peers.len(), 1);
    assert_eq!(peers[0].peer, peer);
    assert_eq!(peers[0].state, "error");
    assert_eq!(peers[0].connect_attempts, 1);
    assert_eq!(peers[0].disconnects, 1);
    assert_eq!(peers[0].last_error.as_deref(), Some("dial failed"));
    let with_peers = |telemetry_peers| {
        let local = snapshot_of("test-node", "r", "c", Vec::new(), 1);
        let copy = local.copy();
        MeshApiSnapshot::from_snapshots(
            copy,
            vec![local],
            no_telemetry(),
            Vec::new(),
            OrchestrationStatus { telemetry_peers, ..orchestration() },
            NOW,
        )
    };
    assert!(has_alert(&with_peers(peers), "telemetry_peer_unavailable"));

    monitor.record_connecting(peer);
    monitor.record_connected(peer, NOW);
    monitor.record_payload(peer, 512, NOW);
    let peers = monitor.snapshot();
    assert_eq!(peers[0].state, "connected");
    assert_eq!(peers[0].connect_attempts, 2);
    assert_eq!(peers[0].payloads, 1);
    assert_eq!(peers[0].bytes, 512);
    assert_eq!(peers[0].last_error, None);
    assert!(!has_alert(&with_peers(peers), "telemetry_peer_unavailable"));
    monitor.record_payload("a:1", 1, NOW);
    assert_eq!(monitor.snapshot()[1].state, "");
    monitor.record_disconnected("a:1", None);
    assert_eq!(monitor.snapshot()[1].state, "disconnected");
}

#[test]
fn mesh_api_reports_operational_alerts() {
    let mut telemetry = TelemetryAggregator::default();
    let mut remote = snapshot_of("full-node", "us-east", "na", vec![peer("10.0.0.9:29101")], 5);
    remote.node.used_storage_bytes = 960_000;
    telemetry.ingest_snapshot(remote);
    let mut control = ControlPlane::new();
    let mut command = control.record(
        ControlKind::ProvisionNode,
        ControlRequest {
            node_id: Some("new-node".into()),
            region: Some("us-east".into()),
            stream_id: None,
        },
        1,
        NOW,
    );
    command.status = "provision skipped: no executor configured".into();
    control.replace(command);
    let mut local = snapshot_of("test-node", "test-region", "test-continent", Vec::new(), 1);
    local.recent_commands = control.recent();
    let snapshot = view_of(&mut telemetry, local);

    assert!(has_alert(&snapshot, "mesh_unknown_peers"));
    assert!(has_alert(&snapshot, "edge_playback_missing"));
    assert!(has_alert(&snapshot, "storage_exhausted"));
    assert!(has_alert(&snapshot, "control_skipped"));
    let codes: Vec<&str> =
        snapshot.activity.iter().map(|activity| activity.code.as_str()).collect();
    assert!(codes.contains(&"mesh_snapshot"));
    assert!(codes.contains(&"storage_exhausted"));
    assert!(codes.contains(&"provision_node"));
    assert_eq!(
        derive_mesh_activity(
            &snapshot.aggregate,
            &snapshot.alerts,
            &snapshot.recent_commands,
            NOW
        )
        .len(),
        snapshot.activity.len()
    );
    let full = snapshot.nodes.iter().find(|node| node.node_id == "full-node").unwrap();
    assert_eq!(storage_percent(full), 96);
}

#[test]
fn mesh_api_reports_edge_response_errors() {
    let mut edge = EdgeLoad::new();
    edge.record_response(
        "GET",
        "/live/77/init.mp4",
        None,
        &EdgeResponse { status: 404, body_bytes: None, content_type: None },
        1_000_000,
        NOW,
    );
    let mut local = snapshot_of("test-node", "test-region", "test-continent", Vec::new(), 1);
    let service = edge.snapshot(&local.node, None);
    local = local.with_edge_service(service);
    let snapshot = view_of(&mut TelemetryAggregator::default(), local);
    let edge = &snapshot.edge_services[0];
    assert_eq!(edge.responses_total, 1);
    assert_eq!(edge.response_errors, 1);
    assert_eq!(edge.response_not_found, 1);
    assert_eq!(edge.recent_responses[0].path, "/live/77/init.mp4");
    assert_eq!(edge.recent_responses[0].status, 404);
    assert!(has_alert(&snapshot, "edge_response_errors"));
}

#[test]
fn edge_readers_come_and_go() {
    let mut edge = EdgeLoad::new();
    let first = edge.begin_read(true);
    let second = edge.begin_read(false);
    assert_eq!(edge.active_readers, 2);
    assert_eq!(edge.llhls_tail_requests, 1);
    first.finish(&mut edge, 100);
    second.abandon(&mut edge);
    assert_eq!(edge.active_readers, 0);
    assert_eq!(edge.requests_served, 2);
    assert_eq!(edge.bytes_served, 100);
}

#[test]
fn mesh_api_alerts_on_stale_remote_streams() {
    let mut telemetry = TelemetryAggregator::default();
    let mut remote = snapshot_of("us-1", "us-east", "na", Vec::new(), 1);
    let mut stream = stream_of("us-1", 1, 4);
    stream.latest_local_part_age_ms = Some(6_000);
    stream.last_ingest_age_ms = Some(6_000);
    remote.streams = vec![stream];
    telemetry.ingest_snapshot(remote);
    let snapshot = view_of(
        &mut telemetry,
        snapshot_of("test-node", "r", "c", Vec::new(), 1),
    );

    assert!(snapshot
        .alerts
        .iter()
        .any(|alert| alert.code == "mesh_stream_stale"
            && alert.node_id.as_deref() == Some("us-1")
            && alert.stream_id_text.as_deref() == Some("77")));
    assert!(snapshot.streams.iter().any(|stream| {
        stream.node_id == "us-1"
            && stream.stream_id == 77
            && stream.last_ingest_age_ms == Some(6_000)
            && stream.stale_threshold_ms == Some(5_000)
    }));
    assert_eq!(stream_stale_threshold_ms(500, 6), 5_000);
    assert_eq!(stream_stale_threshold_ms(500, 60), 30_000);
}

#[test]
fn mesh_api_reports_lagging_stream_replicas() {
    let mut telemetry = TelemetryAggregator::default();
    let mut head = snapshot_of("us-head", "us-east", "na", Vec::new(), 1);
    head.streams = vec![stream_of("us-head", 1, 20)];
    let mut lagging = snapshot_of("eu-lag", "eu-west", "eu", Vec::new(), 1);
    lagging.streams = vec![stream_of("eu-lag", 1, 11)];
    telemetry.ingest_snapshot(head);
    telemetry.ingest_snapshot(lagging);
    let snapshot = view_of(
        &mut telemetry,
        snapshot_of("test-node", "r", "c", Vec::new(), 1),
    );

    assert!(snapshot.alerts.iter().any(|alert| {
        alert.code == "mesh_stream_lagging"
            && alert.node_id.as_deref() == Some("eu-lag")
            && alert.stream_id_text.as_deref() == Some("77")
    }));
    assert!(snapshot.streams.iter().any(|stream| {
        stream.node_id == "us-head" && stream.stream_id == 77 && stream.mesh_lag_parts == Some(0)
    }));
    assert!(snapshot.streams.iter().any(|stream| {
        stream.node_id == "eu-lag" && stream.stream_id == 77 && stream.mesh_lag_parts == Some(9)
    }));
}

#[test]
fn mesh_api_reports_canonical_epoch_divergence_and_publication_gaps() {
    let mut telemetry = TelemetryAggregator::default();
    for (node_id, epoch, gaps) in [("relay-a", 8, 0), ("relay-b", 9, 2)] {
        let mut remote = snapshot_of(node_id, "test-region", "test-continent", Vec::new(), 77);
        let mut stream = stream_of(node_id, epoch, 4);
        stream.canonical_epoch_activation_delay_us = Some(if node_id == "relay-b" {
            CANONICAL_EPOCH_ACTIVATION_WARN_US + 1
        } else {
            250_000
        });
        stream.head_object = Some(4 + gaps);
        stream.gap_count = Some(gaps);
        remote.streams = vec![stream];
        telemetry.ingest_snapshot(remote);
    }
    let snapshot = view_of(
        &mut telemetry,
        snapshot_of("test-node", "r", "c", Vec::new(), 1),
    );

    assert!(has_alert(&snapshot, "canonical_epoch_divergence"));
    assert!(has_alert(&snapshot, "canonical_epoch_activation_slow"));
    assert!(snapshot.alerts.iter().any(|alert| {
        alert.code == "canonical_publication_gap"
            && alert.node_id.as_deref() == Some("relay-b")
            && alert.stream_id_text.as_deref() == Some("77")
    }));
    assert_eq!(canonical_epoch_divergent_stream_count(&snapshot.streams), 1);
    assert_eq!(
        canonical_epoch_activation_delay_max_us(&snapshot.streams),
        CANONICAL_EPOCH_ACTIVATION_WARN_US + 1
    );
}

#[test]
fn mesh_api_compares_canonical_objects_instead_of_process_local_counters() {
    let mut telemetry = TelemetryAggregator::default();
    let mut head = snapshot_of("edge-head", "ap-east", "apac", Vec::new(), 77);
    let mut stream = stream_of("edge-head", 9, 500);
    stream.latest_local_part = Some(20_000);
    head.streams = vec![stream];
    let mut restarted_relay = snapshot_of("relay-primary", "eu-west", "eu", Vec::new(), 77);
    restarted_relay.relay_session.controlled_sessions = 1;
    let mut stream = stream_of("relay-primary", 9, 500);
    stream.latest_local_part = Some(200);
    restarted_relay.streams = vec![stream];
    telemetry.ingest_snapshot(head);
    telemetry.ingest_snapshot(restarted_relay);
    let snapshot = view_of(
        &mut telemetry,
        snapshot_of("test-node", "r", "c", Vec::new(), 1),
    );

    assert!(snapshot.streams.iter().any(|stream| {
        stream.node_id == "relay-primary"
            && stream.contiguous_object == Some(500)
            && stream.mesh_lag_parts == Some(0)
    }));
    assert!(!snapshot.alerts.iter().any(|alert| {
        alert.code == "mesh_stream_lagging" && alert.node_id.as_deref() == Some("relay-primary")
    }));
}

fn fractions_of(snapshot: &MeshApiSnapshot) -> Fractions {
    let seconds = |value: u64, unit: f64| format!("{}", value as f64 / unit);
    Fractions {
        sync_interval_seconds: seconds(snapshot.mesh_transport.sync_interval_ms, 1_000.0),
        repair_ratio: {
            let ratio = f64::from(f32::from_bits(snapshot.mesh_transport.repair_ratio_bits));
            format!("{}", (ratio * 1_000_000.0).round() / 1_000_000.0)
        },
        activation_delay_max_seconds: seconds(
            canonical_epoch_activation_delay_max_us(&snapshot.streams),
            1_000_000.0,
        ),
        response_duration_sum_seconds: snapshot
            .edge_services
            .iter()
            .map(|edge| seconds(edge.response_duration_sum_us, 1_000_000.0))
            .collect(),
        streams: snapshot
            .streams
            .iter()
            .map(|stream| StreamFractions {
                activation_delay_seconds: seconds(
                    stream.canonical_epoch_activation_delay_us.unwrap_or(0),
                    1_000_000.0,
                ),
                last_ingest_age_seconds: seconds(stream.last_ingest_age_ms.unwrap_or(0), 1_000.0),
                latest_local_part_age_seconds: seconds(
                    stream.latest_local_part_age_ms.unwrap_or(0),
                    1_000.0,
                ),
            })
            .collect(),
    }
}

#[test]
fn mesh_prometheus_metrics_expose_topology_edge_and_stream_health() {
    let mut local = snapshot_of("uk-1", "uk", "eu", vec![peer("us-1")], 77);
    local.edge_service = Some(EdgeServiceSnapshot {
        node_id: "uk-1".into(),
        region: "uk".into(),
        continent: "eu".into(),
        playback_base_url: Some("https://uk.example/live".into()),
        active_readers: 2,
        requests_served: 10,
        bytes_served: 20_000,
        llhls_tail_requests: 5,
        responses_total: 12,
        response_errors: 1,
        response_not_found: 1,
        last_response_unix_ms: Some(NOW),
        response_duration_count: 12,
        response_duration_sum_us: 18_000,
        response_duration_p95_us: Some(2_500),
        response_duration_buckets: EDGE_RESPONSE_DURATION_BUCKETS_US
            .iter()
            .map(|upper_bound| u64::from(*upper_bound >= 2_500) * 12)
            .collect(),
        recent_responses: Vec::new(),
        draining: false,
    });
    let mut snapshot = view_of(&mut TelemetryAggregator::default(), local);
    snapshot.mesh_fec = MeshFecRuntimeSnapshot {
        tx_objects: 8,
        tx_source_datagrams: 16,
        tx_repair_datagrams: 4,
        rx_decoded_objects: 7,
        rx_repaired_objects: 2,
        rx_repaired_source_datagrams: 3,
        rx_late_source_datagrams: 1,
        rx_presumed_lost_source_datagrams: 2,
        rx_inflight_objects: 1,
        ..MeshFecRuntimeSnapshot::default()
    };
    snapshot.relay_session = RelaySessionIngressSnapshot {
        primary_sessions: 1,
        secondary_sessions: 1,
        authenticated_sessions: 2,
        active_objects: 3,
        active_object_bytes: 24_000,
        source_datagrams: 40,
        repair_datagrams: 8,
        decoded_objects: 9,
        repair_assisted_objects: 4,
        fec_recovered_objects: 3,
        fec_recovered_source_symbols: 7,
        expired_objects: 2,
        conflict_drops: 1,
        authentication_drops: 2,
        deadline_drops: 3,
        downstream_children: 1,
        forwarded_source_datagrams: 20,
        forwarded_repair_datagrams: 4,
        forwarded_bytes: 32_000,
        forward_errors: 2,
        warm_source_buffered_datagrams: 12,
        warm_source_buffered_bytes: 18_000,
        warm_source_replayed_datagrams: 9,
        warm_source_replayed_bytes: 13_500,
        warm_source_expired_datagrams: 2,
        warm_source_retired_datagrams: 8,
        warm_source_evicted_datagrams: 1,
        processing_duration_count: 48,
        processing_duration_sum_us: 4_800,
        processing_duration_max_us: 320,
        processing_duration_buckets: [48; 13],
        forward_duration_count: 24,
        forward_duration_sum_us: 2_400,
        forward_duration_max_us: 240,
        forward_duration_buckets: [24; 13],
        publication_to_available_count: 9,
        publication_to_available_sum_us: 2_250_000,
        publication_to_available_max_us: 280_000,
        publication_to_available_buckets: [9; 16],
        publication_clock_error_max_us: 5_000,
        publication_clock_unusable_objects: 1,
        failover_controller_state: RelayFailoverControllerState::Promoted,
        failover_controller_enabled: 1,
        failover_commands_sent: 7,
        failover_command_send_errors: 1,
        failover_promotions: 2,
        failover_demotions: 1,
        failover_secondary_unavailable_events: 3,
        failover_primary_source_age_ms: 351,
        failover_secondary_repair_age_ms: 24,
        failover_last_detection_us: 351_000,
        failover_last_promotion_to_source_us: 88_000,
        failover_last_media_gap_us: 103_000,
        failover_max_media_gap_us: 119_000,
        failover_controller_last_transition_unix_ms: 1_784_102_400_123,
        failover_listeners: 1,
        failover_promoted_children: 1,
        failover_commands_received: 6,
        failover_commands_rejected: 2,
        failover_lease_expirations: 1,
        failover_promotions_applied: 2,
        failover_demotions_applied: 2,
        failover_listener_last_transition_unix_ms: 1_784_102_400_456,
        ..RelaySessionIngressSnapshot::default()
    };

    let metrics = render_mesh_prometheus_metrics(&snapshot, &fractions_of(&snapshot));

    assert!(metrics.contains("# TYPE av_mesh_nodes gauge\n"));
    assert!(metrics.contains("av_mesh_nodes 1\n"));
    assert!(metrics.contains("av_mesh_canonical_epoch_divergent_streams 0\n"));
    assert!(metrics.contains("av_mesh_canonical_epoch_activation_delay_max_seconds 0.25\n"));
    assert!(metrics.contains("av_mesh_transport_sync_interval_seconds 0.02\n"));
    assert!(metrics.contains("av_mesh_transport_fec_repair_ratio 0.03\n"));
    assert!(metrics.contains("av_mesh_transport_fec_min_repair_symbols 1\n"));
    assert!(metrics.contains("av_mesh_transport_fec_max_repair_symbols 32\n"));
    assert!(metrics.contains("av_mesh_fec_tx_objects_total 8\n"));
    assert!(metrics.contains("av_mesh_fec_tx_datagrams_total{kind=\"source\"} 16\n"));
    assert!(metrics.contains("av_mesh_fec_tx_datagrams_total{kind=\"repair\"} 4\n"));
    assert!(metrics.contains("av_mesh_fec_rx_objects_total{outcome=\"repaired\"} 2\n"));
    assert!(metrics.contains("av_mesh_fec_rx_repaired_source_datagrams_total 3\n"));
    assert!(metrics.contains("av_mesh_fec_rx_late_source_datagrams_total 1\n"));
    assert!(metrics.contains("av_mesh_fec_rx_presumed_lost_source_datagrams_total 2\n"));
    assert!(metrics.contains("av_mesh_fec_rx_inflight_objects 1\n"));
    assert!(metrics.contains("av_mesh_relay_session_parent_sessions{role=\"primary\"} 1\n"));
    assert!(metrics.contains("av_mesh_relay_session_active_object_bytes 24000\n"));
    assert!(metrics.contains("av_mesh_relay_session_datagrams_total{outcome=\"repair\"} 8\n"));
    assert!(metrics
        .contains("av_mesh_relay_session_objects_total{outcome=\"repair_assisted\"} 4\n"));
    assert!(
        metrics.contains("av_mesh_relay_session_objects_total{outcome=\"fec_recovered\"} 3\n")
    );
    assert!(metrics.contains("av_mesh_relay_session_fec_recovered_source_symbols_total 7\n"));
    assert!(metrics.contains("av_mesh_relay_session_drops_total{reason=\"deadline\"} 3\n"));
    assert!(metrics.contains("av_mesh_relay_session_downstream_children 1\n"));
    assert!(metrics
        .contains("av_mesh_relay_session_forwarded_datagrams_total{role=\"source\"} 20\n"));
    assert!(metrics.contains("av_mesh_relay_session_forwarded_bytes_total 32000\n"));
    assert!(metrics.contains("av_mesh_relay_session_forward_errors_total 2\n"));
    assert!(metrics.contains("av_mesh_relay_warm_source_buffered_datagrams 12\n"));
    assert!(metrics.contains("av_mesh_relay_warm_source_buffered_bytes 18000\n"));
    assert!(metrics.contains("av_mesh_relay_warm_source_replayed_datagrams_total 9\n"));
    assert!(metrics.contains("av_mesh_relay_warm_source_replayed_bytes_total 13500\n"));
    assert!(metrics.contains("av_mesh_relay_warm_source_expired_datagrams_total 2\n"));
    assert!(metrics.contains("av_mesh_relay_warm_source_retired_datagrams_total 8\n"));
    assert!(metrics.contains("av_mesh_relay_warm_source_evicted_datagrams_total 1\n"));
    assert!(metrics.contains("av_mesh_relay_session_processing_duration_us_count 48\n"));
    assert!(metrics.contains("av_mesh_relay_session_processing_duration_max_us 320\n"));
    assert!(metrics.contains("av_mesh_relay_session_forward_duration_us_count 24\n"));
    assert!(metrics.contains("av_mesh_relay_session_forward_duration_max_us 240\n"));
    assert!(metrics.contains("av_mesh_relay_session_publication_to_available_us_count 9\n"));
    assert!(metrics.contains("av_mesh_relay_session_publication_to_available_max_us 280000\n"));
    assert!(metrics.contains("av_mesh_relay_session_publication_clock_error_max_us 5000\n"));
    assert!(
        metrics.contains("av_mesh_relay_session_publication_clock_unusable_objects_total 1\n")
    );
    assert!(metrics.contains("av_mesh_relay_failover_state{state=\"promoted\"} 1\n"));
    assert!(metrics.contains("av_mesh_relay_failover_state{state=\"healthy\"} 0\n"));
    assert!(metrics.contains("av_mesh_relay_failover_controller_enabled 1\n"));
    assert!(metrics.contains("av_mesh_relay_failover_listeners 1\n"));
    assert!(metrics.contains("av_mesh_relay_failover_promoted_children 1\n"));
    assert!(metrics.contains("av_mesh_relay_failover_primary_source_age_ms 351\n"));
    assert!(metrics.contains("av_mesh_relay_failover_secondary_repair_age_ms 24\n"));
    assert!(metrics.contains("av_mesh_relay_failover_last_detection_us 351000\n"));
    assert!(metrics.contains("av_mesh_relay_failover_last_promotion_to_source_us 88000\n"));
    assert!(metrics.contains("av_mesh_relay_failover_last_media_gap_us 103000\n"));
    assert!(metrics.contains("av_mesh_relay_failover_max_media_gap_us 119000\n"));
    assert!(metrics.contains(
        "av_mesh_relay_failover_commands_total{direction=\"sent\",outcome=\"success\"} 7\n"
    ));
    assert!(metrics.contains(
        "av_mesh_relay_failover_commands_total{direction=\"received\",outcome=\"rejected\"} 2\n"
    ));
    assert!(metrics.contains(
        "av_mesh_relay_failover_transitions_total{side=\"controller\",transition=\"promotion\"} 2\n"
    ));
    assert!(metrics.contains(
        "av_mesh_relay_failover_transitions_total{side=\"forwarder\",transition=\"demotion\"} 2\n"
    ));
    assert!(metrics.contains("av_mesh_relay_failover_secondary_unavailable_total 3\n"));
    assert!(metrics.contains("av_mesh_relay_failover_lease_expirations_total 1\n"));
    assert!(metrics.contains("av_mesh_edge_active_readers{node_id=\"uk-1\",region=\"uk\"} 2\n"));
    assert!(metrics.contains(
        "av_mesh_stream_bytes_received_total{node_id=\"uk-1\",stream_id=\"77\"} 20000\n"
    ));
    assert!(metrics
        .contains("av_mesh_stream_canonical_epoch{node_id=\"uk-1\",stream_id=\"77\"} 1\n"));
    assert!(metrics.contains(
        "av_mesh_stream_canonical_epoch_activation_delay_seconds{node_id=\"uk-1\",stream_id=\"77\"} 0.25\n"
    ));
    assert!(metrics
        .contains("av_mesh_stream_contiguous_object{node_id=\"uk-1\",stream_id=\"77\"} 1\n"));
    assert!(metrics
        .contains("av_mesh_stream_known_gap_count{node_id=\"uk-1\",stream_id=\"77\"} 0\n"));
    assert!(metrics.contains("av_mesh_stream_lag_parts{node_id=\"uk-1\",stream_id=\"77\"} 0\n"));
    assert!(metrics.contains(
        "av_mesh_edge_response_duration_seconds_count{node_id=\"uk-1\",region=\"uk\"} 12\n"
    ));
    assert_eq!(prometheus_label_value("node\\\"\n"), "node\\\\\\\"\\n");
    assert!(metrics.contains(
        "av_mesh_edge_response_duration_seconds_sum{node_id=\"uk-1\",region=\"uk\"} 0.018\n"
    ));
    assert!(metrics.contains(
        "av_mesh_edge_response_duration_seconds_bucket{node_id=\"uk-1\",region=\"uk\",le=\"0.0025\"} 12\n"
    ));
    assert!(metrics.contains(
        "av_mesh_edge_response_duration_seconds_bucket{node_id=\"uk-1\",region=\"uk\",le=\"0.001\"} 0\n"
    ));
    assert!(metrics.contains("av_mesh_relay_session_forward_duration_us_bucket{le=\"100\"} 24\n"));
    assert!(metrics.contains(
        "av_mesh_node_draining{node_id=\"uk-1\",region=\"uk\",continent=\"eu\"} 0\n"
    ));
    assert!(metrics.contains(
        "av_mesh_stream_last_ingest_age_seconds{node_id=\"uk-1\",stream_id=\"77\"} 0.01\n"
    ));
    for (index, bound) in EDGE_RESPONSE_DURATION_BUCKETS_US.iter().enumerate() {
        assert_eq!(
            av_mesh_node::metrics::EDGE_RESPONSE_DURATION_BUCKETS_SECONDS[index],
            format!("{}", *bound as f64 / 1_000_000.0)
        );
    }
}

#[test]
fn metrics_list_alerts_by_their_labels() {
    let mut local = snapshot_of("uk\"1", "uk", "eu", vec![peer("10.0.0.9:1")], 77);
    local.stream.last_ingest_age_ms = Some(60_000);
    let snapshot = view_of(&mut TelemetryAggregator::default(), local);
    let metrics = render_mesh_prometheus_metrics(&snapshot, &fractions_of(&snapshot));
    assert!(metrics.contains(
        "av_mesh_alerts{level=\"warn\",code=\"local_ingest_stale\",node_id=\"\",stream_id=\"77\"} 1\n"
    ));
    assert!(metrics.contains("av_mesh_node_streams{node_id=\"uk\\\"1\",region=\"uk\",continent=\"eu\",kind=\"active\"} 1\n"));
    let mut header = String::new();
    push_prometheus_metric_header(&mut header, "m", "Help.", "gauge");
    assert_eq!(header, "# HELP m Help.\n# TYPE m gauge\n");
}

#[test]
fn replicas_are_asked_for_once_per_interval() {
    let mut tracker = DemandTracker::new();
    assert!(tracker.should_request_replica(7, NOW));
    assert!(!tracker.should_request_replica(7, NOW + 999));
    assert!(tracker.should_request_replica(8, NOW + 999));
    assert!(tracker.should_request_replica(7, NOW + 1_000));
}

#[test]
fn plans_rest_on_what_nodes_tell() {
    let mut remote = snapshot_of("us-1", "us-east", "na", Vec::new(), 1);
    remote.streams = vec![stream_of("us-1", 1, 4)];
    let local = snapshot_of("test-node", "uk", "eu", Vec::new(), 1);
    let own = "test-node".to_owned();
    let snapshots = vec![local, remote];
    let plan = plan_replicas_from_snapshots(77, 0, &snapshots, &own, 6, false).unwrap();
    assert!(plan.active);
    assert_eq!(plan.bytes, 4_096 * 6);
    assert_eq!(plan.contributor_node_id.as_deref(), Some("us-1"));
    assert_eq!(plan.existing_replicas, vec!["us-1"]);
    assert_eq!(plan.nodes.len(), 2);
    let held = plan_replicas_from_snapshots(77, 100_000, &snapshots, &own, 6, false).unwrap();
    assert_eq!(held.bytes, 100_000);
    assert_eq!(held.existing_replicas, vec!["us-1", "test-node"]);
    assert!(plan_replicas_from_snapshots(9, 0, &snapshots, &own, 6, false).is_none());
    let demanded = plan_replicas_from_snapshots(9, 0, &snapshots, &own, 6, true).unwrap();
    assert!(!demanded.active);
    assert_eq!(demanded.bytes, 1);
    assert_eq!(known_active_stream_ids(&vec![9, 1], &snapshots), vec![1, 9, 77]);

    let signal = demand_signal(77, &snapshots[0].node, Some("us-east"), &snapshots, 0, NOW);
    assert_eq!(signal.region, "us-east");
    assert_eq!(signal.continent, "na");
    assert_eq!(signal.active_readers, 1);
    let here = demand_signal(77, &snapshots[0].node, None, &snapshots, 3, NOW);
    assert_eq!((here.region.as_str(), here.continent.as_str()), ("uk", "eu"));
    assert_eq!(here.active_readers, 3);
    let nowhere = demand_signal(77, &snapshots[0].node, Some("mars"), &snapshots, 3, NOW);
    assert_eq!((nowhere.region.as_str(), nowhere.continent.as_str()), ("mars", "eu"));
}

#[test]
fn replica_requests_report_their_targets() {
    let placement = |node: &str| ReplicaPlacement {
        stream_id: 7,
        target_node_id: node.into(),
        reason: ReplicaReason::DemandRegion { region: "uk".into() },
        score_bits: 1.0f64.to_bits(),
    };
    assert_eq!(
        format_replica_request_status("warm-stream", 3, &Vec::new()),
        "warm-stream: requested from 3 peers; no eligible planned targets"
    );
    assert_eq!(
        format_replica_request_status("warm-stream", 1, &vec![placement("a"), placement("b")]),
        "warm-stream: requested from 1 peers; planned 2 targets: a,b"
    );
    let many: Vec<ReplicaPlacement> =
        ["a", "b", "c", "d", "e", "f"].iter().map(|node| placement(node)).collect();
    assert_eq!(
        format_replica_request_status("x", 1, &many),
        "x: requested from 1 peers; planned 6 targets: a,b,c,d,e,..."
    );
    let mut tracker = DemandTracker::new();
    assert!(!request_planned_local_replica(&mut tracker, &many, "z", 7, NOW));
    assert!(request_planned_local_replica(&mut tracker, &many, "c", 7, NOW));
    assert!(!request_planned_local_replica(&mut tracker, &many, "c", 7, NOW + 1));
    assert_eq!(
        replica_reason_text(&ReplicaReason::BaselineContinent { continent: "eu".into() }),
        "baseline continent eu"
    );
    let local = snapshot_of("test-node", "uk", "eu", Vec::new(), 1);
    let copy = local.copy();
    let view = MeshApiSnapshot::from_snapshots(
        copy,
        vec![local],
        no_telemetry(),
        vec![placement("a")],
        orchestration(),
        NOW,
    );
    assert_eq!(view.planned_replicas[0].stream_id_text, "7");
    assert_eq!(view.planned_replicas[0].reason_text, "demand region uk");
}

#[test]
fn regions_select_their_nodes() {
    let places = vec![
        NodePlace { node_id: "b".into(), region: "uk".into() },
        NodePlace { node_id: "a".into(), region: "uk".into() },
        NodePlace { node_id: "c".into(), region: "us".into() },
    ];
    assert_eq!(nodes_of_region(&places, "uk"), vec!["a", "b"]);
    let request = ControlRequest {
        node_id: Some("x".into()),
        region: Some("uk".into()),
        stream_id: None,
    };
    assert_eq!(
        selected_control_target_node_ids(ControlKind::CloseNode, &request, &places),
        vec!["x"]
    );
    assert!(
        selected_control_target_node_ids(ControlKind::ProvisionNode, &request, &places).is_empty()
    );
    assert!(!ProvisionExecutor::disabled().status(false, false).enabled);
}
