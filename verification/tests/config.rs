use av_mesh_node::addr::{is_private_mesh_target, parse_ip_address, parse_socket_address, IpAddress, SocketAddress};
use av_mesh_node::args::{load_tls, Args, ArgsError, ParentPath, SessionError, TlsChoice};
use av_mesh_node::endpoints::{
    parse_key_value, parse_relay_failover_controller_endpoint,
    parse_relay_failover_listener_endpoint, parse_relay_forward_endpoint, resolved_addresses,
    settle_addresses, RelayFailoverControllerEndpoint, RelayFailoverListenerEndpoint,
};
use av_mesh_node::forwarder::{RelayForwardEndpoint, RelayForwardRole};

fn address(text: &str) -> SocketAddress {
    parse_socket_address(text).unwrap()
}

fn forward(bind: &str, target: &str, role: RelayForwardRole) -> RelayForwardEndpoint {
    RelayForwardEndpoint { bind: address(bind), target: address(target), role }
}

fn controlled() -> Args {
    Args {
        relay_controlled_local: true,
        relay_primary_peer: Some(address("127.0.0.1:13001")),
        relay_secondary_bind: Some(address("127.0.0.1:12002")),
        relay_secondary_peer: Some(address("127.0.0.1:13002")),
        ..Args::default()
    }
}

fn refusal(args: Args) -> ArgsError {
    args.normalized().unwrap_err()
}

#[test]
fn default_args_keep_edge_protocols_opt_in() {
    let args = Args::default().normalized().unwrap();

    assert!(!args.edge_websocket);
    assert!(!args.edge_webtransport);
    assert!(args.raw_tcp_port.is_none());
    assert_eq!(args.telemetry_dns_name, "local.wavey.ai");
    assert_eq!(args.mesh_sync_interval_ms, 20);
    assert_eq!(args.mesh_repair_symbols, 1);
    assert_eq!(f32::from_bits(args.mesh_repair_ratio_bits), 0.03);
    assert_eq!(args.mesh_max_repair_symbols, 32);
    assert_eq!(args.mesh_symbol_size, 1316);
    assert_eq!(f64::from_bits(args.latitude_bits), 51.5074);
    assert_eq!(f64::from_bits(args.longitude_bits), -0.1278);
    assert_eq!(f64::from_bits(args.min_mirror_distance_km_bits), 300.0);
    assert_eq!(args.mesh_bind, address("127.0.0.1:9101"));
}

#[test]
fn parses_edge_protocol_opt_ins() {
    let args = Args {
        edge_websocket: true,
        edge_webtransport: true,
        raw_tcp_port: Some(19000),
        ..Args::default()
    }
    .normalized()
    .unwrap();

    assert!(args.edge_websocket);
    assert!(args.edge_webtransport);
    assert_eq!(args.raw_tcp_port, Some(19000));
}

#[test]
fn controlled_relay_cli_binds_two_parent_lanes_to_one_receiver() {
    let args = Args {
        node_id: Some("edge-london".into()),
        fec_bind: address("127.0.0.1:12001"),
        relay_controlled_local: true,
        relay_primary_bind: Some(address("127.0.0.1:12001")),
        relay_primary_peer: Some(address("127.0.0.1:13001")),
        relay_primary_id: "contrib-primary".into(),
        relay_secondary_bind: Some(address("127.0.0.1:12002")),
        relay_secondary_peer: Some(address("127.0.0.1:13002")),
        relay_secondary_id: "contrib-secondary".into(),
        relay_topology_generation: 7,
        relay_subscription_id: 19,
        ..Args::default()
    }
    .normalized()
    .unwrap();
    let parents = args.configured_relay_parents("edge-london").unwrap();

    assert_eq!(args.relay_primary_bind, Some(args.fec_bind));
    assert_eq!(args.relay_secondary_bind, Some(address("127.0.0.1:12002")));
    let on = |path: ParentPath| parents.iter().filter(|parent| parent.path == path).count();
    assert_eq!(on(ParentPath::Primary), 1);
    assert_eq!(on(ParentPath::Secondary), 1);
    assert_eq!(parents.len(), 2);
    assert_eq!(parents[0].peer, address("127.0.0.1:13001"));
    assert_eq!(parents[0].session_id, 1);
    assert_eq!(parents[0].node_id, "contrib-primary");
    assert_eq!(parents[1].session_id, 2);
    assert_eq!(args.node_name(), "edge-london");
}

#[test]
fn relay_peer_configuration_requires_explicit_controlled_mode() {
    let error = refusal(Args {
        relay_primary_peer: Some(address("127.0.0.1:13001")),
        ..Args::default()
    });
    assert!(error.message("").contains("--relay-controlled-local"));
}

#[test]
fn parses_dns_peer_targets_for_orchestrated_deployments() {
    let args = Args {
        peers: vec!["av-mesh-us.av-mesh.svc.cluster.local:9101".into()],
        telemetry_peers: vec!["av-mesh-us.av-mesh.svc.cluster.local:7300".into()],
        ..Args::default()
    }
    .normalized()
    .unwrap();

    assert_eq!(
        args.peers,
        vec!["av-mesh-us.av-mesh.svc.cluster.local:9101"]
    );
    assert_eq!(
        args.telemetry_peers,
        vec!["av-mesh-us.av-mesh.svc.cluster.local:7300"]
    );
}

#[test]
fn parses_linode_provision_flags_and_region_maps() {
    let args = Args {
        linode_provision: true,
        linode_image_id: Some("linode/arch".into()),
        linode_instance_type: Some("g6-dedicated-2".into()),
        linode_domain_id: Some(2_958_920),
        linode_vlan_tag: "avmesh".into(),
        linode_token_env: "TEST_LINODE_TOKEN".into(),
        linode_pub_key_env: "TEST_LINODE_PUB_KEY".into(),
        linode_region_maps: vec![
            parse_key_value("uk=gb-lon").unwrap(),
            parse_key_value("us=us-east").unwrap(),
        ],
        ..Args::default()
    }
    .normalized()
    .unwrap();
    let config = args.linode_provision_config().unwrap();

    assert_eq!(config.image_id, "linode/arch");
    assert_eq!(config.instance_type, "g6-dedicated-2");
    assert_eq!(config.domain_id, 2_958_920);
    assert_eq!(config.vlan_tag, "avmesh");
    assert_eq!(config.token_env, "TEST_LINODE_TOKEN");
    assert_eq!(config.pub_key_env, "TEST_LINODE_PUB_KEY");
    assert_eq!(config.resolve_region("uk"), "gb-lon");
    assert_eq!(config.resolve_region("us"), "us-east");
    assert_eq!(config.resolve_region("jp-osa"), "jp-osa");
}

#[test]
fn linode_provision_requires_provider_config() {
    let error = refusal(Args { linode_provision: true, ..Args::default() }).message("");

    assert!(error.contains("--linode-image-id"));
    assert!(error.contains("--linode-instance-type"));
    assert!(error.contains("--linode-domain-id"));
    assert_eq!(
        error,
        "--linode-provision requires --linode-image-id, --linode-instance-type, --linode-domain-id"
    );
    let partly = refusal(Args {
        linode_provision: true,
        linode_instance_type: Some("g6-dedicated-2".into()),
        linode_domain_id: Some(1),
        ..Args::default()
    });
    assert_eq!(
        partly.message(""),
        "--linode-provision requires --linode-image-id"
    );
    assert!(Args::default().linode_provision_config().is_none());
}

#[test]
fn relay_forward_endpoint_requires_explicit_bind_and_target() {
    assert_eq!(
        parse_relay_forward_endpoint("127.0.0.1:24001=127.0.0.1:25001,source").unwrap(),
        RelayForwardEndpoint {
            bind: address("127.0.0.1:24001"),
            target: address("127.0.0.1:25001"),
            role: RelayForwardRole::Source,
        }
    );
    assert!(parse_relay_forward_endpoint("127.0.0.1:24001").is_err());
    assert!(parse_relay_forward_endpoint("invalid=127.0.0.1:25001").is_err());
}

#[test]
fn relay_failover_endpoints_bind_control_to_an_exact_peer_and_child() {
    assert_eq!(
        parse_relay_failover_listener_endpoint(
            "127.0.0.1:22502=127.0.0.1:22501,127.0.0.1:22004"
        )
        .unwrap(),
        RelayFailoverListenerEndpoint {
            bind: address("127.0.0.1:22502"),
            peer: address("127.0.0.1:22501"),
            forward_target: address("127.0.0.1:22004"),
        }
    );
    assert_eq!(
        parse_relay_failover_controller_endpoint("127.0.0.1:22501=127.0.0.1:22502").unwrap(),
        RelayFailoverControllerEndpoint {
            bind: address("127.0.0.1:22501"),
            target: address("127.0.0.1:22502"),
        }
    );
    assert!(parse_relay_failover_listener_endpoint("127.0.0.1:22502=127.0.0.1:22501").is_err());
    assert!(
        parse_relay_failover_listener_endpoint("127.0.0.1:22502=invalid,127.0.0.1:22004")
            .is_err()
    );
    assert!(parse_relay_failover_controller_endpoint("127.0.0.1:22501").is_err());
}

#[test]
fn endpoint_errors_say_what_is_wrong() {
    let role = |text: &str| parse_relay_forward_endpoint(text).unwrap().role;
    assert_eq!(role("127.0.0.1:1=127.0.0.1:2"), RelayForwardRole::All);
    assert_eq!(role("127.0.0.1:1=127.0.0.1:2,repair"), RelayForwardRole::Repair);
    let error = |text: &str| parse_relay_forward_endpoint(text).unwrap_err();
    assert_eq!(error("127.0.0.1:1"), "expected BIND=TARGET,ROLE");
    assert_eq!(
        error("127.0.0.1:1=127.0.0.1:2,some"),
        "invalid relay forward role some; expected source, repair, or all"
    );
    assert_eq!(
        error("x=127.0.0.1:2,all"),
        "invalid relay forward bind x: invalid socket address syntax"
    );
    assert_eq!(
        error("127.0.0.1:1=y,all"),
        "invalid relay forward target y: invalid socket address syntax"
    );
    assert_eq!(
        parse_relay_failover_listener_endpoint("127.0.0.1:1").unwrap_err(),
        "expected BIND=CONTROLLER_PEER,FORWARD_TARGET"
    );
    assert_eq!(
        parse_relay_failover_listener_endpoint("127.0.0.1:1=127.0.0.1:2,z").unwrap_err(),
        "invalid failover forward target z: invalid socket address syntax"
    );
    assert_eq!(
        parse_relay_failover_controller_endpoint("b=127.0.0.1:2").unwrap_err(),
        "invalid failover controller bind b: invalid socket address syntax"
    );
    assert_eq!(parse_key_value("uk").unwrap_err(), "expected KEY=VALUE");
    assert_eq!(
        parse_key_value("uk= ").unwrap_err(),
        "expected non-empty KEY=VALUE"
    );
    assert_eq!(
        parse_key_value(" uk = gb=lon ").unwrap(),
        ("uk".to_owned(), "gb=lon".to_owned())
    );
}

#[test]
fn mesh_target_scope_classifies_private_addresses() {
    assert!(is_private_mesh_target("10.0.0.2:9100"));
    assert!(is_private_mesh_target("127.0.0.1:9100"));
    assert!(is_private_mesh_target("[fd00::1]:9100"));
    assert!(!is_private_mesh_target("203.0.113.10:9100"));
    assert!(!is_private_mesh_target("mesh.example.com:9100"));
}

#[test]
fn addresses_are_read_by_their_grammar() {
    assert_eq!(parse_ip_address("127.0.0.1"), Some(IpAddress::V4(0x7f00_0001)));
    assert_eq!(parse_ip_address("127.0.0.01"), None);
    assert_eq!(parse_ip_address("256.0.0.1"), None);
    assert_eq!(parse_ip_address("::1"), Some(IpAddress::V6(0, 1)));
    assert_eq!(
        parse_ip_address("2001:db8::8:800:200c:417a"),
        Some(IpAddress::V6(0x2001_0db8_0000_0000, 0x0008_0800_200c_417a))
    );
    assert_eq!(
        parse_ip_address("::ffff:192.0.2.128"),
        Some(IpAddress::V6(0, 0x0000_ffff_c000_0280))
    );
    assert_eq!(parse_ip_address("1::2::3"), None);
    assert_eq!(parse_socket_address("127.0.0.1:65536"), None);
    assert_eq!(parse_socket_address("::1:80"), None);
    assert_eq!(
        parse_socket_address("[fe80::1%7]:80"),
        Some(SocketAddress {
            ip: IpAddress::V6(0xfe80_0000_0000_0000, 1),
            port: 80,
            flow_info: 0,
            scope_id: 7
        })
    );
}

#[test]
fn resolved_addresses_are_sorted_and_kept_once() {
    let list = vec![
        address("[::1]:80"),
        address("10.0.0.2:9101"),
        address("10.0.0.1:9102"),
        address("10.0.0.1:9101"),
        address("10.0.0.2:9101"),
    ];
    assert_eq!(
        settle_addresses(list),
        vec![
            address("10.0.0.1:9101"),
            address("10.0.0.1:9102"),
            address("10.0.0.2:9101"),
            address("[::1]:80"),
        ]
    );
    assert_eq!(
        resolved_addresses("peer", "nowhere:1", Vec::new()).unwrap_err(),
        "--peer nowhere:1 resolved no socket addresses"
    );
    assert_eq!(
        resolved_addresses("peer", "here:1", vec![address("10.0.0.1:1")]).unwrap(),
        vec![address("10.0.0.1:1")]
    );
}

#[test]
fn small_sizes_are_made_large_enough() {
    let args = Args {
        parts_per_segment: 0,
        window_parts: 0,
        slot_kb: 1,
        storage_bytes: 0,
        egress_capacity_bps: 0,
        mesh_sync_interval_ms: 0,
        mesh_symbol_size: 0,
        mesh_repair_symbols: 40,
        telemetry_interval_ms: 1,
        replication_plan_interval_ms: 1,
        provision_timeout_ms: 1,
        ..Args::default()
    }
    .normalized()
    .unwrap();
    assert_eq!(args.parts_per_segment, 1);
    assert_eq!(args.window_parts, 6);
    assert_eq!(args.slot_kb, 64);
    assert_eq!(args.storage_bytes, 65_536);
    assert_eq!(args.egress_capacity_bps, 1);
    assert_eq!(args.mesh_sync_interval_ms, 1);
    assert_eq!(args.mesh_symbol_size, 1);
    assert_eq!(args.mesh_max_repair_symbols, 40);
    assert_eq!(args.telemetry_interval_ms, 100);
    assert_eq!(args.replication_plan_interval_ms, 100);
    assert_eq!(args.provision_timeout_ms, 100);
    let again = args.normalized().unwrap();
    assert_eq!(again.window_parts, 6);
    let wide = Args { parts_per_segment: 10, ..Args::default() }.normalized().unwrap();
    assert_eq!(wide.window_parts, 30);
}

#[test]
fn every_refusal_has_an_input() {
    assert_eq!(refusal(Args { part_ms: 0, ..Args::default() }), ArgsError::PartDuration);
    for ratio in [f32::NAN, f32::INFINITY, f32::NEG_INFINITY, -0.5] {
        assert_eq!(
            refusal(Args { mesh_repair_ratio_bits: ratio.to_bits(), ..Args::default() }),
            ArgsError::RepairRatio
        );
    }
    for ratio in [0.0f32, -0.0, 1.0, f32::MAX] {
        assert!(Args { mesh_repair_ratio_bits: ratio.to_bits(), ..Args::default() }
            .normalized()
            .is_ok());
    }
    assert_eq!(
        refusal(Args {
            relay_primary_bind: Some(address("127.0.0.1:12001")),
            ..Args::default()
        }),
        ArgsError::PrimaryBindNeedsPeer
    );
    assert_eq!(
        refusal(Args {
            relay_secondary_bind: Some(address("127.0.0.1:12002")),
            ..Args::default()
        }),
        ArgsError::SecondaryBindNeedsPeer
    );
    assert_eq!(
        refusal(Args {
            relay_primary_bind: Some(address("127.0.0.1:1")),
            ..controlled()
        }),
        ArgsError::PrimaryBindElsewhere
    );
    assert_eq!(
        refusal(Args { relay_secondary_bind: None, ..controlled() }),
        ArgsError::SecondaryPeerNeedsBind
    );
    assert_eq!(
        refusal(Args { relay_secondary_promoted: true, ..Args::default() }),
        ArgsError::SecondaryPromotedNeedsPeer
    );
    assert_eq!(
        refusal(Args { relay_primary_promoted: true, ..Args::default() }),
        ArgsError::PrimaryPromotedNeedsPeer
    );
    assert_eq!(
        refusal(Args {
            relay_secondary_bind: Some(address("127.0.0.1:12001")),
            ..controlled()
        }),
        ArgsError::SecondaryBindShared
    );
    assert_eq!(
        refusal(Args { relay_controlled_local: true, ..Args::default() }),
        ArgsError::ControlledNeedsPeer
    );
    assert_eq!(
        refusal(Args {
            relay_secondary_peer: Some(address("127.0.0.1:13001")),
            ..controlled()
        }),
        ArgsError::PeersAlike
    );
    assert_eq!(
        refusal(Args { relay_max_downstream_children: 0, ..Args::default() }),
        ArgsError::NoChildren
    );
    let two = || {
        vec![
            forward("127.0.0.1:1", "127.0.0.1:2", RelayForwardRole::All),
            forward("127.0.0.1:3", "127.0.0.1:4", RelayForwardRole::Repair),
        ]
    };
    let many = refusal(Args {
        relay_max_downstream_children: 1,
        relay_forwards: two(),
        ..Args::default()
    });
    assert_eq!(many, ArgsError::TooManyChildren { count: 2, limit: 1 });
    assert_eq!(
        many.message(""),
        "2 --relay-forward subscriptions exceed the configured child limit 1"
    );
    let itself = refusal(Args {
        relay_forwards: vec![forward("127.0.0.1:1", "127.0.0.1:1", RelayForwardRole::All)],
        ..Args::default()
    });
    assert_eq!(itself.address(), Some(address("127.0.0.1:1")));
    assert_eq!(
        itself.message("127.0.0.1:1"),
        "RelaySession forward bind and target require distinct sockets; both resolve to 127.0.0.1:1"
    );
    let taken = refusal(Args {
        relay_forwards: vec![forward("127.0.0.1:12001", "127.0.0.1:1", RelayForwardRole::All)],
        ..Args::default()
    });
    assert_eq!(
        taken.message("127.0.0.1:12001"),
        "RelaySession forward bind 127.0.0.1:12001 conflicts with a RelaySession receive socket"
    );
    assert_eq!(
        refusal(Args {
            relay_forwards: vec![
                forward("127.0.0.1:1", "127.0.0.1:2", RelayForwardRole::All),
                forward("127.0.0.1:1", "127.0.0.1:4", RelayForwardRole::All),
            ],
            ..Args::default()
        }),
        ArgsError::ForwardBindTwice { address: address("127.0.0.1:1") }
    );
    assert_eq!(
        refusal(Args {
            relay_forwards: vec![
                forward("127.0.0.1:1", "127.0.0.1:2", RelayForwardRole::All),
                forward("127.0.0.1:3", "127.0.0.1:2", RelayForwardRole::All),
            ],
            ..Args::default()
        }),
        ArgsError::ForwardTargetTwice { address: address("127.0.0.1:2") }
    );
    let controller = Some(RelayFailoverControllerEndpoint {
        bind: address("127.0.0.1:7"),
        target: address("127.0.0.1:8"),
    });
    assert_eq!(
        refusal(Args { relay_failover_controller: controller, ..Args::default() }),
        ArgsError::ControllerNeedsControlled
    );
    assert_eq!(
        refusal(Args { relay_failover_controller: controller, ..controlled() }),
        ArgsError::ControllerNeedsSecondary
    );
    let listener = |bind: &str, target: &str| RelayFailoverListenerEndpoint {
        bind: address(bind),
        peer: address("127.0.0.1:9"),
        forward_target: address(target),
    };
    assert_eq!(
        refusal(Args {
            relay_failover_listeners: vec![listener("127.0.0.1:7", "127.0.0.1:4")],
            ..Args::default()
        }),
        ArgsError::ListenerNeedsControlled
    );
    let with = |listeners: Vec<RelayFailoverListenerEndpoint>| Args {
        relay_forwards: two(),
        relay_failover_listeners: listeners,
        relay_secondary_promoted: true,
        ..controlled()
    };
    assert_eq!(
        refusal(with(vec![listener("127.0.0.1:7", "127.0.0.1:5")])),
        ArgsError::ListenerTargetUnknown { address: address("127.0.0.1:5") }
    );
    assert_eq!(
        refusal(with(vec![listener("127.0.0.1:7", "127.0.0.1:2")])),
        ArgsError::ListenerTargetNotRepair { address: address("127.0.0.1:2") }
    );
    assert_eq!(
        refusal(with(vec![listener("0.0.0.0:7", "127.0.0.1:4")])),
        ArgsError::ListenerSockets
    );
    assert_eq!(
        refusal(with(vec![
            listener("127.0.0.1:7", "127.0.0.1:4"),
            listener("127.0.0.1:7", "127.0.0.1:4"),
        ])),
        ArgsError::ControlBindTwice { address: address("127.0.0.1:7") }
    );
    assert_eq!(
        refusal(with(vec![
            listener("127.0.0.1:7", "127.0.0.1:4"),
            listener("127.0.0.1:8", "127.0.0.1:4"),
        ])),
        ArgsError::ControlTargetTwice { address: address("127.0.0.1:4") }
    );
    assert_eq!(
        refusal(Args {
            relay_failover_controller: Some(RelayFailoverControllerEndpoint {
                bind: address("0.0.0.0:7"),
                target: address("127.0.0.1:8"),
            }),
            ..with(Vec::new())
        }),
        ArgsError::ControllerSockets
    );
    assert_eq!(
        refusal(Args {
            relay_failover_controller: controller,
            ..with(vec![listener("127.0.0.1:7", "127.0.0.1:4")])
        }),
        ArgsError::ControlBindTwice { address: address("127.0.0.1:7") }
    );
    assert!(Args {
        relay_failover_controller: controller,
        ..with(vec![listener("127.0.0.1:6", "127.0.0.1:4")])
    }
    .normalized()
    .is_ok());
    assert_eq!(
        refusal(Args { relay_primary_recovery_ms: 249, ..Args::default() }),
        ArgsError::FailoverWindows
    );
    assert_eq!(
        refusal(Args { relay_failover_lease_ms: 299, ..Args::default() }),
        ArgsError::FailoverLease
    );
    assert_eq!(
        refusal(Args { relay_failover_lease_ms: 60_001, ..Args::default() }),
        ArgsError::FailoverLease
    );
    assert_eq!(
        refusal(Args { relay_topology_generation: 0, ..Args::default() }),
        ArgsError::TopologyGeneration
    );
    assert_eq!(
        refusal(Args { relay_subscription_id: 0, ..Args::default() }),
        ArgsError::Subscription
    );
}

#[test]
fn relay_parents_need_printable_names() {
    assert!(Args::default().configured_relay_parents("").unwrap().is_empty());
    let error = |args: Args, id: &str| args.configured_relay_parents(id).unwrap_err();
    assert_eq!(error(controlled(), ""), SessionError::LocalIdentity);
    assert_eq!(error(controlled(), "a\u{7f}b"), SessionError::LocalIdentity);
    assert_eq!(error(controlled(), &"x".repeat(129)), SessionError::LocalIdentity);
    assert!(controlled().configured_relay_parents(&"x".repeat(128)).is_ok());
    assert_eq!(
        error(Args { relay_topology_generation: 0, ..controlled() }, "n"),
        SessionError::TopologyGeneration
    );
    assert_eq!(
        error(Args { relay_subscription_id: 0, ..controlled() }, "n"),
        SessionError::Subscription
    );
    assert_eq!(
        error(Args { relay_primary_id: String::new(), ..controlled() }, "n"),
        SessionError::PrimaryIdentity
    );
    assert_eq!(
        error(Args { relay_secondary_id: "\n".into(), ..controlled() }, "n"),
        SessionError::SecondaryIdentity
    );
    let promoted = Args {
        relay_primary_promoted: true,
        relay_secondary_promoted: true,
        ..controlled()
    };
    for parent in promoted.configured_relay_parents("n").unwrap() {
        assert_eq!(parent.path, ParentPath::PromotedSecondary);
    }
}

#[test]
fn certificates_come_in_pairs() {
    assert!(matches!(load_tls(&None, &None), Ok(TlsChoice::Usual)));
    match load_tls(&Some("cert.pem".into()), &Some("key.pem".into())).unwrap() {
        TlsChoice::Files { cert, key } => {
            assert_eq!(cert, "cert.pem");
            assert_eq!(key, "key.pem");
        }
        other => panic!("{other:?}"),
    }
    assert_eq!(
        load_tls(&Some("cert.pem".into()), &None).unwrap_err(),
        "--cert and --key must be provided together"
    );
}

#[test]
fn nodes_are_profiled_from_their_configuration() {
    let args = Args { region: "us".into(), storage_bytes: 7_000_000, ..Args::default() };
    let node = args.node_profile();
    assert_eq!(node.node_id, "us");
    assert_eq!(node.region, "us");
    assert_eq!(node.continent, "eu");
    assert_eq!(node.total_storage_bytes, 7_000_000);
    assert!(!node.draining);
    assert_eq!(args.discovery_mesh_port(), 9101);
    let other = Args { private_discovery_mesh_port: Some(5), ..Args::default() };
    assert_eq!(other.discovery_mesh_port(), 5);
    assert_eq!(args.mesh_transport().symbol_size, 1316);
}
