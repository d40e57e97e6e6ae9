use av_mesh_node::control::{
    accepts_envelope, apply_control_locally, command_outcome, control_kind_code,
    control_kind_from_path, control_kind_label, control_request_target_text,
    control_targets_local, execute_control_status, local_control_status, received_status,
    CommandOutcome, ControlEnvelope, ControlKind, ControlPlane, ControlRequest, LocalControl,
    PublishOutcome,
};
use av_mesh_node::provision::{
    command_output_detail, command_run_status, env_value_present, format_linode_provision_result,
    linode_ends_run, linode_run_status, plan_linode, provision_environment, provision_run_status,
    truncated_utf8, CommandRun, LinodePlan, LinodeProvisionConfig, LinodeRun, ProvisionExecutor,
    ScaleUpResult,
};

fn request(node: Option<&str>, region: Option<&str>, stream_id: Option<u64>) -> ControlRequest {
    ControlRequest {
        node_id: node.map(Into::into),
        region: region.map(Into::into),
        stream_id,
    }
}

fn config() -> LinodeProvisionConfig {
    LinodeProvisionConfig {
        token_env: "AV_MESH_TEST_MISSING_LINODE_TOKEN".into(),
        pub_key_env: "AV_MESH_TEST_MISSING_LINODE_PUB_KEY".into(),
        image_id: "linode/arch".into(),
        instance_type: "g6-dedicated-2".into(),
        domain_id: 2_958_920,
        vlan_tag: "avmesh".into(),
        region_map: vec![("uk".into(), "gb-lon".into())],
    }
}

fn made() -> ScaleUpResult {
    ScaleUpResult {
        instance_id: 42,
        label: "gb-lon-test".into(),
        public_ipv4: "203.0.113.10".into(),
        private_ipam_address: "10.0.0.5/24".into(),
        vlan_label: "avmesh".into(),
        dns_name: Some("avmesh-gb-lon-1".into()),
        region_code: "gb-lon".into(),
        linode_region: "gb-lon".into(),
    }
}

#[test]
fn linode_provision_status_reports_private_subnet_details() {
    let status = format_linode_provision_result("uk", &made());

    assert!(status.contains("requested_region=uk"));
    assert!(status.contains("instance_id=42"));
    assert!(status.contains("private_ipam=10.0.0.5/24"));
    assert!(status.contains("vlan=avmesh"));
    assert!(status.contains("dns=avmesh-gb-lon-1"));
}

#[test]
fn linode_provision_reports_missing_env_without_network() {
    let executor = ProvisionExecutor::new(None, 1_000_000_000).with_linode(Some(config()));
    let status = executor.status(false, false);
    assert!(status.enabled);
    assert_eq!(status.timeout_ms, 1_000);
    assert_eq!(status.backends, vec!["linode"]);
    assert_eq!(status.backend_statuses.len(), 1);
    assert_eq!(status.backend_statuses[0].name, "linode");
    assert_eq!(status.backend_statuses[0].state, "blocked");
    assert!(status.backend_statuses[0]
        .details
        .iter()
        .any(|detail| detail.contains("AV_MESH_TEST_MISSING_LINODE_TOKEN missing")));
    let skipped = match plan_linode(
        &config(),
        "test-region",
        &request(Some("uk-test-2"), Some("uk"), None),
        false,
        false,
    ) {
        LinodePlan::Skipped { status } => status,
        other => panic!("{other:?}"),
    };
    assert!(skipped
        .contains("local linode provision skipped: missing AV_MESH_TEST_MISSING_LINODE_TOKEN"));
    assert!(linode_ends_run(&skipped));
    match plan_linode(&config(), "uk", &request(None, None, None), true, true) {
        LinodePlan::ScaleUp { requested_region, linode_region } => {
            assert_eq!(requested_region, "uk");
            assert_eq!(linode_region, "gb-lon");
        }
        other => panic!("{other:?}"),
    }
    match plan_linode(&config(), "uk", &request(None, Some("nowhere"), None), true, true) {
        LinodePlan::Skipped { status } => assert!(status.contains("nowhere")),
        other => panic!("{other:?}"),
    }
    assert!(!env_value_present(None));
    assert!(!env_value_present(Some(" \t")));
    assert!(env_value_present(Some(" x ")));
}

#[test]
fn provision_node_control_runs_configured_executor() {
    let executor = ProvisionExecutor::new(Some("printf provision-ok".into()), 1_000_000_000);
    assert_eq!(executor.status(false, false).backends, vec!["command"]);
    let environment = provision_environment(
        7,
        "test-node",
        "test-region",
        &request(Some("eu-test-2"), Some("eu-test"), None),
        &None,
    );
    let value = |name: &str| {
        environment
            .iter()
            .find(|(variable, _)| *variable == name)
            .map(|(_, value)| value.as_str())
    };
    assert_eq!(value("AV_MESH_CONTROL_ID"), Some("7"));
    assert_eq!(value("AV_MESH_LOCAL_NODE_ID"), Some("test-node"));
    assert_eq!(value("AV_MESH_PROVISION_REGION"), Some("eu-test"));
    assert_eq!(value("AV_MESH_PROVISION_NODE_ID"), Some("eu-test-2"));
    assert_eq!(value("AV_MESH_PROVISION_STREAM_ID"), Some(""));
    assert_eq!(value("AV_MESH_LINODE_LABEL"), None);
    let with_result = provision_environment(
        7,
        "test-node",
        "test-region",
        &request(None, None, Some(9)),
        &Some(made()),
    );
    assert!(with_result.contains(&("AV_MESH_LINODE_INSTANCE_ID", "42".to_owned())));
    assert!(with_result.contains(&("AV_MESH_PROVISION_STREAM_ID", "9".to_owned())));
    let status = command_run_status(&CommandRun::Exited {
        success: true,
        status: "exit status: 0".into(),
        detail: command_output_detail(b"provision-ok", b""),
    });
    assert_eq!(
        status,
        "local provision executed: exit status: 0; stdout=provision-ok"
    );
}

#[test]
fn provision_runs_report_how_they_ended() {
    assert_eq!(
        command_run_status(&CommandRun::TimedOut { timeout_ms: 5 }),
        "local provision failed: command timed out after 5 ms"
    );
    assert_eq!(
        command_run_status(&CommandRun::SpawnFailed { error: "no sh".into() }),
        "local provision failed: command spawn failed: no sh"
    );
    assert_eq!(
        command_run_status(&CommandRun::Exited {
            success: false,
            status: "exit status: 1".into(),
            detail: String::new(),
        }),
        "local provision failed: exit status: 1"
    );
    assert_eq!(command_output_detail(b"", b""), "");
    assert_eq!(command_output_detail(b"a\nb", b" c "), "stdout=a\\nb; stderr=c");
    assert_eq!(command_output_detail(b"", b"c"), "stderr=c");
    let long = [b'x'; 161];
    let cut = truncated_utf8(&long);
    assert_eq!(cut.len(), 163);
    assert!(cut.ends_with("x..."));
    assert_eq!(truncated_utf8(b"\xff"), "\u{fffd}");
    assert!(linode_run_status("uk", &LinodeRun::Failed { error: "quota".into() }).contains("quota"));
    assert!(linode_run_status("uk", &LinodeRun::TimedOut { timeout_ms: 9 }).contains("9 ms"));
    assert_eq!(
        provision_run_status(Some("linode made"), Some("command ran")),
        "linode made; command ran"
    );
}

#[test]
fn control_kinds_have_codes_labels_and_paths() {
    assert_eq!(control_kind_code(ControlKind::WarmStream), "warm_stream");
    assert_eq!(control_kind_code(ControlKind::ProvisionNode), "provision_node");
    assert!(!control_kind_label(ControlKind::CloseNode).is_empty());
    assert_eq!(
        control_kind_from_path("/api/control/close-node"),
        Some(ControlKind::CloseNode)
    );
    assert_eq!(
        control_kind_from_path("/api/control/provision-node"),
        Some(ControlKind::ProvisionNode)
    );
    assert_eq!(control_kind_from_path("/api/control/"), None);
}

#[test]
fn commands_are_recorded_and_replaced() {
    let mut plane = ControlPlane::new();
    for id in 0..20 {
        plane.record(ControlKind::WarmStream, request(None, Some("r"), Some(id)), id, 1_000 + id);
    }
    let recent = plane.recent();
    assert_eq!(recent.len(), 16);
    let mut command = plane.record(ControlKind::CloseNode, request(Some("n"), None, None), 99, 5);
    assert_eq!(command.stream_id_text, None);
    command.status = "local close requested: draining".into();
    plane.replace(command);
    assert!(plane
        .recent()
        .iter()
        .any(|command| command.id == 99 && command.status.contains("draining")));
    assert_eq!(command_outcome("Publish FAILED: x"), CommandOutcome::Failed);
    assert_eq!(command_outcome("local warm skipped: x"), CommandOutcome::Skipped);
    assert_eq!(command_outcome("ok"), CommandOutcome::Other);
}

#[test]
fn remote_avmc_warm_stream_runs_on_matching_region() {
    let envelope = ControlEnvelope {
        id: 12,
        origin_node_id: "central".into(),
        kind: ControlKind::WarmStream,
        request: request(None, Some("test-region"), Some(92)),
        target_node_ids: Vec::new(),
    };
    assert!(accepts_envelope(&envelope, "test-node", "test-region"));
    assert!(!accepts_envelope(&envelope, "central", "test-region"));
    let step = apply_control_locally(
        envelope.kind,
        &envelope.request,
        false,
        &envelope.target_node_ids,
        "test-node",
        "test-region",
    );
    assert!(matches!(step, LocalControl::Warm { stream_id: 92 }));
    let status = execute_control_status(&local_control_status(step, ""), &None, &Vec::new());
    assert_eq!(
        received_status("central", 12, &status),
        "received from central command 12; local warm requested"
    );
}

#[test]
fn remote_avmc_ignores_non_matching_targets() {
    let envelope = ControlEnvelope {
        id: 13,
        origin_node_id: "central".into(),
        kind: ControlKind::WarmStream,
        request: request(Some("other-node"), Some("test-region"), Some(93)),
        target_node_ids: Vec::new(),
    };
    assert!(!accepts_envelope(&envelope, "test-node", "test-region"));
}

#[test]
fn commands_apply_where_they_are_aimed() {
    let apply = |kind, request: &ControlRequest, local: bool| {
        apply_control_locally(kind, request, local, &Vec::new(), "test-node", "test-region")
    };
    let everywhere = request(None, None, None);
    assert!(matches!(
        apply(ControlKind::CloseNode, &request(Some("test-node"), None, None), true),
        LocalControl::Drain
    ));
    assert!(matches!(
        apply(ControlKind::CloseNode, &request(Some("x"), None, None), true),
        LocalControl::Elsewhere
    ));
    assert!(matches!(
        apply(ControlKind::WarmStream, &everywhere, true),
        LocalControl::MissingStream
    ));
    assert!(matches!(
        apply(ControlKind::ProvisionNode, &request(Some("x"), None, None), true),
        LocalControl::Provision
    ));
    assert!(matches!(
        apply(ControlKind::ProvisionNode, &everywhere, false),
        LocalControl::RemoteProvision
    ));
    assert!(matches!(
        apply(ControlKind::ReplicaRequest, &everywhere, true),
        LocalControl::ReplicaIgnored
    ));
    assert_eq!(
        local_control_status(LocalControl::Drain, ""),
        "local close requested: draining"
    );
    let targets = vec!["a".to_owned(), "b".to_owned()];
    assert!(!control_targets_local(&everywhere, &targets, "test-node", "r"));
    assert!(control_targets_local(&everywhere, &targets, "a", "r"));
    assert_eq!(
        execute_control_status("done", &Some(PublishOutcome::Published), &targets),
        "done; published AVMC control to a,b"
    );
    assert_eq!(
        execute_control_status("done", &Some(PublishOutcome::Published), &Vec::new()),
        "done; published AVMC control"
    );
    assert_eq!(
        execute_control_status("done", &Some(PublishOutcome::NoPublisher), &Vec::new()),
        "done; no tcp-changes control publisher"
    );
    assert_eq!(
        execute_control_status(
            "done",
            &Some(PublishOutcome::Failed { error: "closed".into() }),
            &Vec::new()
        ),
        "done; control publish failed: closed"
    );
    assert!(control_request_target_text(&request(Some("n"), None, None)).contains('n'));
}
