//! What the alerts of a mesh say of its state.

use vstd::prelude::*;
use vstd::string::*;
use crate::alerts::{
    addressless_count, all_activity, backend_alerts, blocked_count, command_activity,
    command_alerts, controlled, discovery_alerts, divergence_alerts, draining_alerts,
    draining_count, edge_error_alerts, error_total, full_count, latest_error, latest_error_within,
    latest_stale, latest_unavailable, lists, local_ingest_alerts, mesh_alerts, playback_alerts,
    relay_alert, relay_alerts, reported_part, snapshot_activity, stale_telemetry_alerts,
    storage_alerts, tally, telemetry_peer_alerts, trouble_alerts, trouble_count, trouble_key,
    unavailable_count, unknown_count, unknown_peer_alerts, visibility_alerts, worst, AlertModel,
    EdgeErrorModel, MeshActivity, StreamTrouble,
};
use crate::control::{kind_code, kind_label, says, statuses_tell_outcomes, ControlCommand};
use crate::edge::EdgeServiceSnapshot;
use crate::histogram::percentile_bound;
use crate::mesh::{
    AggregateMetrics, ConnectionSnapshot, MeshNode, PrivateDiscoveryStatus,
    RelayNodeSessionSnapshot, TelemetryHealthSnapshot, TelemetryNodeHealth, TelemetryPeerStatus,
};
use crate::order::{ranked, ranking_orders, text_le, Ranked};
use crate::provision::{ProvisionBackendStatus, ProvisionStatus};
use crate::relay_snapshot::RelaySessionIngressSnapshot;
use crate::streams::{
    epoch_count, epochs_are_counted, epochs_of, first_divergent, two_epochs, StatsSnapshot,
    TelemetryModel,
};
use crate::text::{decimal, view_of, views};

verus! {

/// What is known of a mesh when its alerts are derived.
pub struct MeshFacts {
    pub aggregate: AggregateMetrics,
    pub nodes: Seq<MeshNode>,
    pub edges: Seq<EdgeServiceSnapshot>,
    pub connections: Seq<ConnectionSnapshot>,
    pub local_stream: StatsSnapshot,
    pub local_node_id: Seq<char>,
    pub streams: Seq<TelemetryModel>,
    pub relay_nodes: Seq<RelayNodeSessionSnapshot>,
    pub commands: Seq<ControlCommand>,
    pub telemetry: TelemetryHealthSnapshot,
    pub relay: RelaySessionIngressSnapshot,
    pub provision: ProvisionStatus,
    pub telemetry_peers: Seq<TelemetryPeerStatus>,
    pub discovery: PrivateDiscoveryStatus,
    pub now_ms: u64,
}

/// The alerts of a mesh.
#[verifier::opaque]
pub open spec fn alerts_of(f: MeshFacts) -> Seq<AlertModel> {
    mesh_alerts(
        f.aggregate,
        f.nodes,
        f.edges,
        f.connections,
        f.local_stream,
        f.local_node_id,
        f.streams,
        f.relay_nodes,
        f.commands,
        f.telemetry,
        f.relay,
        f.provision,
        f.telemetry_peers,
        f.discovery,
        f.now_ms,
    )
}

/// The alerts of one code among others, in their order.
pub open spec fn coded(alerts: Seq<AlertModel>, code: Seq<char>) -> Seq<AlertModel> {
    alerts.filter(|a: AlertModel| a.code == code)
}

/// Whether the alerts of a mesh hold exactly one of a code, with this level and count.
pub open spec fn has_one(
    f: MeshFacts,
    code: Seq<char>,
    level: Seq<char>,
    count: int,
) -> bool {
    let found = coded(alerts_of(f), code);
    found.len() == 1 && found[0].level == level && found[0].count == count
}

/// Whether the alerts of a mesh hold none of a code.
pub open spec fn has_none(f: MeshFacts, code: Seq<char>) -> bool {
    coded(alerts_of(f), code).len() == 0
}

/// The groups that the alerts of a mesh are made of, in their order.
#[verifier::opaque]
spec fn groups(f: MeshFacts) -> Seq<Seq<AlertModel>> {
    seq![
        visibility_alerts(f.aggregate, f.relay, f.now_ms),
        unknown_peer_alerts(f.connections, f.now_ms),
        draining_alerts(f.nodes, f.now_ms),
        playback_alerts(f.edges, f.now_ms),
        edge_error_alerts(f.edges, f.now_ms),
        storage_alerts(f.nodes, f.now_ms),
        command_alerts(f.commands),
        discovery_alerts(f.provision, f.discovery, f.local_node_id, f.now_ms),
        telemetry_peer_alerts(f.telemetry_peers, f.now_ms),
        stale_telemetry_alerts(f.telemetry),
        backend_alerts(f.provision, f.now_ms),
        local_ingest_alerts(f.local_stream, f.now_ms),
        trouble_alerts(StreamTrouble::Stale, f.streams, f.local_node_id, f.relay_nodes, f.now_ms),
        trouble_alerts(StreamTrouble::Gap, f.streams, f.local_node_id, f.relay_nodes, f.now_ms),
        trouble_alerts(
            StreamTrouble::SlowEpoch,
            f.streams,
            f.local_node_id,
            f.relay_nodes,
            f.now_ms,
        ),
        divergence_alerts(f.streams, f.now_ms),
        relay_alerts(f.relay_nodes, f.now_ms),
        trouble_alerts(StreamTrouble::Lagging, f.streams, f.local_node_id, f.relay_nodes, f.now_ms),
    ]
}

spec fn chained(list: Seq<Seq<AlertModel>>) -> Seq<AlertModel>
    decreases list.len(),
{
    if list.len() == 0 {
        Seq::empty()
    } else {
        chained(list.drop_last()) + list.last()
    }
}

proof fn lemma_chained_step(list: Seq<Seq<AlertModel>>, k: int)
    requires
        0 <= k < list.len(),
    ensures
        chained(list.take(k + 1)) == chained(list.take(k)) + list[k],
{
    assert(list.take(k + 1).drop_last() =~= list.take(k));
    assert(list.take(k + 1).last() == list[k]);
}

proof fn lemma_alerts_are_groups(f: MeshFacts)
    ensures
        alerts_of(f) == chained(groups(f)),
{
    reveal(alerts_of);
    reveal(groups);
    let g = groups(f);
    lemma_chained_step(g, 0);
    lemma_chained_step(g, 1);
    lemma_chained_step(g, 2);
    lemma_chained_step(g, 3);
    lemma_chained_step(g, 4);
    lemma_chained_step(g, 5);
    lemma_chained_step(g, 6);
    lemma_chained_step(g, 7);
    lemma_chained_step(g, 8);
    lemma_chained_step(g, 9);
    lemma_chained_step(g, 10);
    lemma_chained_step(g, 11);
    lemma_chained_step(g, 12);
    lemma_chained_step(g, 13);
    lemma_chained_step(g, 14);
    lemma_chained_step(g, 15);
    lemma_chained_step(g, 16);
    lemma_chained_step(g, 17);
    assert(chained(g.take(0)) =~= Seq::<AlertModel>::empty());
    assert(chained(g.take(1)) =~= g[0]);
    assert(g.take(18) =~= g);
}

proof fn lemma_coded_sum(a: Seq<AlertModel>, b: Seq<AlertModel>, code: Seq<char>)
    ensures
        coded(a + b, code) == coded(a, code) + coded(b, code),
    decreases b.len(),
{
    reveal(Seq::filter);
    if b.len() == 0 {
        assert(a + b =~= a);
        assert(coded(a, code) + coded(b, code) =~= coded(a, code));
    } else {
        lemma_coded_sum(a, b.drop_last(), code);
        assert((a + b).drop_last() =~= a + b.drop_last());
        assert((a + b).last() == b.last());
        assert(coded(a + b, code) =~= coded(a, code) + coded(b, code));
    }
}

proof fn lemma_coded_none(list: Seq<AlertModel>, code: Seq<char>)
    requires
        forall|i: int| 0 <= i < list.len() ==> (#[trigger] list[i]).code != code,
    ensures
        coded(list, code) == Seq::<AlertModel>::empty(),
    decreases list.len(),
{
    reveal(Seq::filter);
    if list.len() > 0 {
        let front = list.drop_last();
        assert forall|i: int| 0 <= i < front.len() implies (#[trigger] front[i]).code != code by {
            assert(front[i] == list[i]);
        }
        lemma_coded_none(front, code);
        assert(list.last() == list[list.len() - 1]);
    }
}

proof fn lemma_coded_in_one_group(list: Seq<Seq<AlertModel>>, k: int, code: Seq<char>)
    requires
        0 <= k < list.len(),
        forall|j: int, i: int|
            0 <= j < list.len() && j != k && 0 <= i < list[j].len() ==> (
            #[trigger] list[j][i]).code != code,
    ensures
        coded(chained(list), code) == coded(list[k], code),
    decreases list.len(),
{
    let front = list.drop_last();
    let last = list.last();
    lemma_coded_sum(chained(front), last, code);
    assert(last == list[list.len() - 1]);
    if k == list.len() - 1 {
        lemma_coded_nowhere(front, code);
        assert(Seq::<AlertModel>::empty() + coded(last, code) =~= coded(last, code));
    } else {
        lemma_coded_in_one_group(front, k, code);
        lemma_coded_none(last, code);
        assert(coded(front[k], code) + Seq::<AlertModel>::empty() =~= coded(front[k], code));
    }
}

proof fn lemma_coded_nowhere(list: Seq<Seq<AlertModel>>, code: Seq<char>)
    requires
        forall|j: int, i: int|
            0 <= j < list.len() && 0 <= i < list[j].len() ==> (#[trigger] list[j][i]).code
                != code,
    ensures
        coded(chained(list), code) == Seq::<AlertModel>::empty(),
    decreases list.len(),
{
    reveal(Seq::filter);
    if list.len() > 0 {
        let front = list.drop_last();
        let last = list.last();
        assert(last == list[list.len() - 1]);
        lemma_coded_sum(chained(front), last, code);
        lemma_coded_nowhere(front, code);
        lemma_coded_none(last, code);
        assert(Seq::<AlertModel>::empty() + Seq::<AlertModel>::empty() =~= Seq::<
            AlertModel,
        >::empty());
    }
}

/// What tells the codes apart: their length and their first letter.
spec fn mark(code: Seq<char>) -> (nat, char) {
    (code.len(), code[0])
}

spec fn first_mark(k: int) -> (nat, char) {
    if k == 0 {
        (16nat, 'm')
    } else if k == 1 {
        (18nat, 'm')
    } else if k == 2 {
        (14nat, 'n')
    } else if k == 3 {
        (21nat, 'e')
    } else if k == 4 {
        (20nat, 'e')
    } else if k == 5 {
        (17nat, 's')
    } else if k == 6 {
        (16nat, 'c')
    } else if k == 7 {
        (33nat, 'l')
    } else if k == 8 {
        (26nat, 't')
    } else if k == 9 {
        (24nat, 't')
    } else if k == 10 {
        (25nat, 'p')
    } else if k == 11 {
        (18nat, 'l')
    } else if k == 12 {
        (17nat, 'm')
    } else if k == 13 {
        (25nat, 'c')
    } else if k == 14 {
        (31nat, 'c')
    } else if k == 15 {
        (26nat, 'c')
    } else if k == 16 {
        (29nat, 'r')
    } else {
        (19nat, 'm')
    }
}

spec fn second_mark(k: int) -> (nat, char) {
    if k == 0 {
        (13nat, 'm')
    } else if k == 1 {
        (18nat, 'm')
    } else if k == 2 {
        (14nat, 'n')
    } else if k == 3 {
        (21nat, 'e')
    } else if k == 4 {
        (20nat, 'e')
    } else if k == 5 {
        (16nat, 's')
    } else if k == 6 {
        (15nat, 'c')
    } else if k == 7 {
        (33nat, 'l')
    } else if k == 8 {
        (26nat, 't')
    } else if k == 9 {
        (24nat, 't')
    } else if k == 10 {
        (25nat, 'p')
    } else if k == 11 {
        (18nat, 'l')
    } else if k == 12 {
        (17nat, 'm')
    } else if k == 13 {
        (25nat, 'c')
    } else if k == 14 {
        (31nat, 'c')
    } else if k == 15 {
        (26nat, 'c')
    } else if k == 16 {
        (29nat, 'r')
    } else {
        (19nat, 'm')
    }
}

proof fn lemma_marks()
    ensures
        mark("mesh_single_node"@) == (16nat, 'm'),
        mark("mesh_no_links"@) == (13nat, 'm'),
        mark("mesh_unknown_peers"@) == (18nat, 'm'),
        mark("nodes_draining"@) == (14nat, 'n'),
        mark("edge_playback_missing"@) == (21nat, 'e'),
        mark("edge_response_errors"@) == (20nat, 'e'),
        mark("storage_exhausted"@) == (17nat, 's'),
        mark("storage_pressure"@) == (16nat, 's'),
        mark("control_failures"@) == (16nat, 'c'),
        mark("control_skipped"@) == (15nat, 'c'),
        mark("linode_private_discovery_inactive"@) == (33nat, 'l'),
        mark("telemetry_peer_unavailable"@) == (26nat, 't'),
        mark("telemetry_snapshot_stale"@) == (24nat, 't'),
        mark("provision_backend_blocked"@) == (25nat, 'p'),
        mark("local_ingest_stale"@) == (18nat, 'l'),
        mark("mesh_stream_stale"@) == (17nat, 'm'),
        mark("canonical_publication_gap"@) == (25nat, 'c'),
        mark("canonical_epoch_activation_slow"@) == (31nat, 'c'),
        mark("canonical_epoch_divergence"@) == (26nat, 'c'),
        mark("relay_processing_p95_exceeded"@) == (29nat, 'r'),
        mark("mesh_stream_lagging"@) == (19nat, 'm'),
{
    reveal_strlit("mesh_single_node");
    reveal_strlit("mesh_no_links");
    reveal_strlit("mesh_unknown_peers");
    reveal_strlit("nodes_draining");
    reveal_strlit("edge_playback_missing");
    reveal_strlit("edge_response_errors");
    reveal_strlit("storage_exhausted");
    reveal_strlit("storage_pressure");
    reveal_strlit("control_failures");
    reveal_strlit("control_skipped");
    reveal_strlit("linode_private_discovery_inactive");
    reveal_strlit("telemetry_peer_unavailable");
    reveal_strlit("telemetry_snapshot_stale");
    reveal_strlit("provision_backend_blocked");
    reveal_strlit("local_ingest_stale");
    reveal_strlit("mesh_stream_stale");
    reveal_strlit("canonical_publication_gap");
    reveal_strlit("canonical_epoch_activation_slow");
    reveal_strlit("canonical_epoch_divergence");
    reveal_strlit("relay_processing_p95_exceeded");
    reveal_strlit("mesh_stream_lagging");
}

proof fn lemma_relay_codes(nodes: Seq<RelayNodeSessionSnapshot>, now_ms: u64)
    ensures
        forall|i: int|
            0 <= i < relay_alerts(nodes, now_ms).len() ==> (#[trigger] relay_alerts(
                nodes,
                now_ms,
            )[i]).code == "relay_processing_p95_exceeded"@,
    decreases nodes.len(),
{
    if nodes.len() > 0 {
        lemma_relay_codes(nodes.drop_last(), now_ms);
    }
}

proof fn lemma_group_marks(f: MeshFacts, j: int, i: int)
    requires
        0 <= j < 18,
        0 <= i < groups(f)[j].len(),
    ensures
        mark(groups(f)[j][i].code) == first_mark(j) || mark(groups(f)[j][i].code) == second_mark(j),
{
    reveal(groups);
    lemma_marks();
    lemma_relay_codes(f.relay_nodes, f.now_ms);
}

proof fn lemma_group_number(f: MeshFacts)
    ensures
        groups(f).len() == 18,
{
    reveal(groups);
}

proof fn lemma_group_0(f: MeshFacts)
    ensures
        groups(f)[0] == visibility_alerts(f.aggregate, f.relay, f.now_ms),
{
    reveal(groups);
}

proof fn lemma_group_1(f: MeshFacts)
    ensures
        groups(f)[1] == unknown_peer_alerts(f.connections, f.now_ms),
{
    reveal(groups);
}

proof fn lemma_group_2(f: MeshFacts)
    ensures
        groups(f)[2] == draining_alerts(f.nodes, f.now_ms),
{
    reveal(groups);
}

proof fn lemma_group_3(f: MeshFacts)
    ensures
        groups(f)[3] == playback_alerts(f.edges, f.now_ms),
{
    reveal(groups);
}

proof fn lemma_group_4(f: MeshFacts)
    ensures
        groups(f)[4] == edge_error_alerts(f.edges, f.now_ms),
{
    reveal(groups);
}

proof fn lemma_group_5(f: MeshFacts)
    ensures
        groups(f)[5] == storage_alerts(f.nodes, f.now_ms),
{
    reveal(groups);
}

proof fn lemma_group_6(f: MeshFacts)
    ensures
        groups(f)[6] == command_alerts(f.commands),
{
    reveal(groups);
}

proof fn lemma_group_7(f: MeshFacts)
    ensures
        groups(f)[7] == discovery_alerts(f.provision, f.discovery, f.local_node_id, f.now_ms),
{
    reveal(groups);
}

proof fn lemma_group_8(f: MeshFacts)
    ensures
        groups(f)[8] == telemetry_peer_alerts(f.telemetry_peers, f.now_ms),
{
    reveal(groups);
}

proof fn lemma_group_9(f: MeshFacts)
    ensures
        groups(f)[9] == stale_telemetry_alerts(f.telemetry),
{
    reveal(groups);
}

proof fn lemma_group_10(f: MeshFacts)
    ensures
        groups(f)[10] == backend_alerts(f.provision, f.now_ms),
{
    reveal(groups);
}

proof fn lemma_group_11(f: MeshFacts)
    ensures
        groups(f)[11] == local_ingest_alerts(f.local_stream, f.now_ms),
{
    reveal(groups);
}

proof fn lemma_group_12(f: MeshFacts)
    ensures
        groups(f)[12] == trouble_alerts(
            StreamTrouble::Stale,
            f.streams,
            f.local_node_id,
            f.relay_nodes,
            f.now_ms,
        ),
{
    reveal(groups);
}

proof fn lemma_group_13(f: MeshFacts)
    ensures
        groups(f)[13] == trouble_alerts(
            StreamTrouble::Gap,
            f.streams,
            f.local_node_id,
            f.relay_nodes,
            f.now_ms,
        ),
{
    reveal(groups);
}

proof fn lemma_group_14(f: MeshFacts)
    ensures
        groups(f)[14] == trouble_alerts(
            StreamTrouble::SlowEpoch,
            f.streams,
            f.local_node_id,
            f.relay_nodes,
            f.now_ms,
        ),
{
    reveal(groups);
}

proof fn lemma_group_15(f: MeshFacts)
    ensures
        groups(f)[15] == divergence_alerts(f.streams, f.now_ms),
{
    reveal(groups);
}

proof fn lemma_group_17(f: MeshFacts)
    ensures
        groups(f)[17] == trouble_alerts(
            StreamTrouble::Lagging,
            f.streams,
            f.local_node_id,
            f.relay_nodes,
            f.now_ms,
        ),
{
    reveal(groups);
}

proof fn lemma_group_16(f: MeshFacts)
    ensures
        groups(f)[16] == relay_alerts(f.relay_nodes, f.now_ms),
{
    reveal(groups);
}

/// The alerts of a code stand in the group that gives it, and nowhere else.
proof fn lemma_coded(f: MeshFacts, k: int, code: Seq<char>)
    requires
        0 <= k < 18,
        mark(code) == first_mark(k) || mark(code) == second_mark(k),
    ensures
        coded(alerts_of(f), code) == coded(groups(f)[k], code),
{
    lemma_alerts_are_groups(f);
    lemma_group_number(f);
    let g = groups(f);
    assert forall|j: int, i: int|
        0 <= j < g.len() && j != k && 0 <= i < g[j].len() implies (#[trigger] g[j][i]).code
        != code by {
        lemma_group_marks(f, j, i);
    }
    lemma_coded_in_one_group(g, k, code);
}

/// One alert, found by its code, and no other.
proof fn lemma_coded_one(alert: AlertModel, code: Seq<char>)
    ensures
        coded(seq![alert], code) == (if alert.code == code {
            seq![alert]
        } else {
            Seq::<AlertModel>::empty()
        }),
        coded(Seq::<AlertModel>::empty(), code) == Seq::<AlertModel>::empty(),
{
    reveal(Seq::filter);
    let one = seq![alert];
    assert(one.drop_last() =~= Seq::<AlertModel>::empty());
    assert(one.last() == alert);
    reveal_with_fuel(Seq::filter, 2);
    if alert.code == code {
        assert(Seq::<AlertModel>::empty().push(alert) =~= one);
    }
}

proof fn lemma_found(f: MeshFacts, k: int, code: Seq<char>)
    requires
        0 <= k < 18,
        mark(code) == first_mark(k) || mark(code) == second_mark(k),
        groups(f)[k].len() <= 1,
    ensures
        coded(alerts_of(f), code) == (if groups(f)[k].len() == 1 && groups(f)[k][0].code == code {
            groups(f)[k]
        } else {
            Seq::<AlertModel>::empty()
        }),
{
    lemma_coded(f, k, code);
    let group = groups(f)[k];
    if group.len() == 1 {
        assert(group =~= seq![group[0]]);
        lemma_coded_one(group[0], code);
    } else {
        assert(group =~= Seq::<AlertModel>::empty());
        lemma_coded_none(group, code);
    }
}

/// Whether the status of a command tells of a failure.
pub open spec fn tells_failure(command: ControlCommand) -> bool {
    says(command.status@, "failed"@) || says(command.status@, "timed out"@) || says(
        command.status@,
        "error"@,
    )
}

/// Whether the status of a command tells that it was skipped.
pub open spec fn tells_skip(command: ControlCommand) -> bool {
    says(command.status@, "skipped"@) && !tells_failure(command)
}

proof fn lemma_tally(commands: Seq<ControlCommand>)
    requires
        commands.len() <= usize::MAX,
    ensures
        tally(commands).failed == commands.filter(|c: ControlCommand| tells_failure(c)).len(),
        tally(commands).skipped == commands.filter(|c: ControlCommand| tells_skip(c)).len(),
        tally(commands).failed <= commands.len(),
        tally(commands).skipped <= commands.len(),
        forall|i: int|
            0 <= i < commands.len() && tells_failure(#[trigger] commands[i]) ==> tally(
                commands,
            ).failed > 0,
    decreases commands.len(),
{
    reveal(Seq::filter);
    if commands.len() > 0 {
        let front = commands.drop_last();
        lemma_tally(front);
        statuses_tell_outcomes(commands.last().status@);
        assert(commands.last() == commands[commands.len() - 1]);
        assert forall|i: int| 0 <= i < front.len() implies front[i] == #[trigger] commands[i] by {}
    }
}

proof fn lemma_last_issue(commands: Seq<ControlCommand>)
    ensures
        match tally(commands).last_issue {
            Some(time) => {
                &&& forall|i: int|
                    0 <= i < commands.len() && (tells_failure(#[trigger] commands[i]) || tells_skip(
                        commands[i],
                    )) ==> commands[i].created_unix_ms <= time
                &&& exists|i: int|
                    0 <= i < commands.len() && (tells_failure(#[trigger] commands[i]) || tells_skip(
                        commands[i],
                    )) && commands[i].created_unix_ms == time
            },
            None => forall|i: int|
                0 <= i < commands.len() ==> !tells_failure(#[trigger] commands[i]) && !tells_skip(
                    commands[i],
                ),
        },
    decreases commands.len(),
{
    if commands.len() > 0 {
        let front = commands.drop_last();
        let n = commands.len() - 1;
        lemma_last_issue(front);
        statuses_tell_outcomes(commands.last().status@);
        assert(commands.last() == commands[n]);
        assert forall|i: int| 0 <= i < n implies front[i] == #[trigger] commands[i] by {}
        match tally(front).last_issue {
            Some(time) => {
                let i = choose|i: int|
                    0 <= i < front.len() && (tells_failure(#[trigger] front[i]) || tells_skip(
                        front[i],
                    )) && front[i].created_unix_ms == time;
                assert(commands[i] == front[i]);
            },
            None => {},
        }
    }
}

/// Where the status of a recent command tells of a failure, the alerts hold exactly one of failed
/// commands: an error that counts them. Where none failed and some were skipped, they hold exactly
/// one of skipped commands, a warning that counts those; and neither otherwise.
pub proof fn failed_commands_are_reported(f: MeshFacts)
    requires
        f.commands.len() <= usize::MAX,
    ensures
        ({
            let failed = f.commands.filter(|c: ControlCommand| tells_failure(c)).len();
            let skipped = f.commands.filter(|c: ControlCommand| tells_skip(c)).len();
            &&& forall|i: int|
                0 <= i < f.commands.len() && tells_failure(#[trigger] f.commands[i]) ==> failed > 0
            &&& failed > 0 ==> has_one(f, "control_failures"@, "error"@, failed as int) && has_none(
                f,
                "control_skipped"@,
            )
            &&& failed == 0 ==> has_none(f, "control_failures"@)
            &&& failed == 0 && skipped > 0 ==> has_one(
                f,
                "control_skipped"@,
                "warn"@,
                skipped as int,
            )
            &&& skipped == 0 ==> has_none(f, "control_skipped"@)
        }),
{
    lemma_marks();
    lemma_tally(f.commands);
    lemma_group_6(f);
    lemma_found(f, 6, "control_failures"@);
    lemma_found(f, 6, "control_skipped"@);
    assert(mark("control_failures"@) != mark("control_skipped"@));
}

/// The alert of commands that failed or were skipped is dated by the latest of them.
pub proof fn command_alerts_are_dated_by_the_latest(f: MeshFacts, i: int, code: Seq<char>)
    requires
        0 <= i < coded(alerts_of(f), code).len(),
        code == "control_failures"@ || code == "control_skipped"@,
    ensures
        coded(alerts_of(f), code)[i].last_seen_unix_ms is Some,
        forall|j: int|
            0 <= j < f.commands.len() && (tells_failure(#[trigger] f.commands[j]) || tells_skip(
                f.commands[j],
            )) ==> f.commands[j].created_unix_ms <= coded(
                alerts_of(f),
                code,
            )[i].last_seen_unix_ms->0,
        exists|j: int|
            0 <= j < f.commands.len() && (tells_failure(#[trigger] f.commands[j]) || tells_skip(
                f.commands[j],
            )) && f.commands[j].created_unix_ms == coded(alerts_of(f), code)[i].last_seen_unix_ms->0,
{
    lemma_marks();
    lemma_group_6(f);
    lemma_found(f, 6, code);
    lemma_last_issue(f.commands);
    lemma_issue_dated(f.commands);
}

proof fn lemma_issue_dated(commands: Seq<ControlCommand>)
    ensures
        tally(commands).failed > 0 || tally(commands).skipped > 0 ==> tally(commands).last_issue
            is Some,
    decreases commands.len(),
{
    if commands.len() > 0 {
        lemma_issue_dated(commands.drop_last());
    }
}

/// A mesh of one node is reported; one of several nodes without any link or session is an error.
pub proof fn lone_nodes_are_reported(f: MeshFacts)
    ensures
        f.aggregate.node_count <= 1 ==> has_one(
            f,
            "mesh_single_node"@,
            "warn"@,
            f.aggregate.node_count as int,
        ) && has_none(f, "mesh_no_links"@),
        f.aggregate.node_count > 1 ==> has_none(f, "mesh_single_node"@),
        f.aggregate.node_count > 1 && f.aggregate.connection_count == 0
            && f.relay.controlled_sessions == 0 && f.relay.authenticated_sessions == 0 ==> has_one(
            f,
            "mesh_no_links"@,
            "error"@,
            f.aggregate.node_count as int,
        ),
        f.aggregate.connection_count > 0 || f.relay.controlled_sessions > 0
            || f.relay.authenticated_sessions > 0 ==> has_none(f, "mesh_no_links"@),
{
    lemma_marks();
    lemma_group_0(f);
    lemma_found(f, 0, "mesh_single_node"@);
    lemma_found(f, 0, "mesh_no_links"@);
    assert(mark("mesh_single_node"@) != mark("mesh_no_links"@));
}

proof fn lemma_counts_of_links(connections: Seq<ConnectionSnapshot>)
    ensures
        unknown_count(connections) == connections.filter(
            |c: ConnectionSnapshot| c.target_node_id is None,
        ).len(),
        unknown_count(connections) <= connections.len(),
    decreases connections.len(),
{
    reveal(Seq::filter);
    if connections.len() > 0 {
        lemma_counts_of_links(connections.drop_last());
    }
}

/// Whether a node's storage is used to a percentage or beyond; what does not fit a number counts
/// as the largest.
pub open spec fn filled(node: MeshNode, percent: int) -> bool {
    node.total_storage_bytes > 0 && (if node.used_storage_bytes * 100 > u64::MAX {
        u64::MAX as int
    } else {
        node.used_storage_bytes * 100
    }) >= percent * node.total_storage_bytes
}

proof fn lemma_filled(node: MeshNode, percent: u64)
    requires
        percent > 0,
    ensures
        filled(node, percent as int) == (node.used_percent() >= percent),
{
    if node.total_storage_bytes > 0 {
        let scaled: int = if node.used_storage_bytes * 100 > u64::MAX {
            u64::MAX as int
        } else {
            node.used_storage_bytes * 100
        };
        let total = node.total_storage_bytes as int;
        let p = percent as int;
        assert(0 <= scaled / total <= scaled) by (nonlinear_arith)
            requires
                scaled >= 0,
                total > 0,
        ;
        assert((scaled >= p * total) == (scaled / total >= p)) by (nonlinear_arith)
            requires
                scaled >= 0,
                total > 0,
        ;
    }
}

proof fn lemma_counts_of_nodes(nodes: Seq<MeshNode>)
    ensures
        draining_count(nodes) == nodes.filter(|n: MeshNode| n.draining).len(),
        draining_count(nodes) <= nodes.len(),
        full_count(nodes, 95) == nodes.filter(|n: MeshNode| filled(n, 95)).len(),
        full_count(nodes, 95) <= nodes.len(),
        full_count(nodes, 85) == nodes.filter(|n: MeshNode| filled(n, 85)).len(),
        full_count(nodes, 85) <= nodes.len(),
    decreases nodes.len(),
{
    reveal(Seq::filter);
    if nodes.len() > 0 {
        lemma_counts_of_nodes(nodes.drop_last());
        lemma_filled(nodes.last(), 95);
        lemma_filled(nodes.last(), 85);
    }
}

proof fn lemma_counts_of_edges(edges: Seq<EdgeServiceSnapshot>)
    ensures
        addressless_count(edges) == edges.filter(
            |e: EdgeServiceSnapshot| e.playback_base_url is None,
        ).len(),
        addressless_count(edges) <= edges.len(),
        error_total(edges) == edges.fold_left(
            0int,
            |sum: int, e: EdgeServiceSnapshot| sum + e.response_errors,
        ),
    decreases edges.len(),
{
    reveal(Seq::filter);
    reveal_with_fuel(Seq::fold_left, 2);
    if edges.len() > 0 {
        lemma_counts_of_edges(edges.drop_last());
    }
}

/// Links to addresses of no known node are reported by one warning that counts them.
pub proof fn unknown_peers_are_reported(f: MeshFacts)
    requires
        f.connections.len() <= usize::MAX,
    ensures
        ({
            let count = f.connections.filter(
                |c: ConnectionSnapshot| c.target_node_id is None,
            ).len();
            &&& count > 0 ==> has_one(f, "mesh_unknown_peers"@, "warn"@, count as int)
            &&& count == 0 ==> has_none(f, "mesh_unknown_peers"@)
        }),
{
    lemma_marks();
    lemma_counts_of_links(f.connections);
    lemma_group_1(f);
    lemma_found(f, 1, "mesh_unknown_peers"@);
}

/// Nodes that drain are reported by one warning that counts them, nodes without a playback
/// address by another.
pub proof fn draining_nodes_are_reported(f: MeshFacts)
    requires
        f.nodes.len() <= usize::MAX,
        f.edges.len() <= usize::MAX,
    ensures
        ({
            let draining = f.nodes.filter(|n: MeshNode| n.draining).len();
            let silent = f.edges.filter(
                |e: EdgeServiceSnapshot| e.playback_base_url is None,
            ).len();
            &&& draining > 0 ==> has_one(f, "nodes_draining"@, "warn"@, draining as int)
            &&& draining == 0 ==> has_none(f, "nodes_draining"@)
            &&& silent > 0 ==> has_one(f, "edge_playback_missing"@, "warn"@, silent as int)
            &&& silent == 0 ==> has_none(f, "edge_playback_missing"@)
        }),
{
    lemma_marks();
    lemma_counts_of_nodes(f.nodes);
    lemma_counts_of_edges(f.edges);
    lemma_group_2(f);
    lemma_found(f, 2, "nodes_draining"@);
    lemma_group_3(f);
    lemma_found(f, 3, "edge_playback_missing"@);
}

/// Nodes that use 95 in a hundred of their storage or more are reported by one error that counts
/// them; where there are none, those that use 85 in a hundred or more by one warning.
pub proof fn full_nodes_are_reported(f: MeshFacts)
    requires
        f.nodes.len() <= usize::MAX,
    ensures
        ({
            let exhausted = f.nodes.filter(|n: MeshNode| filled(n, 95)).len();
            let pressed = f.nodes.filter(|n: MeshNode| filled(n, 85)).len();
            &&& exhausted > 0 ==> has_one(f, "storage_exhausted"@, "error"@, exhausted as int)
                && has_none(f, "storage_pressure"@)
            &&& exhausted == 0 ==> has_none(f, "storage_exhausted"@)
            &&& exhausted == 0 && pressed > 0 ==> has_one(
                f,
                "storage_pressure"@,
                "warn"@,
                pressed as int,
            )
            &&& pressed == 0 ==> has_none(f, "storage_pressure"@)
        }),
{
    lemma_marks();
    lemma_counts_of_nodes(f.nodes);
    lemma_group_5(f);
    lemma_found(f, 5, "storage_exhausted"@);
    lemma_found(f, 5, "storage_pressure"@);
    assert(mark("storage_exhausted"@) != mark("storage_pressure"@));
}

/// Whether an edge tells of a response that was no success.
pub open spec fn tells_error(edges: Seq<EdgeServiceSnapshot>, e: int, k: int) -> bool {
    0 <= e < edges.len() && 0 <= k < edges[e].recent_responses@.len()
        && edges[e].recent_responses@[k].status >= 400
}

/// Whether no response among the errors of some edges is later than a given time.
pub open spec fn latest_at(edges: Seq<EdgeServiceSnapshot>, time: u64) -> bool {
    forall|e: int, k: int| #[trigger]
        tells_error(edges, e, k) ==> edges[e].recent_responses@[k].unix_ms <= time
}

spec fn picked(edges: Seq<EdgeServiceSnapshot>, e: int, k: int, model: EdgeErrorModel) -> bool {
    tells_error(edges, e, k) && model.node_id == edges[e].node_id@ && model.response
        == edges[e].recent_responses@[k]
}

/// The responses of the first edges, and of one more up to a place.
spec fn told_before(edges: Seq<EdgeServiceSnapshot>, e: int, k: int, upto: int) -> bool {
    tells_error(edges, e, k) && (e < edges.len() - 1 || k < upto)
}

proof fn lemma_latest_error_within(edges: Seq<EdgeServiceSnapshot>, upto: int)
    requires
        edges.len() > 0,
        0 <= upto <= edges.last().recent_responses@.len(),
        match latest_error(edges.drop_last()) {
            Some(model) => {
                &&& exists|e: int, k: int| #[trigger] picked(edges.drop_last(), e, k, model)
                &&& latest_at(edges.drop_last(), model.response.unix_ms)
            },
            None => forall|e: int, k: int| !#[trigger] tells_error(edges.drop_last(), e, k),
        },
    ensures
        match latest_error_within(latest_error(edges.drop_last()), edges.last(), upto) {
            Some(model) => {
                &&& exists|e: int, k: int| #[trigger] picked(edges, e, k, model)
                &&& forall|e: int, k: int| #[trigger]
                    told_before(edges, e, k, upto) ==> edges[e].recent_responses@[k].unix_ms
                        <= model.response.unix_ms
            },
            None => forall|e: int, k: int| !#[trigger] told_before(edges, e, k, upto),
        },
    decreases upto,
{
    let front = edges.drop_last();
    let n = edges.len() - 1;
    assert(edges.last() == edges[n]);
    assert forall|e: int| 0 <= e < n implies front[e] == #[trigger] edges[e] by {}
    if upto == 0 {
        assert forall|e: int, k: int| #[trigger]
            told_before(edges, e, k, 0) implies tells_error(front, e, k) && front[e]
            == edges[e] by {}
        match latest_error(front) {
            Some(model) => {
                let (e, k) = choose|e: int, k: int| #[trigger] picked(front, e, k, model);
                assert(front[e] == edges[e]);
                assert(picked(edges, e, k, model));
            },
            None => {},
        }
    } else {
        lemma_latest_error_within(edges, upto - 1);
        let before = latest_error_within(latest_error(front), edges.last(), upto - 1);
        assert forall|e: int, k: int| #[trigger]
            told_before(edges, e, k, upto) implies told_before(edges, e, k, upto - 1) || (e == n
            && k == upto - 1) by {}
        let response = edges.last().recent_responses@[upto - 1];
        if response.status >= 400 {
            let own = EdgeErrorModel { node_id: edges.last().node_id@, response };
            assert(picked(edges, n, upto - 1, own));
            assert(told_before(edges, n, upto - 1, upto));
        } else {
            assert(!tells_error(edges, n, upto - 1));
        }
        match latest_error_within(latest_error(front), edges.last(), upto) {
            Some(model) => {
                assert forall|e: int, k: int| #[trigger]
                    told_before(edges, e, k, upto) implies edges[e].recent_responses@[k].unix_ms
                    <= model.response.unix_ms by {
                    if told_before(edges, e, k, upto - 1) {
                    }
                }
            },
            None => {
                assert forall|e: int, k: int| !#[trigger] told_before(edges, e, k, upto) by {
                    assert(!told_before(edges, e, k, upto - 1));
                }
            },
        }
    }
}

proof fn lemma_latest_error(edges: Seq<EdgeServiceSnapshot>)
    ensures
        match latest_error(edges) {
            Some(model) => {
                &&& exists|e: int, k: int| #[trigger] picked(edges, e, k, model)
                &&& latest_at(edges, model.response.unix_ms)
            },
            None => forall|e: int, k: int| !#[trigger] tells_error(edges, e, k),
        },
    decreases edges.len(),
{
    if edges.len() > 0 {
        lemma_latest_error(edges.drop_last());
        let upto = edges.last().recent_responses@.len() as int;
        lemma_latest_error_within(edges, upto);
        assert(edges.last() == edges[edges.len() - 1]);
        assert forall|e: int, k: int| #[trigger] tells_error(edges, e, k) implies told_before(
            edges,
            e,
            k,
            upto,
        ) by {}
    }
}

/// Whether an alert tells of a response of an edge: when it was sent, by which node, and as an
/// error where the server was at fault.
pub open spec fn tells_of_response(
    alert: AlertModel,
    edges: Seq<EdgeServiceSnapshot>,
    e: int,
    k: int,
) -> bool {
    let response = edges[e].recent_responses@[k];
    &&& tells_error(edges, e, k)
    &&& alert.last_seen_unix_ms == Some(response.unix_ms)
    &&& alert.node_id == Some(edges[e].node_id@)
    &&& alert.level == (if response.status >= 500 {
        "error"@
    } else {
        "warn"@
    })
}

/// Responses that were no success are reported by one alert that counts them all. It tells of the
/// latest that is known; where none is known, it is a warning of now.
pub proof fn failed_responses_are_reported(f: MeshFacts)
    requires
        error_total(f.edges) <= u64::MAX,
    ensures
        ({
            let total = f.edges.fold_left(
                0int,
                |sum: int, e: EdgeServiceSnapshot| sum + e.response_errors,
            );
            let found = coded(alerts_of(f), "edge_response_errors"@);
            &&& total == 0 ==> found.len() == 0
            &&& total > 0 ==> found.len() == 1 && found[0].count == total
            &&& total > 0 && (exists|e: int, k: int| #[trigger] tells_error(f.edges, e, k)) ==> (
            exists|e: int, k: int| #[trigger] tells_of_response(found[0], f.edges, e, k))
                && found[0].last_seen_unix_ms is Some && latest_at(
                f.edges,
                found[0].last_seen_unix_ms->0,
            )
            &&& total > 0 && !(exists|e: int, k: int| #[trigger] tells_error(f.edges, e, k))
                ==> found[0].level == "warn"@ && found[0].last_seen_unix_ms == Some(f.now_ms)
                && found[0].node_id is None
        }),
{
    lemma_marks();
    lemma_counts_of_edges(f.edges);
    lemma_group_4(f);
    lemma_found(f, 4, "edge_response_errors"@);
    lemma_latest_error(f.edges);
    let found = coded(alerts_of(f), "edge_response_errors"@);
    if error_total(f.edges) > 0 {
        match latest_error(f.edges) {
            Some(model) => {
                let (e, k) = choose|e: int, k: int| #[trigger] picked(f.edges, e, k, model);
                assert(tells_of_response(found[0], f.edges, e, k));
            },
            None => {},
        }
    }
}

/// Provisioning at Linode without private discovery is reported by one warning of this node.
pub proof fn missing_discovery_is_reported(f: MeshFacts)
    ensures
        ({
            let at_linode = exists|i: int|
                0 <= i < f.provision.backends@.len() && (#[trigger] f.provision.backends@[i])@
                    == "linode"@;
            let found = coded(alerts_of(f), "linode_private_discovery_inactive"@);
            &&& at_linode && !f.discovery.enabled ==> found.len() == 1 && found[0].level == "warn"@
                && found[0].count == 1 && found[0].node_id == Some(f.local_node_id)
            &&& !at_linode || f.discovery.enabled ==> found.len() == 0
        }),
{
    lemma_marks();
    lemma_group_7(f);
    lemma_found(f, 7, "linode_private_discovery_inactive"@);
    let backends = f.provision.backends@;
    if exists|i: int| 0 <= i < backends.len() && (#[trigger] backends[i])@ == "linode"@ {
        let i = choose|i: int| 0 <= i < backends.len() && (#[trigger] backends[i])@ == "linode"@;
        assert(views(backends)[i] == "linode"@);
    }
    if lists(backends, "linode"@) {
        let i = choose|i: int|
            0 <= i < views(backends).len() && views(backends)[i] == "linode"@;
        assert(backends[i]@ == "linode"@);
    }
}

proof fn lemma_counts_of_peers(peers: Seq<TelemetryPeerStatus>)
    ensures
        unavailable_count(peers) == peers.filter(
            |p: TelemetryPeerStatus| p.state@ != "connected"@,
        ).len(),
        unavailable_count(peers) <= peers.len(),
    decreases peers.len(),
{
    reveal(Seq::filter);
    if peers.len() > 0 {
        lemma_counts_of_peers(peers.drop_last());
    }
}

proof fn lemma_counts_of_backends(backends: Seq<ProvisionBackendStatus>)
    ensures
        blocked_count(backends) == backends.filter(
            |b: ProvisionBackendStatus| b.state@ != "ready"@,
        ).len(),
        blocked_count(backends) <= backends.len(),
    decreases backends.len(),
{
    reveal(Seq::filter);
    if backends.len() > 0 {
        lemma_counts_of_backends(backends.drop_last());
    }
}

/// Telemetry peers that are not connected are reported by one warning that counts them, and
/// backends that are not ready by another.
pub proof fn peers_and_backends_are_reported(f: MeshFacts)
    requires
        f.telemetry_peers.len() <= usize::MAX,
        f.provision.backend_statuses@.len() <= usize::MAX,
    ensures
        ({
            let peers = f.telemetry_peers.filter(
                |p: TelemetryPeerStatus| p.state@ != "connected"@,
            ).len();
            let backends = f.provision.backend_statuses@.filter(
                |b: ProvisionBackendStatus| b.state@ != "ready"@,
            ).len();
            &&& peers > 0 ==> has_one(f, "telemetry_peer_unavailable"@, "warn"@, peers as int)
            &&& peers == 0 ==> has_none(f, "telemetry_peer_unavailable"@)
            &&& backends > 0 ==> has_one(f, "provision_backend_blocked"@, "warn"@, backends as int)
            &&& backends == 0 ==> has_none(f, "provision_backend_blocked"@)
        }),
{
    lemma_marks();
    lemma_counts_of_peers(f.telemetry_peers);
    lemma_counts_of_backends(f.provision.backend_statuses@);
    lemma_group_8(f);
    lemma_found(f, 8, "telemetry_peer_unavailable"@);
    lemma_group_10(f);
    lemma_found(f, 10, "provision_backend_blocked"@);
}

/// When a telemetry peer was last heard of: by a payload, else by its connection.
pub open spec fn heard_at(peer: TelemetryPeerStatus) -> int {
    if peer.last_payload_unix_ms is Some {
        peer.last_payload_unix_ms->0 as int
    } else if peer.last_connected_unix_ms is Some {
        peer.last_connected_unix_ms->0 as int
    } else {
        0
    }
}

/// Of the telemetry peers that are not connected, the one that is named was heard of last.
pub proof fn the_latest_lost_peer_is_named(peers: Seq<TelemetryPeerStatus>)
    ensures
        match latest_unavailable(peers) {
            Some(i) => {
                &&& 0 <= i < peers.len()
                &&& peers[i].state@ != "connected"@
                &&& forall|j: int|
                    0 <= j < peers.len() && (#[trigger] peers[j]).state@ != "connected"@
                        ==> heard_at(peers[j]) <= heard_at(peers[i])
                &&& forall|j: int|
                    i < j < peers.len() && (#[trigger] peers[j]).state@ != "connected"@
                        ==> heard_at(peers[j]) < heard_at(peers[i])
            },
            None => forall|j: int|
                0 <= j < peers.len() ==> (#[trigger] peers[j]).state@ == "connected"@,
        },
    decreases peers.len(),
{
    if peers.len() > 0 {
        let front = peers.drop_last();
        the_latest_lost_peer_is_named(front);
        assert forall|j: int| 0 <= j < front.len() implies front[j] == #[trigger] peers[j] by {}
        assert(peers.last() == peers[peers.len() - 1]);
    }
}

/// Telemetry that has aged out is reported by one warning that counts it, dated and signed by the
/// node among it that was updated last.
pub proof fn stale_telemetry_is_reported(f: MeshFacts)
    ensures
        ({
            let nodes = f.telemetry.stale_nodes@;
            let found = coded(alerts_of(f), "telemetry_snapshot_stale"@);
            &&& f.telemetry.stale_remote_count == 0 ==> found.len() == 0
            &&& f.telemetry.stale_remote_count > 0 ==> found.len() == 1 && found[0].level
                == "warn"@ && found[0].count == f.telemetry.stale_remote_count
            &&& f.telemetry.stale_remote_count > 0 && nodes.len() == 0
                ==> found[0].last_seen_unix_ms is None && found[0].node_id is None
            &&& f.telemetry.stale_remote_count > 0 && nodes.len() > 0 ==> exists|i: int|
                0 <= i < nodes.len() && found[0].last_seen_unix_ms == Some(
                    (#[trigger] nodes[i]).updated_unix_ms,
                ) && found[0].node_id == Some(nodes[i].node_id@) && forall|j: int|
                    0 <= j < nodes.len() ==> (#[trigger] nodes[j]).updated_unix_ms
                        <= nodes[i].updated_unix_ms
        }),
{
    lemma_marks();
    lemma_group_9(f);
    lemma_found(f, 9, "telemetry_snapshot_stale"@);
    lemma_latest_stale(f.telemetry.stale_nodes@);
}

proof fn lemma_latest_stale(nodes: Seq<TelemetryNodeHealth>)
    ensures
        match latest_stale(nodes) {
            Some(i) => 0 <= i < nodes.len() && forall|j: int|
                0 <= j < nodes.len() ==> (#[trigger] nodes[j]).updated_unix_ms
                    <= nodes[i].updated_unix_ms,
            None => nodes.len() == 0,
        },
    decreases nodes.len(),
{
    if nodes.len() > 0 {
        let front = nodes.drop_last();
        lemma_latest_stale(front);
        assert forall|j: int| 0 <= j < front.len() implies front[j] == #[trigger] nodes[j] by {}
        assert(nodes.last() == nodes[nodes.len() - 1]);
    }
}

/// A local stream with a part of its own is reported where nothing arrived for longer than its
/// window lasts and for longer than five seconds; the alert is dated by the last arrival.
pub proof fn a_silent_local_stream_is_reported(f: MeshFacts)
    ensures
        ({
            let s = f.local_stream;
            let found = coded(alerts_of(f), "local_ingest_stale"@);
            let silent = s.latest_local_part is Some && s.last_ingest_age_ms is Some
                && s.last_ingest_age_ms->0 > 5_000 && s.last_ingest_age_ms->0 > s.part_target_ms
                * s.window_parts;
            &&& !silent ==> found.len() == 0
            &&& silent ==> found.len() == 1 && found[0].level == "warn"@ && found[0].count == 1
                && found[0].stream_id_text == Some(s.stream_id_text@)
            &&& silent && f.now_ms >= s.last_ingest_age_ms->0 ==> found[0].last_seen_unix_ms
                is Some && found[0].last_seen_unix_ms->0 + s.last_ingest_age_ms->0 == f.now_ms
            &&& silent && f.now_ms < s.last_ingest_age_ms->0 ==> found[0].last_seen_unix_ms is None
        }),
{
    lemma_marks();
    lemma_group_11(f);
    lemma_found(f, 11, "local_ingest_stale"@);
}

/// Whether a stream is in a trouble: it is another node's, active, and silent for longer than it
/// may be; it has gaps; its epoch took longer than ten seconds to begin; or it lags by more than
/// six parts on a node that no relay controls.
pub open spec fn suffers(
    trouble: StreamTrouble,
    s: TelemetryModel,
    local_node_id: Seq<char>,
    relay_nodes: Seq<RelayNodeSessionSnapshot>,
) -> bool {
    match trouble {
        StreamTrouble::Stale => s.node_id != local_node_id && (s.latest_local_part is Some
            || s.latest_mesh_part is Some || s.head_object is Some) && s.last_ingest_age_ms is Some
            && (s.stale_threshold_ms is Some ==> s.last_ingest_age_ms->0 > s.stale_threshold_ms->0)
            && (s.stale_threshold_ms is None ==> s.last_ingest_age_ms->0 > 5_000),
        StreamTrouble::Gap => s.gap_count is Some && s.gap_count->0 > 0,
        StreamTrouble::SlowEpoch => s.canonical_epoch_activation_delay_us is Some
            && s.canonical_epoch_activation_delay_us->0 > 10_000_000,
        StreamTrouble::Lagging => s.mesh_lag_parts is Some && s.mesh_lag_parts->0 > 6 && forall|
            i: int,
        |
            0 <= i < relay_nodes.len() && (#[trigger] relay_nodes[i]).node_id@ == s.node_id
                ==> relay_nodes[i].relay_session.controlled_sessions == 0,
    }
}

/// By what the streams in a trouble are compared: the time of the last arrival, the gaps, the
/// delay of the epoch, the lag.
pub open spec fn severity(trouble: StreamTrouble, s: TelemetryModel, now_ms: u64) -> int {
    match trouble {
        StreamTrouble::Stale => if now_ms >= s.last_ingest_age_ms->0 {
            now_ms - s.last_ingest_age_ms->0
        } else {
            0
        },
        StreamTrouble::Gap => s.gap_count->0 as int,
        StreamTrouble::SlowEpoch => s.canonical_epoch_activation_delay_us->0 as int,
        StreamTrouble::Lagging => s.mesh_lag_parts->0 as int,
    }
}

/// The code that a trouble is reported by.
pub open spec fn reported_as(trouble: StreamTrouble) -> Seq<char> {
    match trouble {
        StreamTrouble::Stale => "mesh_stream_stale"@,
        StreamTrouble::Gap => "canonical_publication_gap"@,
        StreamTrouble::SlowEpoch => "canonical_epoch_activation_slow"@,
        StreamTrouble::Lagging => "mesh_stream_lagging"@,
    }
}

proof fn lemma_suffers(
    trouble: StreamTrouble,
    s: TelemetryModel,
    local_node_id: Seq<char>,
    relay_nodes: Seq<RelayNodeSessionSnapshot>,
    now_ms: u64,
)
    ensures
        match trouble_key(trouble, s, local_node_id, relay_nodes, now_ms) {
            Some(key) => suffers(trouble, s, local_node_id, relay_nodes) && key == severity(
                trouble,
                s,
                now_ms,
            ),
            None => !suffers(trouble, s, local_node_id, relay_nodes),
        },
{
    if controlled(relay_nodes, s.node_id) {
        let i = choose|i: int|
            0 <= i < relay_nodes.len() && (#[trigger] relay_nodes[i]).node_id@ == s.node_id
                && relay_nodes[i].relay_session.controlled_sessions > 0;
        assert(relay_nodes[i].relay_session.controlled_sessions > 0);
    }
}

proof fn lemma_trouble_count(
    trouble: StreamTrouble,
    streams: Seq<TelemetryModel>,
    local_node_id: Seq<char>,
    relay_nodes: Seq<RelayNodeSessionSnapshot>,
    now_ms: u64,
)
    ensures
        trouble_count(trouble, streams, local_node_id, relay_nodes, now_ms) == streams.filter(
            |s: TelemetryModel| suffers(trouble, s, local_node_id, relay_nodes),
        ).len(),
        trouble_count(trouble, streams, local_node_id, relay_nodes, now_ms) <= streams.len(),
        worst(trouble, streams, local_node_id, relay_nodes, now_ms) is Some <==> trouble_count(
            trouble,
            streams,
            local_node_id,
            relay_nodes,
            now_ms,
        ) > 0,
    decreases streams.len(),
{
    reveal(Seq::filter);
    if streams.len() > 0 {
        lemma_trouble_count(trouble, streams.drop_last(), local_node_id, relay_nodes, now_ms);
        lemma_suffers(trouble, streams.last(), local_node_id, relay_nodes, now_ms);
    }
}

/// Whether a stream is the last of those that suffer most from a trouble.
pub open spec fn suffers_most(f: MeshFacts, trouble: StreamTrouble, i: int) -> bool {
    &&& 0 <= i < f.streams.len()
    &&& suffers(trouble, f.streams[i], f.local_node_id, f.relay_nodes)
    &&& forall|j: int|
        0 <= j < f.streams.len() && suffers(
            trouble,
            #[trigger] f.streams[j],
            f.local_node_id,
            f.relay_nodes,
        ) ==> severity(trouble, f.streams[j], f.now_ms) <= severity(
            trouble,
            f.streams[i],
            f.now_ms,
        ) && (j > i ==> severity(trouble, f.streams[j], f.now_ms) < severity(
            trouble,
            f.streams[i],
            f.now_ms,
        ))
}

proof fn lemma_worst(f: MeshFacts, trouble: StreamTrouble)
    ensures
        match worst(trouble, f.streams, f.local_node_id, f.relay_nodes, f.now_ms) {
            Some((i, key)) => suffers_most(f, trouble, i) && key == severity(
                trouble,
                f.streams[i],
                f.now_ms,
            ),
            None => forall|j: int|
                0 <= j < f.streams.len() ==> !suffers(
                    trouble,
                    #[trigger] f.streams[j],
                    f.local_node_id,
                    f.relay_nodes,
                ),
        },
    decreases f.streams.len(),
{
    if f.streams.len() > 0 {
        let front = MeshFacts { streams: f.streams.drop_last(), ..f };
        lemma_worst(front, trouble);
        lemma_suffers(trouble, f.streams.last(), f.local_node_id, f.relay_nodes, f.now_ms);
        assert(f.streams.last() == f.streams[f.streams.len() - 1]);
        assert forall|j: int| 0 <= j < front.streams.len() implies front.streams[j]
            == #[trigger] f.streams[j] by {}
    }
}

proof fn lemma_trouble(f: MeshFacts, k: int, trouble: StreamTrouble)
    requires
        f.streams.len() <= usize::MAX,
        0 <= k < 18,
        groups(f)[k] == trouble_alerts(
            trouble,
            f.streams,
            f.local_node_id,
            f.relay_nodes,
            f.now_ms,
        ),
        mark(reported_as(trouble)) == first_mark(k),
    ensures
        ({
            let count = f.streams.filter(
                |s: TelemetryModel| suffers(trouble, s, f.local_node_id, f.relay_nodes),
            ).len();
            let found = coded(alerts_of(f), reported_as(trouble));
            &&& count == 0 ==> found.len() == 0
            &&& count > 0 ==> found.len() == 1 && found[0].level == "warn"@ && found[0].count
                == count && exists|i: int| #[trigger]
                suffers_most(f, trouble, i) && found[0].node_id == Some(f.streams[i].node_id)
                    && found[0].stream_id_text == Some(f.streams[i].stream_id_text)
                    && found[0].last_seen_unix_ms is Some && found[0].last_seen_unix_ms->0 == (
                if trouble is Stale {
                    severity(trouble, f.streams[i], f.now_ms)
                } else {
                    f.now_ms as int
                })
        }),
{
    lemma_trouble_count(trouble, f.streams, f.local_node_id, f.relay_nodes, f.now_ms);
    lemma_worst(f, trouble);
    lemma_found(f, k, reported_as(trouble));
}

/// Streams in a trouble are reported by one warning of that trouble. It counts them, and names the
/// one that suffers most: the latest of the stale ones, else the one with the largest number.
pub proof fn troubled_streams_are_reported(f: MeshFacts, trouble: StreamTrouble)
    requires
        f.streams.len() <= usize::MAX,
    ensures
        ({
            let count = f.streams.filter(
                |s: TelemetryModel| suffers(trouble, s, f.local_node_id, f.relay_nodes),
            ).len();
            let found = coded(alerts_of(f), reported_as(trouble));
            &&& count == 0 ==> found.len() == 0
            &&& count > 0 ==> found.len() == 1 && found[0].level == "warn"@ && found[0].count
                == count && exists|i: int| #[trigger]
                suffers_most(f, trouble, i) && found[0].node_id == Some(f.streams[i].node_id)
                    && found[0].stream_id_text == Some(f.streams[i].stream_id_text)
                    && found[0].last_seen_unix_ms is Some && found[0].last_seen_unix_ms->0 == (
                if trouble is Stale {
                    severity(trouble, f.streams[i], f.now_ms)
                } else {
                    f.now_ms as int
                })
        }),
{
    lemma_marks();
    match trouble {
        StreamTrouble::Stale => {
            lemma_group_12(f);
            lemma_trouble(f, 12, trouble);
        },
        StreamTrouble::Gap => {
            lemma_group_13(f);
            lemma_trouble(f, 13, trouble);
        },
        StreamTrouble::SlowEpoch => {
            lemma_group_14(f);
            lemma_trouble(f, 14, trouble);
        },
        StreamTrouble::Lagging => {
            lemma_group_17(f);
            lemma_trouble(f, 17, trouble);
        },
    }
}

/// Whether two accounts tell of one stream in two epochs.
pub open spec fn diverge(a: TelemetryModel, b: TelemetryModel) -> bool {
    a.stream_id == b.stream_id && a.canonical_epoch is Some && b.canonical_epoch is Some
        && a.canonical_epoch->0 != b.canonical_epoch->0
}

/// A stream that nodes tell of in several epochs is reported by one warning, the first such stream
/// by its number, with the number of its epochs.
pub proof fn divergent_streams_are_reported(f: MeshFacts)
    requires
        f.streams.len() <= usize::MAX,
    ensures
        ({
            let found = coded(alerts_of(f), "canonical_epoch_divergence"@);
            &&& (exists|i: int, j: int|
                0 <= i < f.streams.len() && 0 <= j < f.streams.len() && #[trigger] diverge(
                    f.streams[i],
                    f.streams[j],
                )) ==> found.len() == 1
            &&& found.len() <= 1
            &&& found.len() == 1 ==> found[0].level == "warn"@ && exists|i: int|
                0 <= i < f.streams.len() && found[0].stream_id_text == Some(
                    decimal((#[trigger] f.streams[i]).stream_id as nat),
                ) && found[0].count == epochs_of(f.streams, f.streams[i].stream_id).len() && (
                exists|a: int, b: int|
                    0 <= a < f.streams.len() && 0 <= b < f.streams.len() && f.streams[a].stream_id
                        == f.streams[i].stream_id && #[trigger] diverge(f.streams[a], f.streams[b]))
                    && forall|j: int, b: int|
                    0 <= j < i && 0 <= b < f.streams.len() ==> !#[trigger] diverge(
                        f.streams[j],
                        f.streams[b],
                    )
        }),
{
    lemma_marks();
    lemma_group_15(f);
    lemma_found(f, 15, "canonical_epoch_divergence"@);
    lemma_first_divergent(f.streams, 0);
    match first_divergent(f.streams, 0) {
        Some(i) => {
            let id = f.streams[i].stream_id;
            epochs_are_counted(f.streams, id);
            let (a, b) = choose|a: int, b: int|
                0 <= a < f.streams.len() && 0 <= b < f.streams.len() && #[trigger] two_epochs(
                    f.streams,
                    id,
                    a,
                    b,
                );
            assert(diverge(f.streams[a], f.streams[b]));
            assert forall|j: int, c: int|
                0 <= j < i && 0 <= c < f.streams.len() implies !#[trigger] diverge(
                f.streams[j],
                f.streams[c],
            ) by {
                epochs_are_counted(f.streams, f.streams[j].stream_id);
                if diverge(f.streams[j], f.streams[c]) {
                    assert(two_epochs(f.streams, f.streams[j].stream_id, j, c));
                }
            }
        },
        None => {
            assert forall|i: int, j: int|
                0 <= i < f.streams.len() && 0 <= j < f.streams.len() implies !#[trigger] diverge(
                f.streams[i],
                f.streams[j],
            ) by {
                epochs_are_counted(f.streams, f.streams[i].stream_id);
                if diverge(f.streams[i], f.streams[j]) {
                    assert(two_epochs(f.streams, f.streams[i].stream_id, i, j));
                }
            }
        },
    }
}

proof fn lemma_first_divergent(streams: Seq<TelemetryModel>, from: int)
    requires
        0 <= from <= streams.len(),
    ensures
        match first_divergent(streams, from) {
            Some(i) => from <= i < streams.len() && epoch_count(streams, streams[i].stream_id) > 1
                && forall|j: int|
                from <= j < i ==> epoch_count(streams, (#[trigger] streams[j]).stream_id) <= 1,
            None => forall|j: int|
                from <= j < streams.len() ==> epoch_count(
                    streams,
                    (#[trigger] streams[j]).stream_id,
                ) <= 1,
        },
    decreases streams.len() - from,
{
    if from < streams.len() && epoch_count(streams, streams[from].stream_id) <= 1 {
        lemma_first_divergent(streams, from + 1);
    }
}

/// Whether a relay takes longer than a millisecond for more than a few of its objects.
pub open spec fn is_slow(node: RelayNodeSessionSnapshot) -> bool {
    let p95 = percentile_bound(
        node.relay_session.processing_duration_count,
        node.relay_session.processing_duration_buckets@,
        95,
        node.relay_session.processing_duration_max_us,
    );
    p95 is Some && p95->0 > 1_000
}

proof fn lemma_relay_alerts(nodes: Seq<RelayNodeSessionSnapshot>, now_ms: u64)
    ensures
        ({
            let slow = nodes.filter(|n: RelayNodeSessionSnapshot| is_slow(n));
            let list = relay_alerts(nodes, now_ms);
            &&& list.len() == slow.len()
            &&& forall|j: int|
                0 <= j < list.len() ==> (#[trigger] list[j]).node_id == Some(slow[j].node_id@)
                    && list[j].level == "warn"@ && list[j].code
                    == "relay_processing_p95_exceeded"@ && Some(list[j].count) == percentile_bound(
                    slow[j].relay_session.processing_duration_count,
                    slow[j].relay_session.processing_duration_buckets@,
                    95,
                    slow[j].relay_session.processing_duration_max_us,
                )
        }),
    decreases nodes.len(),
{
    reveal(Seq::filter);
    if nodes.len() > 0 {
        lemma_relay_alerts(nodes.drop_last(), now_ms);
        let before = relay_alerts(nodes.drop_last(), now_ms);
        let more = relay_alert(nodes.last(), now_ms);
        assert(relay_alerts(nodes, now_ms) == before + more);
        assert(more.len() == (if is_slow(nodes.last()) {
            1int
        } else {
            0
        }));
    }
}

proof fn lemma_coded_all(list: Seq<AlertModel>, code: Seq<char>)
    requires
        forall|i: int| 0 <= i < list.len() ==> (#[trigger] list[i]).code == code,
    ensures
        coded(list, code) == list,
    decreases list.len(),
{
    reveal(Seq::filter);
    if list.len() > 0 {
        let front = list.drop_last();
        assert forall|i: int| 0 <= i < front.len() implies (#[trigger] front[i]).code == code by {
            assert(front[i] == list[i]);
        }
        lemma_coded_all(front, code);
        assert(list.last() == list[list.len() - 1]);
        assert(front.push(list.last()) =~= list);
    }
}

/// Each relay that is slow is reported by one warning of its own, with its node and its 95th
/// percentile, in the order of the nodes; the others are not.
pub proof fn slow_relays_are_reported(f: MeshFacts)
    ensures
        ({
            let slow = f.relay_nodes.filter(|n: RelayNodeSessionSnapshot| is_slow(n));
            let found = coded(alerts_of(f), "relay_processing_p95_exceeded"@);
            &&& found.len() == slow.len()
            &&& forall|j: int|
                0 <= j < found.len() ==> (#[trigger] found[j]).node_id == Some(slow[j].node_id@)
                    && found[j].level == "warn"@ && Some(found[j].count) == percentile_bound(
                    slow[j].relay_session.processing_duration_count,
                    slow[j].relay_session.processing_duration_buckets@,
                    95,
                    slow[j].relay_session.processing_duration_max_us,
                )
        }),
{
    lemma_marks();
    lemma_group_16(f);
    lemma_coded(f, 16, "relay_processing_p95_exceeded"@);
    lemma_relay_alerts(f.relay_nodes, f.now_ms);
    lemma_coded_all(relay_alerts(f.relay_nodes, f.now_ms), "relay_processing_p95_exceeded"@);
}

/// The activity of a mesh tells of its state, of each alert and of each command. An alert keeps its
/// level, text and count, dated by now where nothing says when it was seen; a command that failed
/// is an error, one that was skipped a warning.
pub proof fn activity_tells_of_alerts_and_commands(
    aggregate: AggregateMetrics,
    alerts: Seq<AlertModel>,
    commands: Seq<ControlCommand>,
    now_ms: u64,
    i: int,
    j: int,
)
    requires
        0 <= i < alerts.len(),
        0 <= j < commands.len(),
    ensures
        ({
            let all = all_activity(aggregate, alerts, commands, now_ms);
            let told = all[1 + i];
            let command = all[1 + alerts.len() + j];
            &&& all.len() == 1 + alerts.len() + commands.len()
            &&& all[0].level == "info"@ && all[0].code == "mesh_snapshot"@ && all[0].count
                == aggregate.node_count && all[0].seen_unix_ms == now_ms
            &&& told.level == alerts[i].level && told.code == alerts[i].code && told.message
                == alerts[i].message && told.count == alerts[i].count && told.node_id
                == alerts[i].node_id && told.stream_id_text == alerts[i].stream_id_text
            &&& alerts[i].last_seen_unix_ms is Some ==> told.seen_unix_ms
                == alerts[i].last_seen_unix_ms->0
            &&& alerts[i].last_seen_unix_ms is None ==> told.seen_unix_ms == now_ms
            &&& command.seen_unix_ms == commands[j].created_unix_ms && command.count == 1
                && command.code == kind_code(commands[j].kind)
            &&& tells_failure(commands[j]) ==> command.level == "error"@
            &&& tells_skip(commands[j]) ==> command.level == "warn"@
            &&& !tells_failure(commands[j]) && !tells_skip(commands[j]) ==> command.level == "info"@
        }),
{
    statuses_tell_outcomes(commands[j].status@);
}

/// The activity of a mesh is told newest first, that of one moment by its code, and no more than 64
/// entries of it. What is left out is not newer than what is told.
pub proof fn activity_is_told_newest_first(all: Seq<MeshActivity>)
    ensures
        ({
            let told = reported_part(ranked(all));
            &&& told.len() == (if all.len() > 64 {
                64
            } else {
                all.len()
            })
            &&& forall|i: int, j: int|
                0 <= i < j < told.len() ==> (#[trigger] told[i]).seen_unix_ms
                    >= (#[trigger] told[j]).seen_unix_ms && (told[i].seen_unix_ms
                    == told[j].seen_unix_ms ==> text_le(told[i].code@, told[j].code@))
            &&& forall|i: int, j: int|
                0 <= i < told.len() && told.len() <= j < all.len() ==> (
                #[trigger] told[i]).seen_unix_ms >= (#[trigger] ranked(all)[j]).seen_unix_ms
            &&& ranked(all).to_multiset() == all.to_multiset()
        }),
{
    ranking_orders(all);
    let sorted = ranked(all);
    let told = reported_part(sorted);
    assert forall|i: int, j: int| 0 <= i < j < told.len() implies (
    #[trigger] told[i]).seen_unix_ms >= (#[trigger] told[j]).seen_unix_ms && (told[i].seen_unix_ms
        == told[j].seen_unix_ms ==> text_le(told[i].code@, told[j].code@)) by {
        assert(told[i] == sorted[i] && told[j] == sorted[j]);
        assert(sorted[i].le(sorted[j]));
    }
    assert forall|i: int, j: int| 0 <= i < told.len() && told.len() <= j < all.len() implies (
    #[trigger] told[i]).seen_unix_ms >= (#[trigger] sorted[j]).seen_unix_ms by {
        assert(told[i] == sorted[i]);
        assert(sorted[i].le(sorted[j]));
    }
}

/// What alerts say in words agrees with what they count: how many nodes are full and how full, how
/// many peers are lost and which one last, how many snapshots are stale, and for how long nothing
/// arrived.
pub proof fn alerts_say_what_they_count(f: MeshFacts)
    requires
        f.nodes.len() <= usize::MAX,
        f.telemetry_peers.len() <= usize::MAX,
    ensures
        ({
            let found = coded(alerts_of(f), "storage_exhausted"@);
            found.len() == 1 ==> found[0].message == decimal(found[0].count as nat)
                + " node(s) are at or above "@ + decimal(95) + "% storage usage."@
        }),
        ({
            let found = coded(alerts_of(f), "storage_pressure"@);
            found.len() == 1 ==> found[0].message == decimal(found[0].count as nat)
                + " node(s) are at or above "@ + decimal(85) + "% storage usage."@
        }),
        ({
            let found = coded(alerts_of(f), "telemetry_peer_unavailable"@);
            found.len() == 1 ==> match latest_unavailable(f.telemetry_peers) {
                Some(i) => found[0].message == decimal(found[0].count as nat)
                    + " tcp-changes telemetry peer(s) are not connected; latest is "@
                    + f.telemetry_peers[i].peer@ + " ("@ + f.telemetry_peers[i].state@ + ")."@,
                None => false,
            }
        }),
        ({
            let found = coded(alerts_of(f), "local_ingest_stale"@);
            found.len() == 1 ==> found[0].message == "Local stream "@
                + f.local_stream.stream_id_text@ + " has not ingested bytes for "@ + decimal(
                f.local_stream.last_ingest_age_ms->0 as nat,
            ) + " ms."@
        }),
{
    lemma_marks();
    lemma_counts_of_nodes(f.nodes);
    lemma_counts_of_peers(f.telemetry_peers);
    lemma_peer_found(f.telemetry_peers);
    lemma_group_5(f);
    lemma_group_8(f);
    lemma_group_11(f);
    lemma_found(f, 5, "storage_exhausted"@);
    lemma_found(f, 5, "storage_pressure"@);
    lemma_found(f, 8, "telemetry_peer_unavailable"@);
    lemma_found(f, 11, "local_ingest_stale"@);
    assert(mark("storage_exhausted"@) != mark("storage_pressure"@));
}

proof fn lemma_peer_found(peers: Seq<TelemetryPeerStatus>)
    ensures
        unavailable_count(peers) > 0 <==> latest_unavailable(peers) is Some,
    decreases peers.len(),
{
    if peers.len() > 0 {
        lemma_peer_found(peers.drop_last());
    }
}

/// What alerts of streams say in words names the stream and its node, how many streams suffer, and
/// by how much this one does.
pub proof fn stream_alerts_say_what_they_count(f: MeshFacts, trouble: StreamTrouble)
    requires
        f.streams.len() <= usize::MAX,
        coded(alerts_of(f), reported_as(trouble)).len() == 1,
    ensures
        ({
            let alert = coded(alerts_of(f), reported_as(trouble))[0];
            let count = decimal(alert.count as nat);
            exists|i: int| #[trigger]
                suffers_most(f, trouble, i) && ({
                    let s = f.streams[i];
                    let number = decimal(severity(trouble, s, f.now_ms) as nat);
                    match trouble {
                        StreamTrouble::Stale => alert.message == count
                            + " mesh stream(s) are stale; latest stale stream "@ + s.stream_id_text
                            + " on "@ + s.node_id + " has not ingested bytes for "@ + decimal(
                            s.last_ingest_age_ms->0 as nat,
                        ) + " ms."@,
                        StreamTrouble::Gap => alert.message == count
                            + " stream publication(s) have retained canonical gaps; stream "@
                            + s.stream_id_text + " on "@ + s.node_id + " has "@ + number
                            + " missing object(s)."@,
                        StreamTrouble::SlowEpoch => alert.message == count
                            + " stream publication(s) exceeded the source-epoch activation target; stream "@
                            + s.stream_id_text + " on "@ + s.node_id + " took "@ + number
                            + " us to accept its first canonical object."@,
                        StreamTrouble::Lagging => alert.message == count
                            + " mesh stream replica(s) are behind the stream head; latest lag is "@
                            + number + " part(s) for stream "@ + s.stream_id_text + " on "@
                            + s.node_id + "."@,
                    }
                })
        }),
{
    lemma_marks();
    lemma_trouble_count(trouble, f.streams, f.local_node_id, f.relay_nodes, f.now_ms);
    lemma_worst(f, trouble);
    let k = match trouble {
        StreamTrouble::Stale => 12int,
        StreamTrouble::Gap => 13,
        StreamTrouble::SlowEpoch => 14,
        StreamTrouble::Lagging => 17,
    };
    match trouble {
        StreamTrouble::Stale => {
            lemma_group_12(f);
        },
        StreamTrouble::Gap => {
            lemma_group_13(f);
        },
        StreamTrouble::SlowEpoch => {
            lemma_group_14(f);
        },
        StreamTrouble::Lagging => {
            lemma_group_17(f);
        },
    }
    lemma_found(f, k, reported_as(trouble));
    match worst(trouble, f.streams, f.local_node_id, f.relay_nodes, f.now_ms) {
        Some((i, key)) => {
            assert(suffers_most(f, trouble, i));
        },
        None => {},
    }
}

/// The activity tells the state of a mesh by its nodes, links and streams, and each command by its
/// kind and status.
pub proof fn activity_says_what_happened(
    aggregate: AggregateMetrics,
    command: ControlCommand,
    now_ms: u64,
)
    ensures
        snapshot_activity(aggregate, now_ms).message == "Mesh sees "@ + decimal(
            aggregate.node_count as nat,
        ) + " node(s), "@ + decimal(aggregate.connection_count as nat) + " link(s), and "@
            + decimal(aggregate.active_streams as nat) + " active stream(s)."@,
        command_activity(command).message == kind_label(command.kind) + " command "@
            + command.status@ + "."@,
        command_activity(command).node_id == view_of(command.node_id),
        command_activity(command).stream_id_text == view_of(command.stream_id_text),
{
}

/// What the alert of failed responses says names how many failed and how the latest one did.
pub proof fn response_alerts_say_what_failed(f: MeshFacts)
    requires
        error_total(f.edges) <= u64::MAX,
        coded(alerts_of(f), "edge_response_errors"@).len() == 1,
    ensures
        ({
            let alert = coded(alerts_of(f), "edge_response_errors"@)[0];
            let front = "Edge playback/API paths have returned "@ + decimal(alert.count as nat)
                + " non-success response(s); latest was HTTP "@;
            &&& (exists|e: int, k: int| #[trigger] tells_error(f.edges, e, k)) ==> exists|
                e: int,
                k: int,
            | #[trigger]
                tells_of_response(alert, f.edges, e, k) && alert.message == front + decimal(
                    f.edges[e].recent_responses@[k].status as nat,
                ) + " for "@ + f.edges[e].recent_responses@[k].path@ + "."@
            &&& !(exists|e: int, k: int| #[trigger] tells_error(f.edges, e, k)) ==> alert.message
                == front + decimal(0) + " for "@ + "unknown edge path"@ + "."@
        }),
{
    lemma_marks();
    lemma_group_4(f);
    lemma_found(f, 4, "edge_response_errors"@);
    lemma_latest_error(f.edges);
    let alert = coded(alerts_of(f), "edge_response_errors"@)[0];
    match latest_error(f.edges) {
        Some(model) => {
            let (e, k) = choose|e: int, k: int| #[trigger] picked(f.edges, e, k, model);
            assert(tells_of_response(alert, f.edges, e, k));
        },
        None => {},
    }
}

/// What the alert of stale telemetry says names how much of it is stale, and the node that was
/// updated last of those.
pub proof fn telemetry_alerts_say_what_is_stale(f: MeshFacts)
    requires
        coded(alerts_of(f), "telemetry_snapshot_stale"@).len() == 1,
    ensures
        ({
            let alert = coded(alerts_of(f), "telemetry_snapshot_stale"@)[0];
            let nodes = f.telemetry.stale_nodes@;
            let front = decimal(alert.count as nat) + " mesh telemetry snapshot(s) have aged out; "@;
            &&& nodes.len() == 0 ==> alert.message == front
                + "stale telemetry node details unavailable"@ + "."@
            &&& nodes.len() > 0 ==> exists|i: int|
                0 <= i < nodes.len() && alert.node_id == Some((#[trigger] nodes[i]).node_id@)
                    && alert.message == front + ("latest stale node "@ + nodes[i].node_id@ + " in "@
                    + nodes[i].region@ + " last updated "@ + decimal(nodes[i].age_ms as nat)
                    + " ms ago"@) + "."@ && forall|j: int|
                    0 <= j < nodes.len() ==> (#[trigger] nodes[j]).updated_unix_ms
                        <= nodes[i].updated_unix_ms
        }),
{
    lemma_marks();
    lemma_group_9(f);
    lemma_found(f, 9, "telemetry_snapshot_stale"@);
    lemma_latest_stale(f.telemetry.stale_nodes@);
}

/// What the alerts of divergent streams and slow relays say names the stream and its epochs, or the
/// relay and its time.
pub proof fn other_alerts_say_what_they_count(f: MeshFacts, node: RelayNodeSessionSnapshot)
    requires
        f.streams.len() <= usize::MAX,
    ensures
        ({
            let found = coded(alerts_of(f), "canonical_epoch_divergence"@);
            found.len() == 1 ==> found[0].stream_id_text is Some && found[0].message == "Stream "@
                + found[0].stream_id_text->0 + " is split across "@ + decimal(
                found[0].count as nat,
            ) + " canonical source epochs during publication convergence."@
        }),
        ({
            let told = relay_alert(node, f.now_ms);
            told.len() == 1 ==> told[0].message == "Relay "@ + node.node_id@
                + " application processing p95 is "@ + decimal(told[0].count as nat)
                + " us; the interactive and premium limit is "@ + decimal(1_000) + " us."@
        }),
{
    lemma_marks();
    lemma_group_15(f);
    lemma_found(f, 15, "canonical_epoch_divergence"@);
    match first_divergent(f.streams, 0) {
        Some(i) => {
            epochs_are_counted(f.streams, f.streams[i].stream_id);
        },
        None => {},
    }
}

} // verus!
