//! What is worth telling an operator: the alerts of a mesh and its recent activity.

use vstd::prelude::*;
use vstd::string::*;
use crate::control::{
    command_outcome, control_kind_code, control_kind_label, kind_code, kind_label, outcome_of,
    CommandOutcome, ControlCommand,
};
use crate::edge::{EdgeResponseSnapshot, EdgeServiceSnapshot};
use crate::histogram::{
    histogram_percentile_upper_bound_us, lemma_first_reaching_bound, percentile_bound,
    percentile_rank,
};
use crate::live_state::{larger, larger_of, saturating_diff, saturating_sum};
use crate::mesh::{
    storage_percent, AggregateMetrics, ConnectionSnapshot, MeshNode, PrivateDiscoveryStatus,
    RelayNodeSessionSnapshot, TelemetryHealthSnapshot, TelemetryNodeHealth, TelemetryPeerStatus,
};
use crate::order::{ranked, sort_by_rank, text_le, text_not_after, Ranked};
use crate::provision::ProvisionStatus;
use crate::relay_snapshot::RelaySessionIngressSnapshot;
use crate::streams::{
    count_epochs, epoch_count, find_divergent, first_divergent, stale_threshold, stream_id_text,
    stream_stale_threshold_ms, telemetry_views, StatsSnapshot, StreamTelemetry, TelemetryModel,
};
use crate::text::{copy_text, decimal, decimal_text, same_text, view_of, views};

verus! {

pub const MESH_STORAGE_WARN_PCT: u64 = 85;

pub const MESH_STORAGE_ERROR_PCT: u64 = 95;

pub const CANONICAL_EPOCH_ACTIVATION_WARN_US: u64 = 10_000_000;

pub const RELAY_PROCESSING_P95_WARN_US: u64 = 1_000;

/// How much activity is reported.
pub const MESH_ACTIVITY_LIMIT: usize = 64;

/// Something that an operator should look at.
#[derive(Debug)]
pub struct MeshAlert {
    pub level: &'static str,
    pub code: &'static str,
    pub message: String,
    pub count: u64,
    pub last_seen_unix_ms: Option<u64>,
    pub node_id: Option<String>,
    pub stream_id_text: Option<String>,
}

/// Something that an operator should look at.
#[verifier::ext_equal]
pub struct AlertModel {
    pub level: Seq<char>,
    pub code: Seq<char>,
    pub message: Seq<char>,
    pub count: u64,
    pub last_seen_unix_ms: Option<u64>,
    pub node_id: Option<Seq<char>>,
    pub stream_id_text: Option<Seq<char>>,
}

impl View for MeshAlert {
    type V = AlertModel;

    open spec fn view(&self) -> AlertModel {
        AlertModel {
            level: self.level@,
            code: self.code@,
            message: self.message@,
            count: self.count,
            last_seen_unix_ms: self.last_seen_unix_ms,
            node_id: view_of(self.node_id),
            stream_id_text: view_of(self.stream_id_text),
        }
    }
}

/// The alerts of a list.
pub open spec fn alert_views(list: Seq<MeshAlert>) -> Seq<AlertModel> {
    list.map_values(|a: MeshAlert| a@)
}

/// An alert about the mesh as a whole.
pub open spec fn mesh_alert(
    level: Seq<char>,
    code: Seq<char>,
    message: Seq<char>,
    count: u64,
    now_ms: u64,
) -> AlertModel {
    AlertModel {
        level,
        code,
        message,
        count,
        last_seen_unix_ms: Some(now_ms),
        node_id: None,
        stream_id_text: None,
    }
}

/// An alert, where there is reason for one.
pub open spec fn alert_if(reason: bool, alert: AlertModel) -> Seq<AlertModel> {
    if reason {
        seq![alert]
    } else {
        Seq::empty()
    }
}

fn push_mesh_alert(
    alerts: &mut Vec<MeshAlert>,
    level: &'static str,
    code: &'static str,
    message: String,
    count: u64,
    now_ms: u64,
)
    ensures
        alert_views(final(alerts)@) == alert_views(old(alerts)@).push(
            mesh_alert(level@, code@, message@, count, now_ms),
        ),
{
    let ghost before = alerts@;
    alerts.push(
        MeshAlert {
            level,
            code,
            message,
            count,
            last_seen_unix_ms: Some(now_ms),
            node_id: None,
            stream_id_text: None,
        },
    );
    proof {
        assert(alert_views(alerts@) =~= alert_views(before).push(
            mesh_alert(level@, code@, message@, count, now_ms),
        ));
    }
}

proof fn lemma_no_alert(list: Seq<AlertModel>)
    ensures
        list + Seq::<AlertModel>::empty() == list,
{
    assert(list + Seq::<AlertModel>::empty() =~= list);
}

proof fn lemma_one_alert(list: Seq<AlertModel>, alert: AlertModel)
    ensures
        list + seq![alert] == list.push(alert),
{
    assert(list + seq![alert] =~= list.push(alert));
}

/// A mesh of one node, or of several without links or relay sessions between them.
pub open spec fn visibility_alerts(
    aggregate: AggregateMetrics,
    relay: RelaySessionIngressSnapshot,
    now_ms: u64,
) -> Seq<AlertModel> {
    if aggregate.node_count <= 1 {
        seq![
            mesh_alert(
                "warn"@,
                "mesh_single_node"@,
                "Only one mesh node is visible; failover and regional routing are not available."@,
                aggregate.node_count as u64,
                now_ms,
            ),
        ]
    } else {
        alert_if(
            aggregate.connection_count == 0 && relay.controlled_sessions == 0
                && relay.authenticated_sessions == 0,
            mesh_alert(
                "error"@,
                "mesh_no_links"@,
                "Multiple mesh nodes are visible, but no mesh links are currently reported."@,
                aggregate.node_count as u64,
                now_ms,
            ),
        )
    }
}

fn alert_visibility(
    alerts: &mut Vec<MeshAlert>,
    aggregate: &AggregateMetrics,
    relay: &RelaySessionIngressSnapshot,
    now_ms: u64,
)
    ensures
        alert_views(final(alerts)@) == alert_views(old(alerts)@) + visibility_alerts(
            *aggregate,
            *relay,
            now_ms,
        ),
{
    proof {
        lemma_no_alert(alert_views(alerts@));
    }
    if aggregate.node_count <= 1 {
        proof {
            lemma_one_alert(alert_views(alerts@), visibility_alerts(*aggregate, *relay, now_ms)[0]);
        }
        push_mesh_alert(
            alerts,
            "warn",
            "mesh_single_node",
            "Only one mesh node is visible; failover and regional routing are not available.".to_owned(),
            aggregate.node_count as u64,
            now_ms,
        );
    } else if aggregate.connection_count == 0 && relay.controlled_sessions == 0
        && relay.authenticated_sessions == 0 {
        proof {
            lemma_one_alert(alert_views(alerts@), visibility_alerts(*aggregate, *relay, now_ms)[0]);
        }
        push_mesh_alert(
            alerts,
            "error",
            "mesh_no_links",
            "Multiple mesh nodes are visible, but no mesh links are currently reported.".to_owned(),
            aggregate.node_count as u64,
            now_ms,
        );
    }
}

/// The number of links whose far end is unknown.
pub open spec fn unknown_count(connections: Seq<ConnectionSnapshot>) -> nat
    decreases connections.len(),
{
    if connections.len() == 0 {
        0
    } else {
        unknown_count(connections.drop_last()) + if connections.last().target_node_id is None {
            1nat
        } else {
            0nat
        }
    }
}

/// Links whose far end is unknown.
pub open spec fn unknown_peer_alerts(connections: Seq<ConnectionSnapshot>, now_ms: u64) -> Seq<
    AlertModel,
> {
    alert_if(
        unknown_count(connections) > 0,
        mesh_alert(
            "warn"@,
            "mesh_unknown_peers"@,
            "Some mesh peer addresses do not resolve to known node ids."@,
            unknown_count(connections) as u64,
            now_ms,
        ),
    )
}

fn alert_unknown_peers(
    alerts: &mut Vec<MeshAlert>,
    connections: &Vec<ConnectionSnapshot>,
    now_ms: u64,
)
    ensures
        alert_views(final(alerts)@) == alert_views(old(alerts)@) + unknown_peer_alerts(
            connections@,
            now_ms,
        ),
{
    let mut count: u64 = 0;
    let mut i: usize = 0;
    proof {
        assert(connections@.take(0) =~= Seq::<ConnectionSnapshot>::empty());
    }
    while i < connections.len()
        invariant
            i <= connections.len(),
            count <= i,
            count == unknown_count(connections@.take(i as int)),
        decreases connections.len() - i,
    {
        proof {
            assert(connections@.take(i + 1).drop_last() =~= connections@.take(i as int));
            assert(connections@.take(i + 1).last() == connections@[i as int]);
        }
        if connections[i].target_node_id.is_none() {
            count = count + 1;
        }
        i = i + 1;
    }
    proof {
        assert(connections@.take(i as int) =~= connections@);
        lemma_no_alert(alert_views(alerts@));
        lemma_one_alert(
            alert_views(alerts@),
            mesh_alert(
                "warn"@,
                "mesh_unknown_peers"@,
                "Some mesh peer addresses do not resolve to known node ids."@,
                count,
                now_ms,
            ),
        );
    }
    if count > 0 {
        push_mesh_alert(
            alerts,
            "warn",
            "mesh_unknown_peers",
            "Some mesh peer addresses do not resolve to known node ids.".to_owned(),
            count,
            now_ms,
        );
    }
}

/// The number of nodes that drain.
pub open spec fn draining_count(nodes: Seq<MeshNode>) -> nat
    decreases nodes.len(),
{
    if nodes.len() == 0 {
        0
    } else {
        draining_count(nodes.drop_last()) + if nodes.last().draining {
            1nat
        } else {
            0nat
        }
    }
}

/// The number of nodes whose storage is used to a percentage or more.
pub open spec fn full_count(nodes: Seq<MeshNode>, percent: u64) -> nat
    decreases nodes.len(),
{
    if nodes.len() == 0 {
        0
    } else {
        full_count(nodes.drop_last(), percent) + if nodes.last().used_percent() >= percent {
            1nat
        } else {
            0nat
        }
    }
}

/// Nodes that drain.
pub open spec fn draining_alerts(nodes: Seq<MeshNode>, now_ms: u64) -> Seq<AlertModel> {
    alert_if(
        draining_count(nodes) > 0,
        mesh_alert(
            "warn"@,
            "nodes_draining"@,
            "One or more mesh nodes are marked draining."@,
            draining_count(nodes) as u64,
            now_ms,
        ),
    )
}

fn alert_draining(alerts: &mut Vec<MeshAlert>, nodes: &Vec<MeshNode>, now_ms: u64)
    ensures
        alert_views(final(alerts)@) == alert_views(old(alerts)@) + draining_alerts(nodes@, now_ms),
{
    let mut count: u64 = 0;
    let mut i: usize = 0;
    proof {
        assert(nodes@.take(0) =~= Seq::<MeshNode>::empty());
    }
    while i < nodes.len()
        invariant
            i <= nodes.len(),
            count <= i,
            count == draining_count(nodes@.take(i as int)),
        decreases nodes.len() - i,
    {
        proof {
            assert(nodes@.take(i + 1).drop_last() =~= nodes@.take(i as int));
            assert(nodes@.take(i + 1).last() == nodes@[i as int]);
        }
        if nodes[i].draining {
            count = count + 1;
        }
        i = i + 1;
    }
    proof {
        assert(nodes@.take(i as int) =~= nodes@);
        lemma_no_alert(alert_views(alerts@));
        lemma_one_alert(
            alert_views(alerts@),
            mesh_alert(
                "warn"@,
                "nodes_draining"@,
                "One or more mesh nodes are marked draining."@,
                count,
                now_ms,
            ),
        );
    }
    if count > 0 {
        push_mesh_alert(
            alerts,
            "warn",
            "nodes_draining",
            "One or more mesh nodes are marked draining.".to_owned(),
            count,
            now_ms,
        );
    }
}

/// The number of edges without an address for playback.
pub open spec fn addressless_count(edges: Seq<EdgeServiceSnapshot>) -> nat
    decreases edges.len(),
{
    if edges.len() == 0 {
        0
    } else {
        addressless_count(edges.drop_last()) + if edges.last().playback_base_url is None {
            1nat
        } else {
            0nat
        }
    }
}

/// Edges without an address for playback.
pub open spec fn playback_alerts(edges: Seq<EdgeServiceSnapshot>, now_ms: u64) -> Seq<AlertModel> {
    alert_if(
        addressless_count(edges) > 0,
        mesh_alert(
            "warn"@,
            "edge_playback_missing"@,
            "One or more nodes do not advertise a public LL-HLS playback base URL."@,
            addressless_count(edges) as u64,
            now_ms,
        ),
    )
}

fn alert_playback(alerts: &mut Vec<MeshAlert>, edges: &Vec<EdgeServiceSnapshot>, now_ms: u64)
    ensures
        alert_views(final(alerts)@) == alert_views(old(alerts)@) + playback_alerts(edges@, now_ms),
{
    let mut count: u64 = 0;
    let mut i: usize = 0;
    proof {
        assert(edges@.take(0) =~= Seq::<EdgeServiceSnapshot>::empty());
    }
    while i < edges.len()
        invariant
            i <= edges.len(),
            count <= i,
            count == addressless_count(edges@.take(i as int)),
        decreases edges.len() - i,
    {
        proof {
            assert(edges@.take(i + 1).drop_last() =~= edges@.take(i as int));
            assert(edges@.take(i + 1).last() == edges@[i as int]);
        }
        if edges[i].playback_base_url.is_none() {
            count = count + 1;
        }
        i = i + 1;
    }
    proof {
        assert(edges@.take(i as int) =~= edges@);
        lemma_no_alert(alert_views(alerts@));
        lemma_one_alert(
            alert_views(alerts@),
            mesh_alert(
                "warn"@,
                "edge_playback_missing"@,
                "One or more nodes do not advertise a public LL-HLS playback base URL."@,
                count,
                now_ms,
            ),
        );
    }
    if count > 0 {
        push_mesh_alert(
            alerts,
            "warn",
            "edge_playback_missing",
            "One or more nodes do not advertise a public LL-HLS playback base URL.".to_owned(),
            count,
            now_ms,
        );
    }
}

/// The number of failed responses of edges.
pub open spec fn error_total(edges: Seq<EdgeServiceSnapshot>) -> nat
    decreases edges.len(),
{
    if edges.len() == 0 {
        0
    } else {
        error_total(edges.drop_last()) + edges.last().response_errors as nat
    }
}

/// A response of an edge.
pub struct EdgeErrorModel {
    pub node_id: Seq<char>,
    pub response: EdgeResponseSnapshot,
}

/// The latest failed response among the first `k` of an edge, or an earlier one that is later
/// in time; of equally late ones the last.
pub open spec fn latest_error_within(
    found: Option<EdgeErrorModel>,
    edge: EdgeServiceSnapshot,
    k: int,
) -> Option<EdgeErrorModel>
    decreases k,
{
    if k <= 0 {
        found
    } else {
        let before = latest_error_within(found, edge, k - 1);
        let response = edge.recent_responses@[k - 1];
        if response.status < 400 {
            before
        } else {
            match before {
                Some(best) => if response.unix_ms >= best.response.unix_ms {
                    Some(EdgeErrorModel { node_id: edge.node_id@, response })
                } else {
                    before
                },
                None => Some(EdgeErrorModel { node_id: edge.node_id@, response }),
            }
        }
    }
}

/// The latest failed response of edges.
pub open spec fn latest_error(edges: Seq<EdgeServiceSnapshot>) -> Option<EdgeErrorModel>
    decreases edges.len(),
{
    if edges.len() == 0 {
        None
    } else {
        latest_error_within(
            latest_error(edges.drop_last()),
            edges.last(),
            edges.last().recent_responses@.len() as int,
        )
    }
}

/// Failed responses of edges, with the latest one that is remembered.
pub open spec fn edge_error_alerts(edges: Seq<EdgeServiceSnapshot>, now_ms: u64) -> Seq<AlertModel> {
    let total = error_total(edges);
    let latest = latest_error(edges);
    let status = match latest {
        Some(e) => e.response.status,
        None => 0u16,
    };
    alert_if(
        total > 0,
        AlertModel {
            level: if status >= 500 {
                "error"@
            } else {
                "warn"@
            },
            code: "edge_response_errors"@,
            message: "Edge playback/API paths have returned "@ + decimal(total)
                + " non-success response(s); latest was HTTP "@ + decimal(status as nat)
                + " for "@ + (match latest {
                Some(e) => e.response.path@,
                None => "unknown edge path"@,
            }) + "."@,
            count: total as u64,
            last_seen_unix_ms: match latest {
                Some(e) => Some(e.response.unix_ms),
                None => Some(now_ms),
            },
            node_id: match latest {
                Some(e) => Some(e.node_id),
                None => None,
            },
            stream_id_text: None,
        },
    )
}

proof fn lemma_error_total(edges: Seq<EdgeServiceSnapshot>, k: int)
    requires
        0 <= k <= edges.len(),
    ensures
        error_total(edges.take(k)) <= error_total(edges),
    decreases edges.len() - k,
{
    if k == edges.len() {
        assert(edges.take(k) =~= edges);
    } else {
        lemma_error_total(edges, k + 1);
        assert(edges.take(k + 1).drop_last() =~= edges.take(k));
    }
}

/// Where the latest failed response is: the edge, and the response of it.
fn find_latest_error(edges: &Vec<EdgeServiceSnapshot>) -> (r: Option<(usize, usize)>)
    ensures
        match (r, latest_error(edges@)) {
            (Some((e, k)), Some(model)) => {
                &&& e < edges@.len()
                &&& k < edges@[e as int].recent_responses@.len()
                &&& model.node_id == edges@[e as int].node_id@
                &&& model.response == edges@[e as int].recent_responses@[k as int]
            },
            (None, None) => true,
            _ => false,
        },
{
    let mut best: Option<(usize, usize)> = None;
    let mut e: usize = 0;
    proof {
        assert(edges@.take(0) =~= Seq::<EdgeServiceSnapshot>::empty());
    }
    while e < edges.len()
        invariant
            e <= edges.len(),
            match (best, latest_error(edges@.take(e as int))) {
                (Some((x, k)), Some(model)) => {
                    &&& x < edges@.len()
                    &&& k < edges@[x as int].recent_responses@.len()
                    &&& model.node_id == edges@[x as int].node_id@
                    &&& model.response == edges@[x as int].recent_responses@[k as int]
                },
                (None, None) => true,
                _ => false,
            },
        decreases edges.len() - e,
    {
        let ghost found = latest_error(edges@.take(e as int));
        let ghost edge = edges@[e as int];
        proof {
            assert(edges@.take(e + 1).drop_last() =~= edges@.take(e as int));
            assert(edges@.take(e + 1).last() == edge);
        }
        let mut k: usize = 0;
        while k < edges[e].recent_responses.len()
            invariant
                e < edges.len(),
                edge == edges@[e as int],
                k <= edge.recent_responses@.len(),
                match (best, latest_error_within(found, edge, k as int)) {
                    (Some((x, j)), Some(model)) => {
                        &&& x < edges@.len()
                        &&& j < edges@[x as int].recent_responses@.len()
                        &&& model.node_id == edges@[x as int].node_id@
                        &&& model.response == edges@[x as int].recent_responses@[j as int]
                    },
                    (None, None) => true,
                    _ => false,
                },
            decreases edge.recent_responses@.len() - k,
        {
            let status: u16 = edges[e].recent_responses[k].status;
            let unix_ms: u64 = edges[e].recent_responses[k].unix_ms;
            if status >= 400 {
                let later: bool = match best {
                    Some((x, j)) => unix_ms >= edges[x].recent_responses[j].unix_ms,
                    None => true,
                };
                if later {
                    best = Some((e, k));
                }
            }
            k = k + 1;
        }
        e = e + 1;
    }
    proof {
        assert(edges@.take(e as int) =~= edges@);
    }
    best
}

fn alert_edge_errors(alerts: &mut Vec<MeshAlert>, edges: &Vec<EdgeServiceSnapshot>, now_ms: u64)
    requires
        error_total(edges@) <= u64::MAX,
    ensures
        alert_views(final(alerts)@) == alert_views(old(alerts)@) + edge_error_alerts(edges@, now_ms),
{
    let mut total: u64 = 0;
    let mut i: usize = 0;
    proof {
        assert(edges@.take(0) =~= Seq::<EdgeServiceSnapshot>::empty());
        lemma_no_alert(alert_views(alerts@));
    }
    while i < edges.len()
        invariant
            i <= edges.len(),
            error_total(edges@) <= u64::MAX,
            total == error_total(edges@.take(i as int)),
        decreases edges.len() - i,
    {
        proof {
            assert(edges@.take(i + 1).drop_last() =~= edges@.take(i as int));
            assert(edges@.take(i + 1).last() == edges@[i as int]);
            lemma_error_total(edges@, i + 1);
        }
        total = total + edges[i].response_errors;
        i = i + 1;
    }
    proof {
        assert(edges@.take(i as int) =~= edges@);
    }
    if total == 0 {
        return;
    }
    let latest = find_latest_error(edges);
    let status: u16 = match latest {
        Some((e, k)) => edges[e].recent_responses[k].status,
        None => 0,
    };
    let path = match latest {
        Some((e, k)) => edges[e].recent_responses[k].path.clone(),
        None => "unknown edge path".to_owned(),
    };
    let last_seen: Option<u64> = match latest {
        Some((e, k)) => Some(edges[e].recent_responses[k].unix_ms),
        None => Some(now_ms),
    };
    let node_id = match latest {
        Some((e, _)) => Some(edges[e].node_id.clone()),
        None => None,
    };
    let mut message = "Edge playback/API paths have returned ".to_owned();
    message.append(decimal_text(total).as_str());
    message.append(" non-success response(s); latest was HTTP ");
    message.append(decimal_text(status as u64).as_str());
    message.append(" for ");
    message.append(path.as_str());
    message.append(".");
    let ghost before = alerts@;
    alerts.push(
        MeshAlert {
            level: if status >= 500 {
                "error"
            } else {
                "warn"
            },
            code: "edge_response_errors",
            message,
            count: total,
            last_seen_unix_ms: last_seen,
            node_id,
            stream_id_text: None,
        },
    );
    proof {
        assert(alert_views(alerts@) =~= alert_views(before) + edge_error_alerts(edges@, now_ms));
    }
}

/// Nodes whose storage runs out, or is about to.
pub open spec fn storage_alerts(nodes: Seq<MeshNode>, now_ms: u64) -> Seq<AlertModel> {
    let exhausted = full_count(nodes, MESH_STORAGE_ERROR_PCT);
    let pressed = full_count(nodes, MESH_STORAGE_WARN_PCT);
    if exhausted > 0 {
        seq![
            mesh_alert(
                "error"@,
                "storage_exhausted"@,
                decimal(exhausted) + " node(s) are at or above "@ + decimal(
                    MESH_STORAGE_ERROR_PCT as nat,
                ) + "% storage usage."@,
                exhausted as u64,
                now_ms,
            ),
        ]
    } else {
        alert_if(
            pressed > 0,
            mesh_alert(
                "warn"@,
                "storage_pressure"@,
                decimal(pressed) + " node(s) are at or above "@ + decimal(
                    MESH_STORAGE_WARN_PCT as nat,
                ) + "% storage usage."@,
                pressed as u64,
                now_ms,
            ),
        )
    }
}

fn count_full(nodes: &Vec<MeshNode>, percent: u64) -> (r: u64)
    ensures
        r == full_count(nodes@, percent),
{
    let mut count: u64 = 0;
    let mut i: usize = 0;
    proof {
        assert(nodes@.take(0) =~= Seq::<MeshNode>::empty());
    }
    while i < nodes.len()
        invariant
            i <= nodes.len(),
            count <= i,
            count == full_count(nodes@.take(i as int), percent),
        decreases nodes.len() - i,
    {
        proof {
            assert(nodes@.take(i + 1).drop_last() =~= nodes@.take(i as int));
            assert(nodes@.take(i + 1).last() == nodes@[i as int]);
        }
        if storage_percent(&nodes[i]) >= percent {
            count = count + 1;
        }
        i = i + 1;
    }
    proof {
        assert(nodes@.take(i as int) =~= nodes@);
    }
    count
}

fn storage_message(count: u64, percent: u64) -> (r: String)
    ensures
        r@ == decimal(count as nat) + " node(s) are at or above "@ + decimal(percent as nat)
            + "% storage usage."@,
{
    let mut out = decimal_text(count);
    out.append(" node(s) are at or above ");
    out.append(decimal_text(percent).as_str());
    out.append("% storage usage.");
    out
}

fn alert_storage(alerts: &mut Vec<MeshAlert>, nodes: &Vec<MeshNode>, now_ms: u64)
    ensures
        alert_views(final(alerts)@) == alert_views(old(alerts)@) + storage_alerts(nodes@, now_ms),
{
    let exhausted: u64 = count_full(nodes, MESH_STORAGE_ERROR_PCT);
    let pressed: u64 = count_full(nodes, MESH_STORAGE_WARN_PCT);
    proof {
        lemma_no_alert(alert_views(alerts@));
        if exhausted > 0 || pressed > 0 {
            lemma_one_alert(alert_views(alerts@), storage_alerts(nodes@, now_ms)[0]);
        }
    }
    if exhausted > 0 {
        push_mesh_alert(
            alerts,
            "error",
            "storage_exhausted",
            storage_message(exhausted, MESH_STORAGE_ERROR_PCT),
            exhausted,
            now_ms,
        );
    } else if pressed > 0 {
        push_mesh_alert(
            alerts,
            "warn",
            "storage_pressure",
            storage_message(pressed, MESH_STORAGE_WARN_PCT),
            pressed,
            now_ms,
        );
    }
}

/// What recent commands came to: the failed, the skipped, and the time of the latest of both.
#[verifier::ext_equal]
pub struct CommandTally {
    pub failed: u64,
    pub skipped: u64,
    pub last_issue: Option<u64>,
}

/// What recent commands came to.
pub open spec fn tally(commands: Seq<ControlCommand>) -> CommandTally
    decreases commands.len(),
{
    if commands.len() == 0 {
        CommandTally { failed: 0, skipped: 0, last_issue: None }
    } else {
        let front = tally(commands.drop_last());
        let last = commands.last();
        let issue = Some(
            larger(
                match front.last_issue {
                    Some(time) => time,
                    None => 0,
                },
                last.created_unix_ms,
            ),
        );
        match outcome_of(last.status@) {
            CommandOutcome::Failed => CommandTally {
                failed: saturating_sum(front.failed, 1),
                last_issue: issue,
                ..front
            },
            CommandOutcome::Skipped => CommandTally {
                skipped: saturating_sum(front.skipped, 1),
                last_issue: issue,
                ..front
            },
            CommandOutcome::Other => front,
        }
    }
}

/// Commands that failed, or else that were skipped.
pub open spec fn command_alerts(commands: Seq<ControlCommand>) -> Seq<AlertModel> {
    let t = tally(commands);
    if t.failed > 0 {
        seq![
            AlertModel {
                level: "error"@,
                code: "control_failures"@,
                message: "One or more recent orchestration commands failed."@,
                count: t.failed,
                last_seen_unix_ms: t.last_issue,
                node_id: None,
                stream_id_text: None,
            },
        ]
    } else {
        alert_if(
            t.skipped > 0,
            AlertModel {
                level: "warn"@,
                code: "control_skipped"@,
                message: "One or more recent orchestration commands were skipped."@,
                count: t.skipped,
                last_seen_unix_ms: t.last_issue,
                node_id: None,
                stream_id_text: None,
            },
        )
    }
}

fn alert_commands(alerts: &mut Vec<MeshAlert>, commands: &Vec<ControlCommand>)
    ensures
        alert_views(final(alerts)@) == alert_views(old(alerts)@) + command_alerts(commands@),
{
    let mut failed: u64 = 0;
    let mut skipped: u64 = 0;
    let mut last_issue: Option<u64> = None;
    let mut i: usize = 0;
    proof {
        assert(commands@.take(0) =~= Seq::<ControlCommand>::empty());
        lemma_no_alert(alert_views(alerts@));
    }
    while i < commands.len()
        invariant
            i <= commands.len(),
            tally(commands@.take(i as int)) == (CommandTally { failed, skipped, last_issue }),
        decreases commands.len() - i,
    {
        proof {
            assert(commands@.take(i + 1).drop_last() =~= commands@.take(i as int));
            assert(commands@.take(i + 1).last() == commands@[i as int]);
        }
        let earlier: u64 = match last_issue {
            Some(time) => time,
            None => 0,
        };
        let issue: u64 = larger_of(earlier, commands[i].created_unix_ms);
        match command_outcome(commands[i].status.as_str()) {
            CommandOutcome::Failed => {
                failed = failed.saturating_add(1);
                last_issue = Some(issue);
            },
            CommandOutcome::Skipped => {
                skipped = skipped.saturating_add(1);
                last_issue = Some(issue);
            },
            CommandOutcome::Other => {},
        }
        i = i + 1;
    }
    proof {
        assert(commands@.take(i as int) =~= commands@);
    }
    let ghost before = alerts@;
    if failed > 0 {
        alerts.push(
            MeshAlert {
                level: "error",
                code: "control_failures",
                message: "One or more recent orchestration commands failed.".to_owned(),
                count: failed,
                last_seen_unix_ms: last_issue,
                node_id: None,
                stream_id_text: None,
            },
        );
        proof {
            assert(alert_views(alerts@) =~= alert_views(before) + command_alerts(commands@));
        }
    } else if skipped > 0 {
        alerts.push(
            MeshAlert {
                level: "warn",
                code: "control_skipped",
                message: "One or more recent orchestration commands were skipped.".to_owned(),
                count: skipped,
                last_seen_unix_ms: last_issue,
                node_id: None,
                stream_id_text: None,
            },
        );
        proof {
            assert(alert_views(alerts@) =~= alert_views(before) + command_alerts(commands@));
        }
    }
}

/// Whether a text is in a list.
pub open spec fn lists(list: Seq<String>, text: Seq<char>) -> bool {
    views(list).contains(text)
}

fn list_contains(list: &Vec<String>, text: &str) -> (r: bool)
    ensures
        r == lists(list@, text@),
{
    let mut i: usize = 0;
    while i < list.len()
        invariant
            i <= list.len(),
            forall|j: int| 0 <= j < i ==> #[trigger] views(list@)[j] != text@,
        decreases list.len() - i,
    {
        assert(views(list@)[i as int] == list@[i as int]@);
        if same_text(list[i].as_str(), text) {
            return true;
        }
        i = i + 1;
    }
    false
}

/// Provisioning at the provider without discovery on its private network.
pub open spec fn discovery_alerts(
    provision: ProvisionStatus,
    discovery: PrivateDiscoveryStatus,
    local_node_id: Seq<char>,
    now_ms: u64,
) -> Seq<AlertModel> {
    alert_if(
        lists(provision.backends@, "linode"@) && !discovery.enabled,
        AlertModel {
            level: "warn"@,
            code: "linode_private_discovery_inactive"@,
            message: "Linode provisioning is configured, but private-subnet discovery is not active; new VLAN nodes may need explicit seed peers."@,
            count: 1,
            last_seen_unix_ms: Some(now_ms),
            node_id: Some(local_node_id),
            stream_id_text: None,
        },
    )
}

fn alert_discovery(
    alerts: &mut Vec<MeshAlert>,
    provision: &ProvisionStatus,
    discovery: &PrivateDiscoveryStatus,
    local_node_id: &str,
    now_ms: u64,
)
    ensures
        alert_views(final(alerts)@) == alert_views(old(alerts)@) + discovery_alerts(
            *provision,
            *discovery,
            local_node_id@,
            now_ms,
        ),
{
    let ghost before = alerts@;
    if list_contains(&provision.backends, "linode") && !discovery.enabled {
        alerts.push(
            MeshAlert {
                level: "warn",
                code: "linode_private_discovery_inactive",
                message: "Linode provisioning is configured, but private-subnet discovery is not active; new VLAN nodes may need explicit seed peers.".to_owned(),
                count: 1,
                last_seen_unix_ms: Some(now_ms),
                node_id: Some(local_node_id.to_owned()),
                stream_id_text: None,
            },
        );
    }
    proof {
        assert(alert_views(alerts@) =~= alert_views(before) + discovery_alerts(
            *provision,
            *discovery,
            local_node_id@,
            now_ms,
        ));
    }
}

/// Whether a telemetry peer is not connected.
pub open spec fn unavailable(peer: TelemetryPeerStatus) -> bool {
    peer.state@ != "connected"@
}

/// When a telemetry peer was last heard of.
pub open spec fn last_heard(peer: TelemetryPeerStatus) -> u64 {
    match peer.last_payload_unix_ms {
        Some(time) => time,
        None => match peer.last_connected_unix_ms {
            Some(time) => time,
            None => 0,
        },
    }
}

/// The number of telemetry peers that are not connected.
pub open spec fn unavailable_count(peers: Seq<TelemetryPeerStatus>) -> nat
    decreases peers.len(),
{
    if peers.len() == 0 {
        0
    } else {
        unavailable_count(peers.drop_last()) + if unavailable(peers.last()) {
            1nat
        } else {
            0nat
        }
    }
}

/// The position of the unavailable telemetry peer that was heard of last; of equally late ones
/// the last.
pub open spec fn latest_unavailable(peers: Seq<TelemetryPeerStatus>) -> Option<int>
    decreases peers.len(),
{
    if peers.len() == 0 {
        None
    } else {
        let front = latest_unavailable(peers.drop_last());
        if !unavailable(peers.last()) {
            front
        } else {
            match front {
                Some(i) => if last_heard(peers.last()) >= last_heard(peers[i]) {
                    Some(peers.len() - 1)
                } else {
                    front
                },
                None => Some(peers.len() - 1),
            }
        }
    }
}

/// Telemetry peers that are not connected.
pub open spec fn telemetry_peer_alerts(peers: Seq<TelemetryPeerStatus>, now_ms: u64) -> Seq<
    AlertModel,
> {
    let count = unavailable_count(peers);
    let latest = latest_unavailable(peers);
    alert_if(
        count > 0,
        mesh_alert(
            "warn"@,
            "telemetry_peer_unavailable"@,
            decimal(count) + " tcp-changes telemetry peer(s) are not connected; latest is "@ + (
            match latest {
                Some(i) => peers[i].peer@,
                None => "unknown peer"@,
            }) + " ("@ + (match latest {
                Some(i) => peers[i].state@,
                None => "unknown"@,
            }) + ")."@,
            count as u64,
            now_ms,
        ),
    )
}

fn heard(peer: &TelemetryPeerStatus) -> (r: u64)
    ensures
        r == last_heard(*peer),
{
    match peer.last_payload_unix_ms {
        Some(time) => time,
        None => match peer.last_connected_unix_ms {
            Some(time) => time,
            None => 0,
        },
    }
}

fn alert_telemetry_peers(
    alerts: &mut Vec<MeshAlert>,
    peers: &Vec<TelemetryPeerStatus>,
    now_ms: u64,
)
    ensures
        alert_views(final(alerts)@) == alert_views(old(alerts)@) + telemetry_peer_alerts(
            peers@,
            now_ms,
        ),
{
    let mut count: u64 = 0;
    let mut latest: Option<usize> = None;
    let mut i: usize = 0;
    proof {
        assert(peers@.take(0) =~= Seq::<TelemetryPeerStatus>::empty());
        lemma_no_alert(alert_views(alerts@));
    }
    while i < peers.len()
        invariant
            i <= peers.len(),
            count <= i,
            count == unavailable_count(peers@.take(i as int)),
            match (latest, latest_unavailable(peers@.take(i as int))) {
                (Some(x), Some(y)) => x == y && x < i,
                (None, None) => true,
                _ => false,
            },
        decreases peers.len() - i,
    {
        proof {
            assert(peers@.take(i + 1).drop_last() =~= peers@.take(i as int));
            assert(peers@.take(i + 1).last() == peers@[i as int]);
        }
        if !same_text(peers[i].state.as_str(), "connected") {
            count = count + 1;
            let later: bool = match latest {
                Some(x) => heard(&peers[i]) >= heard(&peers[x]),
                None => true,
            };
            if later {
                latest = Some(i);
            }
        }
        i = i + 1;
    }
    proof {
        assert(peers@.take(i as int) =~= peers@);
    }
    if count > 0 {
        let mut message = decimal_text(count);
        message.append(" tcp-changes telemetry peer(s) are not connected; latest is ");
        match latest {
            Some(x) => {
                message.append(peers[x].peer.as_str());
            },
            None => {
                message.append("unknown peer");
            },
        }
        message.append(" (");
        match latest {
            Some(x) => {
                message.append(peers[x].state.as_str());
            },
            None => {
                message.append("unknown");
            },
        }
        message.append(").");
        proof {
            lemma_one_alert(
                alert_views(alerts@),
                mesh_alert("warn"@, "telemetry_peer_unavailable"@, message@, count, now_ms),
            );
        }
        push_mesh_alert(alerts, "warn", "telemetry_peer_unavailable", message, count, now_ms);
    }
}

/// The position of the stale node that was updated last; of equally late ones the last.
pub open spec fn latest_stale(nodes: Seq<TelemetryNodeHealth>) -> Option<int>
    decreases nodes.len(),
{
    if nodes.len() == 0 {
        None
    } else {
        match latest_stale(nodes.drop_last()) {
            Some(i) => if nodes.last().updated_unix_ms >= nodes[i].updated_unix_ms {
                Some(nodes.len() - 1)
            } else {
                Some(i)
            },
            None => Some(nodes.len() - 1),
        }
    }
}

/// Remote nodes whose telemetry is too old.
pub open spec fn stale_telemetry_alerts(telemetry: TelemetryHealthSnapshot) -> Seq<AlertModel> {
    let nodes = telemetry.stale_nodes@;
    let latest = latest_stale(nodes);
    alert_if(
        telemetry.stale_remote_count > 0,
        AlertModel {
            level: "warn"@,
            code: "telemetry_snapshot_stale"@,
            message: decimal(telemetry.stale_remote_count as nat)
                + " mesh telemetry snapshot(s) have aged out; "@ + (match latest {
                Some(i) => "latest stale node "@ + nodes[i].node_id@ + " in "@ + nodes[i].region@
                    + " last updated "@ + decimal(nodes[i].age_ms as nat) + " ms ago"@,
                None => "stale telemetry node details unavailable"@,
            }) + "."@,
            count: telemetry.stale_remote_count as u64,
            last_seen_unix_ms: match latest {
                Some(i) => Some(nodes[i].updated_unix_ms),
                None => None,
            },
            node_id: match latest {
                Some(i) => Some(nodes[i].node_id@),
                None => None,
            },
            stream_id_text: None,
        },
    )
}

fn alert_stale_telemetry(alerts: &mut Vec<MeshAlert>, telemetry: &TelemetryHealthSnapshot)
    ensures
        alert_views(final(alerts)@) == alert_views(old(alerts)@) + stale_telemetry_alerts(
            *telemetry,
        ),
{
    let ghost before = alerts@;
    let ghost nodes = telemetry.stale_nodes@;
    if telemetry.stale_remote_count == 0 {
        proof {
            lemma_no_alert(alert_views(alerts@));
        }
        return;
    }
    let mut latest: Option<usize> = None;
    let mut i: usize = 0;
    proof {
        assert(nodes.take(0) =~= Seq::<TelemetryNodeHealth>::empty());
    }
    while i < telemetry.stale_nodes.len()
        invariant
            nodes == telemetry.stale_nodes@,
            i <= nodes.len(),
            match (latest, latest_stale(nodes.take(i as int))) {
                (Some(x), Some(y)) => x == y && x < i,
                (None, None) => true,
                _ => false,
            },
        decreases nodes.len() - i,
    {
        proof {
            assert(nodes.take(i + 1).drop_last() =~= nodes.take(i as int));
            assert(nodes.take(i + 1).last() == nodes[i as int]);
        }
        let later: bool = match latest {
            Some(x) => telemetry.stale_nodes[i].updated_unix_ms
                >= telemetry.stale_nodes[x].updated_unix_ms,
            None => true,
        };
        if later {
            latest = Some(i);
        }
        i = i + 1;
    }
    proof {
        assert(nodes.take(i as int) =~= nodes);
    }
    let detail = match latest {
        Some(x) => {
            let node = &telemetry.stale_nodes[x];
            let mut text = "latest stale node ".to_owned();
            text.append(node.node_id.as_str());
            text.append(" in ");
            text.append(node.region.as_str());
            text.append(" last updated ");
            text.append(decimal_text(node.age_ms).as_str());
            text.append(" ms ago");
            text
        },
        None => "stale telemetry node details unavailable".to_owned(),
    };
    let mut message = decimal_text(telemetry.stale_remote_count as u64);
    message.append(" mesh telemetry snapshot(s) have aged out; ");
    message.append(detail.as_str());
    message.append(".");
    let last_seen: Option<u64> = match latest {
        Some(x) => Some(telemetry.stale_nodes[x].updated_unix_ms),
        None => None,
    };
    let node_id = match latest {
        Some(x) => Some(telemetry.stale_nodes[x].node_id.clone()),
        None => None,
    };
    alerts.push(
        MeshAlert {
            level: "warn",
            code: "telemetry_snapshot_stale",
            message,
            count: telemetry.stale_remote_count as u64,
            last_seen_unix_ms: last_seen,
            node_id,
            stream_id_text: None,
        },
    );
    proof {
        assert(alert_views(alerts@) =~= alert_views(before) + stale_telemetry_alerts(*telemetry));
    }
}

/// The number of backends that are not ready.
pub open spec fn blocked_count(
    backends: Seq<crate::provision::ProvisionBackendStatus>,
) -> nat
    decreases backends.len(),
{
    if backends.len() == 0 {
        0
    } else {
        blocked_count(backends.drop_last()) + if backends.last().state@ != "ready"@ {
            1nat
        } else {
            0nat
        }
    }
}

/// Backends that are not ready.
pub open spec fn backend_alerts(provision: ProvisionStatus, now_ms: u64) -> Seq<AlertModel> {
    let count = blocked_count(provision.backend_statuses@);
    alert_if(
        count > 0,
        mesh_alert(
            "warn"@,
            "provision_backend_blocked"@,
            "One or more configured provision backends are not ready."@,
            count as u64,
            now_ms,
        ),
    )
}

fn alert_backends(alerts: &mut Vec<MeshAlert>, provision: &ProvisionStatus, now_ms: u64)
    ensures
        alert_views(final(alerts)@) == alert_views(old(alerts)@) + backend_alerts(
            *provision,
            now_ms,
        ),
{
    let ghost backends = provision.backend_statuses@;
    let mut count: u64 = 0;
    let mut i: usize = 0;
    proof {
        assert(backends.take(0) =~= Seq::<crate::provision::ProvisionBackendStatus>::empty());
    }
    while i < provision.backend_statuses.len()
        invariant
            backends == provision.backend_statuses@,
            i <= backends.len(),
            count <= i,
            count == blocked_count(backends.take(i as int)),
        decreases backends.len() - i,
    {
        proof {
            assert(backends.take(i + 1).drop_last() =~= backends.take(i as int));
            assert(backends.take(i + 1).last() == backends[i as int]);
        }
        if !same_text(provision.backend_statuses[i].state, "ready") {
            count = count + 1;
        }
        i = i + 1;
    }
    proof {
        assert(backends.take(i as int) =~= backends);
        lemma_no_alert(alert_views(alerts@));
        lemma_one_alert(
            alert_views(alerts@),
            mesh_alert(
                "warn"@,
                "provision_backend_blocked"@,
                "One or more configured provision backends are not ready."@,
                count,
                now_ms,
            ),
        );
    }
    if count > 0 {
        push_mesh_alert(
            alerts,
            "warn",
            "provision_backend_blocked",
            "One or more configured provision backends are not ready.".to_owned(),
            count,
            now_ms,
        );
    }
}

/// The node's own stream without bytes for too long.
pub open spec fn local_ingest_alerts(stream: StatsSnapshot, now_ms: u64) -> Seq<AlertModel> {
    match stream.last_ingest_age_ms {
        Some(age_ms) => alert_if(
            stream.latest_local_part is Some && age_ms > stale_threshold(
                stream.part_target_ms,
                stream.window_parts,
            ),
            AlertModel {
                level: "warn"@,
                code: "local_ingest_stale"@,
                message: "Local stream "@ + stream.stream_id_text@
                    + " has not ingested bytes for "@ + decimal(age_ms as nat) + " ms."@,
                count: 1,
                last_seen_unix_ms: if now_ms >= age_ms {
                    Some((now_ms - age_ms) as u64)
                } else {
                    None
                },
                node_id: None,
                stream_id_text: Some(stream.stream_id_text@),
            },
        ),
        None => Seq::empty(),
    }
}

fn alert_local_ingest(alerts: &mut Vec<MeshAlert>, stream: &StatsSnapshot, now_ms: u64)
    ensures
        alert_views(final(alerts)@) == alert_views(old(alerts)@) + local_ingest_alerts(
            *stream,
            now_ms,
        ),
{
    let ghost before = alerts@;
    match stream.last_ingest_age_ms {
        Some(age_ms) => {
            let threshold: u64 = stream_stale_threshold_ms(
                stream.part_target_ms,
                stream.window_parts,
            );
            if stream.latest_local_part.is_some() && age_ms > threshold {
                let mut message = "Local stream ".to_owned();
                message.append(stream.stream_id_text.as_str());
                message.append(" has not ingested bytes for ");
                message.append(decimal_text(age_ms).as_str());
                message.append(" ms.");
                let last_seen: Option<u64> = now_ms.checked_sub(age_ms);
                alerts.push(
                    MeshAlert {
                        level: "warn",
                        code: "local_ingest_stale",
                        message,
                        count: 1,
                        last_seen_unix_ms: last_seen,
                        node_id: None,
                        stream_id_text: Some(stream.stream_id_text.clone()),
                    },
                );
            }
        },
        None => {},
    }
    proof {
        assert(alert_views(alerts@) =~= alert_views(before) + local_ingest_alerts(*stream, now_ms));
    }
}

/// What can be wrong with a stream.
#[derive(Clone, Copy, Debug, PartialEq, Eq, Structural)]
pub enum StreamTrouble {
    /// It has been without bytes for too long, on another node.
    Stale,
    /// Objects of it are missing.
    Gap,
    /// Its epoch took too long to start.
    SlowEpoch,
    /// It is too far behind, on a node that no relay session feeds.
    Lagging,
}

/// Whether a node is fed by a controlled relay session.
pub open spec fn controlled(relay_nodes: Seq<RelayNodeSessionSnapshot>, node_id: Seq<char>) -> bool {
    exists|i: int|
        0 <= i < relay_nodes.len() && (#[trigger] relay_nodes[i]).node_id@ == node_id
            && relay_nodes[i].relay_session.controlled_sessions > 0
}

fn is_controlled(relay_nodes: &Vec<RelayNodeSessionSnapshot>, node_id: &str) -> (r: bool)
    ensures
        r == controlled(relay_nodes@, node_id@),
{
    let mut i: usize = 0;
    while i < relay_nodes.len()
        invariant
            i <= relay_nodes.len(),
            forall|j: int|
                0 <= j < i ==> !((#[trigger] relay_nodes@[j]).node_id@ == node_id@
                    && relay_nodes@[j].relay_session.controlled_sessions > 0),
        decreases relay_nodes.len() - i,
    {
        if relay_nodes[i].relay_session.controlled_sessions > 0 && same_text(
            relay_nodes[i].node_id.as_str(),
            node_id,
        ) {
            return true;
        }
        i = i + 1;
    }
    false
}

/// How bad it is, where the trouble is there: the larger the worse.
pub open spec fn trouble_key(
    trouble: StreamTrouble,
    stream: TelemetryModel,
    local_node_id: Seq<char>,
    relay_nodes: Seq<RelayNodeSessionSnapshot>,
    now_ms: u64,
) -> Option<u64> {
    match trouble {
        StreamTrouble::Stale => if stream.node_id != local_node_id && stream.is_stale() {
            Some(saturating_diff(now_ms, stream.last_ingest_age_ms->0))
        } else {
            None
        },
        StreamTrouble::Gap => match stream.gap_count {
            Some(gaps) => if gaps > 0 {
                Some(gaps)
            } else {
                None
            },
            None => None,
        },
        StreamTrouble::SlowEpoch => match stream.canonical_epoch_activation_delay_us {
            Some(delay) => if delay > CANONICAL_EPOCH_ACTIVATION_WARN_US {
                Some(delay)
            } else {
                None
            },
            None => None,
        },
        StreamTrouble::Lagging => if stream.is_lagging() && !controlled(
            relay_nodes,
            stream.node_id,
        ) {
            stream.mesh_lag_parts
        } else {
            None
        },
    }
}

fn stream_trouble(
    trouble: StreamTrouble,
    stream: &StreamTelemetry,
    local_node_id: &str,
    relay_nodes: &Vec<RelayNodeSessionSnapshot>,
    now_ms: u64,
) -> (r: Option<u64>)
    ensures
        r == trouble_key(trouble, stream@, local_node_id@, relay_nodes@, now_ms),
{
    match trouble {
        StreamTrouble::Stale => if !same_text(stream.node_id.as_str(), local_node_id)
            && stream.stale() {
            match stream.last_ingest_age_ms {
                Some(age_ms) => Some(now_ms.saturating_sub(age_ms)),
                None => None,
            }
        } else {
            None
        },
        StreamTrouble::Gap => match stream.gap_count {
            Some(gaps) => if gaps > 0 {
                Some(gaps)
            } else {
                None
            },
            None => None,
        },
        StreamTrouble::SlowEpoch => match stream.canonical_epoch_activation_delay_us {
            Some(delay) => if delay > CANONICAL_EPOCH_ACTIVATION_WARN_US {
                Some(delay)
            } else {
                None
            },
            None => None,
        },
        StreamTrouble::Lagging => if stream.lagging() && !is_controlled(
            relay_nodes,
            stream.node_id.as_str(),
        ) {
            stream.mesh_lag_parts
        } else {
            None
        },
    }
}

/// The number of streams with a trouble.
pub open spec fn trouble_count(
    trouble: StreamTrouble,
    streams: Seq<TelemetryModel>,
    local_node_id: Seq<char>,
    relay_nodes: Seq<RelayNodeSessionSnapshot>,
    now_ms: u64,
) -> nat
    decreases streams.len(),
{
    if streams.len() == 0 {
        0
    } else {
        trouble_count(trouble, streams.drop_last(), local_node_id, relay_nodes, now_ms) + if trouble_key(
            trouble,
            streams.last(),
            local_node_id,
            relay_nodes,
            now_ms,
        ) is Some {
            1nat
        } else {
            0nat
        }
    }
}

/// The position and the key of the stream that is worst off; of equally bad ones the last.
pub open spec fn worst(
    trouble: StreamTrouble,
    streams: Seq<TelemetryModel>,
    local_node_id: Seq<char>,
    relay_nodes: Seq<RelayNodeSessionSnapshot>,
    now_ms: u64,
) -> Option<(int, u64)>
    decreases streams.len(),
{
    if streams.len() == 0 {
        None
    } else {
        let front = worst(trouble, streams.drop_last(), local_node_id, relay_nodes, now_ms);
        match trouble_key(trouble, streams.last(), local_node_id, relay_nodes, now_ms) {
            Some(key) => match front {
                Some((_, best)) => if key >= best {
                    Some((streams.len() - 1, key))
                } else {
                    front
                },
                None => Some((streams.len() - 1, key)),
            },
            None => front,
        }
    }
}

/// The message about a trouble.
pub open spec fn trouble_message(
    trouble: StreamTrouble,
    count: nat,
    stream: TelemetryModel,
    key: u64,
) -> Seq<char> {
    match trouble {
        StreamTrouble::Stale => decimal(count) + " mesh stream(s) are stale; latest stale stream "@
            + stream.stream_id_text + " on "@ + stream.node_id + " has not ingested bytes for "@
            + decimal(stream.last_ingest_age_ms->0 as nat) + " ms."@,
        StreamTrouble::Gap => decimal(count)
            + " stream publication(s) have retained canonical gaps; stream "@
            + stream.stream_id_text + " on "@ + stream.node_id + " has "@ + decimal(key as nat)
            + " missing object(s)."@,
        StreamTrouble::SlowEpoch => decimal(count)
            + " stream publication(s) exceeded the source-epoch activation target; stream "@
            + stream.stream_id_text + " on "@ + stream.node_id + " took "@ + decimal(key as nat)
            + " us to accept its first canonical object."@,
        StreamTrouble::Lagging => decimal(count)
            + " mesh stream replica(s) are behind the stream head; latest lag is "@ + decimal(
            key as nat,
        ) + " part(s) for stream "@ + stream.stream_id_text + " on "@ + stream.node_id + "."@,
    }
}

/// The code of a trouble.
pub open spec fn trouble_code(trouble: StreamTrouble) -> Seq<char> {
    match trouble {
        StreamTrouble::Stale => "mesh_stream_stale"@,
        StreamTrouble::Gap => "canonical_publication_gap"@,
        StreamTrouble::SlowEpoch => "canonical_epoch_activation_slow"@,
        StreamTrouble::Lagging => "mesh_stream_lagging"@,
    }
}

/// Streams with a trouble, with the one that is worst off.
pub open spec fn trouble_alerts(
    trouble: StreamTrouble,
    streams: Seq<TelemetryModel>,
    local_node_id: Seq<char>,
    relay_nodes: Seq<RelayNodeSessionSnapshot>,
    now_ms: u64,
) -> Seq<AlertModel> {
    let count = trouble_count(trouble, streams, local_node_id, relay_nodes, now_ms);
    match worst(trouble, streams, local_node_id, relay_nodes, now_ms) {
        Some((i, key)) => seq![
            AlertModel {
                level: "warn"@,
                code: trouble_code(trouble),
                message: trouble_message(trouble, count, streams[i], key),
                count: count as u64,
                last_seen_unix_ms: Some(
                    if trouble is Stale {
                        key
                    } else {
                        now_ms
                    },
                ),
                node_id: Some(streams[i].node_id),
                stream_id_text: Some(streams[i].stream_id_text),
            },
        ],
        None => Seq::empty(),
    }
}

fn trouble_text(trouble: StreamTrouble, count: u64, stream: &StreamTelemetry, key: u64) -> (r: String)
    requires
        trouble is Stale ==> stream@.last_ingest_age_ms is Some,
    ensures
        r@ == trouble_message(trouble, count as nat, stream@, key),
{
    let mut out = decimal_text(count);
    match trouble {
        StreamTrouble::Stale => {
            out.append(" mesh stream(s) are stale; latest stale stream ");
            out.append(stream.stream_id_text.as_str());
            out.append(" on ");
            out.append(stream.node_id.as_str());
            out.append(" has not ingested bytes for ");
            match stream.last_ingest_age_ms {
                Some(age_ms) => {
                    out.append(decimal_text(age_ms).as_str());
                },
                None => {},
            }
            out.append(" ms.");
        },
        StreamTrouble::Gap => {
            out.append(" stream publication(s) have retained canonical gaps; stream ");
            out.append(stream.stream_id_text.as_str());
            out.append(" on ");
            out.append(stream.node_id.as_str());
            out.append(" has ");
            out.append(decimal_text(key).as_str());
            out.append(" missing object(s).");
        },
        StreamTrouble::SlowEpoch => {
            out.append(
                " stream publication(s) exceeded the source-epoch activation target; stream ",
            );
            out.append(stream.stream_id_text.as_str());
            out.append(" on ");
            out.append(stream.node_id.as_str());
            out.append(" took ");
            out.append(decimal_text(key).as_str());
            out.append(" us to accept its first canonical object.");
        },
        StreamTrouble::Lagging => {
            out.append(" mesh stream replica(s) are behind the stream head; latest lag is ");
            out.append(decimal_text(key).as_str());
            out.append(" part(s) for stream ");
            out.append(stream.stream_id_text.as_str());
            out.append(" on ");
            out.append(stream.node_id.as_str());
            out.append(".");
        },
    }
    out
}

fn alert_trouble(
    alerts: &mut Vec<MeshAlert>,
    trouble: StreamTrouble,
    streams: &Vec<StreamTelemetry>,
    local_node_id: &str,
    relay_nodes: &Vec<RelayNodeSessionSnapshot>,
    now_ms: u64,
)
    ensures
        alert_views(final(alerts)@) == alert_views(old(alerts)@) + trouble_alerts(
            trouble,
            telemetry_views(streams@),
            local_node_id@,
            relay_nodes@,
            now_ms,
        ),
{
    let ghost before = alerts@;
    let ghost list = telemetry_views(streams@);
    let mut count: u64 = 0;
    let mut best: Option<(usize, u64)> = None;
    let mut i: usize = 0;
    proof {
        assert(list.take(0) =~= Seq::<TelemetryModel>::empty());
    }
    while i < streams.len()
        invariant
            list == telemetry_views(streams@),
            i <= streams.len(),
            count <= i,
            count == trouble_count(
                trouble,
                list.take(i as int),
                local_node_id@,
                relay_nodes@,
                now_ms,
            ),
            match (
                best,
                worst(trouble, list.take(i as int), local_node_id@, relay_nodes@, now_ms),
            ) {
                (Some((x, k)), Some((y, key))) => x == y && x < i && k == key && trouble_key(
                    trouble,
                    list[x as int],
                    local_node_id@,
                    relay_nodes@,
                    now_ms,
                ) == Some(key),
                (None, None) => true,
                _ => false,
            },
        decreases streams.len() - i,
    {
        proof {
            assert(list.take(i + 1).drop_last() =~= list.take(i as int));
            assert(list.take(i + 1).last() == streams@[i as int]@);
        }
        match stream_trouble(trouble, &streams[i], local_node_id, relay_nodes, now_ms) {
            Some(key) => {
                count = count + 1;
                let worse: bool = match best {
                    Some((_, k)) => key >= k,
                    None => true,
                };
                if worse {
                    best = Some((i, key));
                }
            },
            None => {},
        }
        i = i + 1;
    }
    proof {
        assert(list.take(i as int) =~= list);
    }
    match best {
        Some((x, key)) => {
            assert(list[x as int] == streams@[x as int]@);
            let message = trouble_text(trouble, count, &streams[x], key);
            let code: &'static str = match trouble {
                StreamTrouble::Stale => "mesh_stream_stale",
                StreamTrouble::Gap => "canonical_publication_gap",
                StreamTrouble::SlowEpoch => "canonical_epoch_activation_slow",
                StreamTrouble::Lagging => "mesh_stream_lagging",
            };
            let last_seen: u64 = match trouble {
                StreamTrouble::Stale => key,
                _ => now_ms,
            };
            alerts.push(
                MeshAlert {
                    level: "warn",
                    code,
                    message,
                    count,
                    last_seen_unix_ms: Some(last_seen),
                    node_id: Some(streams[x].node_id.clone()),
                    stream_id_text: Some(streams[x].stream_id_text.clone()),
                },
            );
        },
        None => {},
    }
    proof {
        assert(alert_views(alerts@) =~= alert_views(before) + trouble_alerts(
            trouble,
            list,
            local_node_id@,
            relay_nodes@,
            now_ms,
        ));
    }
}

/// A stream that is split across source epochs: the first of them.
pub open spec fn divergence_alerts(streams: Seq<TelemetryModel>, now_ms: u64) -> Seq<AlertModel> {
    match first_divergent(streams, 0) {
        Some(i) => {
            let stream_id = streams[i].stream_id;
            let epochs = epoch_count(streams, stream_id);
            seq![
                AlertModel {
                    level: "warn"@,
                    code: "canonical_epoch_divergence"@,
                    message: "Stream "@ + decimal(stream_id as nat) + " is split across "@
                        + decimal(epochs)
                        + " canonical source epochs during publication convergence."@,
                    count: epochs as u64,
                    last_seen_unix_ms: Some(now_ms),
                    node_id: None,
                    stream_id_text: Some(decimal(stream_id as nat)),
                },
            ]
        },
        None => Seq::empty(),
    }
}

fn alert_divergence(alerts: &mut Vec<MeshAlert>, streams: &Vec<StreamTelemetry>, now_ms: u64)
    ensures
        alert_views(final(alerts)@) == alert_views(old(alerts)@) + divergence_alerts(
            telemetry_views(streams@),
            now_ms,
        ),
{
    let ghost before = alerts@;
    match find_divergent(streams) {
        Some(i) => {
            let stream_id: u64 = streams[i].stream_id;
            assert(telemetry_views(streams@)[i as int].stream_id == stream_id);
            let epochs: usize = count_epochs(streams, stream_id);
            let mut message = "Stream ".to_owned();
            message.append(decimal_text(stream_id).as_str());
            message.append(" is split across ");
            message.append(decimal_text(epochs as u64).as_str());
            message.append(" canonical source epochs during publication convergence.");
            alerts.push(
                MeshAlert {
                    level: "warn",
                    code: "canonical_epoch_divergence",
                    message,
                    count: epochs as u64,
                    last_seen_unix_ms: Some(now_ms),
                    node_id: None,
                    stream_id_text: Some(stream_id_text(stream_id)),
                },
            );
        },
        None => {},
    }
    proof {
        assert(alert_views(alerts@) =~= alert_views(before) + divergence_alerts(
            telemetry_views(streams@),
            now_ms,
        ));
    }
}

/// The time within which a relay does 95 in 100 pieces of its work.
pub open spec fn relay_p95(relay: RelaySessionIngressSnapshot) -> Option<u64> {
    percentile_bound(
        relay.processing_duration_count,
        relay.processing_duration_buckets@,
        95,
        relay.processing_duration_max_us,
    )
}

/// A relay that is too slow.
pub open spec fn relay_alert(node: RelayNodeSessionSnapshot, now_ms: u64) -> Seq<AlertModel> {
    match relay_p95(node.relay_session) {
        Some(p95) => alert_if(
            p95 > RELAY_PROCESSING_P95_WARN_US,
            AlertModel {
                level: "warn"@,
                code: "relay_processing_p95_exceeded"@,
                message: "Relay "@ + node.node_id@ + " application processing p95 is "@ + decimal(
                    p95 as nat,
                ) + " us; the interactive and premium limit is "@ + decimal(
                    RELAY_PROCESSING_P95_WARN_US as nat,
                ) + " us."@,
                count: p95,
                last_seen_unix_ms: Some(now_ms),
                node_id: Some(node.node_id@),
                stream_id_text: None,
            },
        ),
        None => Seq::empty(),
    }
}

/// Relays that are too slow.
pub open spec fn relay_alerts(nodes: Seq<RelayNodeSessionSnapshot>, now_ms: u64) -> Seq<AlertModel>
    decreases nodes.len(),
{
    if nodes.len() == 0 {
        Seq::empty()
    } else {
        relay_alerts(nodes.drop_last(), now_ms) + relay_alert(nodes.last(), now_ms)
    }
}

fn measure_relay(relay: &RelaySessionIngressSnapshot) -> (r: Option<u64>)
    ensures
        r == relay_p95(*relay),
{
    let mut buckets: Vec<u64> = Vec::new();
    let mut k: usize = 0;
    while k < 13
        invariant
            k <= 13,
            buckets@ == relay.processing_duration_buckets@.take(k as int),
        decreases 13 - k,
    {
        buckets.push(relay.processing_duration_buckets[k]);
        proof {
            assert(buckets@ =~= relay.processing_duration_buckets@.take(k + 1));
        }
        k = k + 1;
    }
    proof {
        assert(buckets@ =~= relay.processing_duration_buckets@);
        lemma_first_reaching_bound(
            buckets@,
            percentile_rank(relay.processing_duration_count, 95),
        );
    }
    histogram_percentile_upper_bound_us(
        relay.processing_duration_count,
        buckets.as_slice(),
        95,
        relay.processing_duration_max_us,
    )
}

fn alert_relays(alerts: &mut Vec<MeshAlert>, nodes: &Vec<RelayNodeSessionSnapshot>, now_ms: u64)
    ensures
        alert_views(final(alerts)@) == alert_views(old(alerts)@) + relay_alerts(nodes@, now_ms),
{
    let ghost before = alert_views(alerts@);
    let mut i: usize = 0;
    proof {
        assert(nodes@.take(0) =~= Seq::<RelayNodeSessionSnapshot>::empty());
        lemma_no_alert(before);
    }
    while i < nodes.len()
        invariant
            i <= nodes.len(),
            alert_views(alerts@) == before + relay_alerts(nodes@.take(i as int), now_ms),
        decreases nodes.len() - i,
    {
        let ghost mid = alert_views(alerts@);
        proof {
            assert(nodes@.take(i + 1).drop_last() =~= nodes@.take(i as int));
            assert(nodes@.take(i + 1).last() == nodes@[i as int]);
        }
        match measure_relay(&nodes[i].relay_session) {
            Some(p95) => {
                if p95 > RELAY_PROCESSING_P95_WARN_US {
                    let mut message = "Relay ".to_owned();
                    message.append(nodes[i].node_id.as_str());
                    message.append(" application processing p95 is ");
                    message.append(decimal_text(p95).as_str());
                    message.append(" us; the interactive and premium limit is ");
                    message.append(decimal_text(RELAY_PROCESSING_P95_WARN_US).as_str());
                    message.append(" us.");
                    alerts.push(
                        MeshAlert {
                            level: "warn",
                            code: "relay_processing_p95_exceeded",
                            message,
                            count: p95,
                            last_seen_unix_ms: Some(now_ms),
                            node_id: Some(nodes[i].node_id.clone()),
                            stream_id_text: None,
                        },
                    );
                }
            },
            None => {},
        }
        proof {
            assert(alert_views(alerts@) =~= mid + relay_alert(nodes@[i as int], now_ms));
            assert(alert_views(alerts@) =~= before + relay_alerts(nodes@.take(i + 1), now_ms));
        }
        i = i + 1;
    }
    proof {
        assert(nodes@.take(i as int) =~= nodes@);
    }
}

/// All the alerts of a mesh, topic by topic.
pub open spec fn mesh_alerts(
    aggregate: AggregateMetrics,
    nodes: Seq<MeshNode>,
    edges: Seq<EdgeServiceSnapshot>,
    connections: Seq<ConnectionSnapshot>,
    local_stream: StatsSnapshot,
    local_node_id: Seq<char>,
    streams: Seq<TelemetryModel>,
    relay_nodes: Seq<RelayNodeSessionSnapshot>,
    commands: Seq<ControlCommand>,
    telemetry: TelemetryHealthSnapshot,
    relay: RelaySessionIngressSnapshot,
    provision: ProvisionStatus,
    telemetry_peers: Seq<TelemetryPeerStatus>,
    discovery: PrivateDiscoveryStatus,
    now_ms: u64,
) -> Seq<AlertModel> {
    visibility_alerts(aggregate, relay, now_ms) + unknown_peer_alerts(connections, now_ms)
        + draining_alerts(nodes, now_ms) + playback_alerts(edges, now_ms) + edge_error_alerts(
        edges,
        now_ms,
    ) + storage_alerts(nodes, now_ms) + command_alerts(commands) + discovery_alerts(
        provision,
        discovery,
        local_node_id,
        now_ms,
    ) + telemetry_peer_alerts(telemetry_peers, now_ms) + stale_telemetry_alerts(telemetry)
        + backend_alerts(provision, now_ms) + local_ingest_alerts(local_stream, now_ms)
        + trouble_alerts(StreamTrouble::Stale, streams, local_node_id, relay_nodes, now_ms)
        + trouble_alerts(StreamTrouble::Gap, streams, local_node_id, relay_nodes, now_ms)
        + trouble_alerts(StreamTrouble::SlowEpoch, streams, local_node_id, relay_nodes, now_ms)
        + divergence_alerts(streams, now_ms) + relay_alerts(relay_nodes, now_ms) + trouble_alerts(
        StreamTrouble::Lagging,
        streams,
        local_node_id,
        relay_nodes,
        now_ms,
    )
}

/// The alerts of a mesh.
pub fn derive_mesh_alerts(
    aggregate: &AggregateMetrics,
    nodes: &Vec<MeshNode>,
    edge_services: &Vec<EdgeServiceSnapshot>,
    connections: &Vec<ConnectionSnapshot>,
    local_stream: &StatsSnapshot,
    local_node_id: &str,
    streams: &Vec<StreamTelemetry>,
    relay_nodes: &Vec<RelayNodeSessionSnapshot>,
    recent_commands: &Vec<ControlCommand>,
    telemetry: &TelemetryHealthSnapshot,
    relay_session: &RelaySessionIngressSnapshot,
    provision: &ProvisionStatus,
    telemetry_peers: &Vec<TelemetryPeerStatus>,
    private_discovery: &PrivateDiscoveryStatus,
    now_ms: u64,
) -> (r: Vec<MeshAlert>)
    requires
        error_total(edge_services@) <= u64::MAX,
    ensures
        alert_views(r@) == mesh_alerts(
            *aggregate,
            nodes@,
            edge_services@,
            connections@,
            *local_stream,
            local_node_id@,
            telemetry_views(streams@),
            relay_nodes@,
            recent_commands@,
            *telemetry,
            *relay_session,
            *provision,
            telemetry_peers@,
            *private_discovery,
            now_ms,
        ),
{
    let mut alerts: Vec<MeshAlert> = Vec::new();
    let ghost first = visibility_alerts(*aggregate, *relay_session, now_ms);
    alert_visibility(&mut alerts, aggregate, relay_session, now_ms);
    proof {
        assert(alert_views(alerts@) =~= first);
    }
    alert_unknown_peers(&mut alerts, connections, now_ms);
    alert_draining(&mut alerts, nodes, now_ms);
    alert_playback(&mut alerts, edge_services, now_ms);
    alert_edge_errors(&mut alerts, edge_services, now_ms);
    alert_storage(&mut alerts, nodes, now_ms);
    alert_commands(&mut alerts, recent_commands);
    alert_discovery(&mut alerts, provision, private_discovery, local_node_id, now_ms);
    alert_telemetry_peers(&mut alerts, telemetry_peers, now_ms);
    alert_stale_telemetry(&mut alerts, telemetry);
    alert_backends(&mut alerts, provision, now_ms);
    alert_local_ingest(&mut alerts, local_stream, now_ms);
    alert_trouble(
        &mut alerts,
        StreamTrouble::Stale,
        streams,
        local_node_id,
        relay_nodes,
        now_ms,
    );
    alert_trouble(
        &mut alerts,
        StreamTrouble::Gap,
        streams,
        local_node_id,
        relay_nodes,
        now_ms,
    );
    alert_trouble(
        &mut alerts,
        StreamTrouble::SlowEpoch,
        streams,
        local_node_id,
        relay_nodes,
        now_ms,
    );
    alert_divergence(&mut alerts, streams, now_ms);
    alert_relays(&mut alerts, relay_nodes, now_ms);
    alert_trouble(
        &mut alerts,
        StreamTrouble::Lagging,
        streams,
        local_node_id,
        relay_nodes,
        now_ms,
    );
    alerts
}

/// Something that happened.
#[derive(Debug)]
pub struct MeshActivity {
    pub level: &'static str,
    pub code: String,
    pub message: String,
    pub count: u64,
    pub seen_unix_ms: u64,
    pub node_id: Option<String>,
    pub stream_id_text: Option<String>,
}

/// Something that happened.
#[verifier::ext_equal]
pub struct ActivityModel {
    pub level: Seq<char>,
    pub code: Seq<char>,
    pub message: Seq<char>,
    pub count: u64,
    pub seen_unix_ms: u64,
    pub node_id: Option<Seq<char>>,
    pub stream_id_text: Option<Seq<char>>,
}

impl View for MeshActivity {
    type V = ActivityModel;

    open spec fn view(&self) -> ActivityModel {
        ActivityModel {
            level: self.level@,
            code: self.code@,
            message: self.message@,
            count: self.count,
            seen_unix_ms: self.seen_unix_ms,
            node_id: view_of(self.node_id),
            stream_id_text: view_of(self.stream_id_text),
        }
    }
}

/// The activity of a list.
pub open spec fn activity_views(list: Seq<MeshActivity>) -> Seq<ActivityModel> {
    list.map_values(|a: MeshActivity| a@)
}

impl Ranked for MeshActivity {
    /// The later comes first; of the same time the one with the smaller code.
    open spec fn le(self, other: Self) -> bool {
        self.seen_unix_ms > other.seen_unix_ms || (self.seen_unix_ms == other.seen_unix_ms
            && text_le(self.code@, other.code@))
    }

    proof fn rank_laws(a: Self, b: Self, c: Self) {
        crate::order::lemma_text_total(a.code@, b.code@);
        if text_le(a.code@, b.code@) && text_le(b.code@, c.code@) {
            crate::order::lemma_text_transitive(a.code@, b.code@, c.code@);
        }
    }

    fn not_after(&self, other: &Self) -> (r: bool) {
        self.seen_unix_ms > other.seen_unix_ms || (self.seen_unix_ms == other.seen_unix_ms
            && text_not_after(self.code.as_str(), other.code.as_str()))
    }
}

/// The activity that the sums over a mesh stand for.
pub open spec fn snapshot_activity(aggregate: AggregateMetrics, now_ms: u64) -> ActivityModel {
    ActivityModel {
        level: "info"@,
        code: "mesh_snapshot"@,
        message: "Mesh sees "@ + decimal(aggregate.node_count as nat) + " node(s), "@ + decimal(
            aggregate.connection_count as nat,
        ) + " link(s), and "@ + decimal(aggregate.active_streams as nat) + " active stream(s)."@,
        count: aggregate.node_count as u64,
        seen_unix_ms: now_ms,
        node_id: None,
        stream_id_text: None,
    }
}

/// The activity that an alert stands for.
pub open spec fn alert_activity(alert: AlertModel, now_ms: u64) -> ActivityModel {
    ActivityModel {
        level: alert.level,
        code: alert.code,
        message: alert.message,
        count: alert.count,
        seen_unix_ms: match alert.last_seen_unix_ms {
            Some(time) => time,
            None => now_ms,
        },
        node_id: alert.node_id,
        stream_id_text: alert.stream_id_text,
    }
}

/// The activity that a command stands for.
pub open spec fn command_activity(command: ControlCommand) -> ActivityModel {
    ActivityModel {
        level: match outcome_of(command.status@) {
            CommandOutcome::Failed => "error"@,
            CommandOutcome::Skipped => "warn"@,
            CommandOutcome::Other => "info"@,
        },
        code: kind_code(command.kind),
        message: kind_label(command.kind) + " command "@ + command.status@ + "."@,
        count: 1,
        seen_unix_ms: command.created_unix_ms,
        node_id: view_of(command.node_id),
        stream_id_text: view_of(command.stream_id_text),
    }
}

/// The activity of a mesh before it is sorted and cut: its sums, its alerts, its commands.
pub open spec fn all_activity(
    aggregate: AggregateMetrics,
    alerts: Seq<AlertModel>,
    commands: Seq<ControlCommand>,
    now_ms: u64,
) -> Seq<ActivityModel> {
    seq![snapshot_activity(aggregate, now_ms)] + alerts.map_values(
        |a: AlertModel| alert_activity(a, now_ms),
    ) + commands.map_values(|c: ControlCommand| command_activity(c))
}

fn activity_of_alert(alert: &MeshAlert, now_ms: u64) -> (r: MeshActivity)
    ensures
        r@ == alert_activity(alert@, now_ms),
{
    MeshActivity {
        level: alert.level,
        code: alert.code.to_owned(),
        message: alert.message.clone(),
        count: alert.count,
        seen_unix_ms: match alert.last_seen_unix_ms {
            Some(time) => time,
            None => now_ms,
        },
        node_id: copy_text(&alert.node_id),
        stream_id_text: copy_text(&alert.stream_id_text),
    }
}

fn activity_of_command(command: &ControlCommand) -> (r: MeshActivity)
    ensures
        r@ == command_activity(*command),
{
    let level: &'static str = match command_outcome(command.status.as_str()) {
        CommandOutcome::Failed => "error",
        CommandOutcome::Skipped => "warn",
        CommandOutcome::Other => "info",
    };
    let mut message = control_kind_label(command.kind).to_owned();
    message.append(" command ");
    message.append(command.status.as_str());
    message.append(".");
    MeshActivity {
        level,
        code: control_kind_code(command.kind).to_owned(),
        message,
        count: 1,
        seen_unix_ms: command.created_unix_ms,
        node_id: copy_text(&command.node_id),
        stream_id_text: copy_text(&command.stream_id_text),
    }
}

/// The first of a list, as many as are reported.
pub open spec fn reported_part(list: Seq<MeshActivity>) -> Seq<MeshActivity> {
    if list.len() > MESH_ACTIVITY_LIMIT {
        list.take(MESH_ACTIVITY_LIMIT as int)
    } else {
        list
    }
}

/// The activity of a mesh, the latest first, as much of it as is reported.
pub fn derive_mesh_activity(
    aggregate: &AggregateMetrics,
    alerts: &Vec<MeshAlert>,
    recent_commands: &Vec<ControlCommand>,
    now_ms: u64,
) -> (r: Vec<MeshActivity>)
    ensures
        r@.len() <= MESH_ACTIVITY_LIMIT,
        exists|all: Seq<MeshActivity>| #[trigger]
            activity_views(all) == all_activity(
                *aggregate,
                alert_views(alerts@),
                recent_commands@,
                now_ms,
            ) && r@ == reported_part(ranked(all)),
{
    let mut message = "Mesh sees ".to_owned();
    message.append(decimal_text(aggregate.node_count as u64).as_str());
    message.append(" node(s), ");
    message.append(decimal_text(aggregate.connection_count as u64).as_str());
    message.append(" link(s), and ");
    message.append(decimal_text(aggregate.active_streams).as_str());
    message.append(" active stream(s).");
    let mut activity: Vec<MeshActivity> = Vec::new();
    activity.push(
        MeshActivity {
            level: "info",
            code: "mesh_snapshot".to_owned(),
            message,
            count: aggregate.node_count as u64,
            seen_unix_ms: now_ms,
            node_id: None,
            stream_id_text: None,
        },
    );
    let ghost head = seq![snapshot_activity(*aggregate, now_ms)];
    let ghost told = alert_views(alerts@).map_values(|a: AlertModel| alert_activity(a, now_ms));
    let ghost done = recent_commands@.map_values(|c: ControlCommand| command_activity(c));
    proof {
        assert(activity_views(activity@) =~= head);
        assert(head + told.take(0) =~= head);
    }
    let mut i: usize = 0;
    while i < alerts.len()
        invariant
            i <= alerts.len(),
            told == alert_views(alerts@).map_values(|a: AlertModel| alert_activity(a, now_ms)),
            activity_views(activity@) == head + told.take(i as int),
        decreases alerts.len() - i,
    {
        let ghost before = activity@;
        activity.push(activity_of_alert(&alerts[i], now_ms));
        proof {
            assert(told.take(i + 1) =~= told.take(i as int).push(told[i as int]));
            assert(activity_views(activity@) =~= activity_views(before).push(told[i as int]));
            assert(activity_views(activity@) =~= head + told.take(i + 1));
        }
        i = i + 1;
    }
    proof {
        assert(told.take(i as int) =~= told);
        assert(head + told + done.take(0) =~= head + told);
    }
    i = 0;
    while i < recent_commands.len()
        invariant
            i <= recent_commands.len(),
            done == recent_commands@.map_values(|c: ControlCommand| command_activity(c)),
            activity_views(activity@) == head + told + done.take(i as int),
        decreases recent_commands.len() - i,
    {
        let ghost before = activity@;
        activity.push(activity_of_command(&recent_commands[i]));
        proof {
            assert(done.take(i + 1) =~= done.take(i as int).push(done[i as int]));
            assert(activity_views(activity@) =~= activity_views(before).push(done[i as int]));
            assert(activity_views(activity@) =~= head + told + done.take(i + 1));
        }
        i = i + 1;
    }
    proof {
        assert(done.take(i as int) =~= done);
    }
    let ghost all = activity@;
    let mut sorted = sort_by_rank(activity);
    let ghost whole = sorted@;
    sorted.truncate(MESH_ACTIVITY_LIMIT);
    proof {
        assert(sorted@ =~= reported_part(whole));
        assert(activity_views(all) == all_activity(
            *aggregate,
            alert_views(alerts@),
            recent_commands@,
            now_ms,
        ));
    }
    sorted
}

} // verus!
