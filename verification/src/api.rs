//! The view of a whole mesh, put together from what its nodes tell.

use vstd::prelude::*;
use vstd::string::*;
use crate::addr::{is_private_mesh_target, private_mesh_target};
use crate::alerts::{
    activity_views, alert_views, all_activity, derive_mesh_activity, derive_mesh_alerts,
    error_total, mesh_alerts, reported_part, MeshActivity, MeshAlert,
};
use crate::control::ControlCommand;
use crate::edge::EdgeServiceSnapshot;
use crate::live_state::saturating_sum;
use crate::mesh::{
    private_count, resolved_count, AggregateMetrics, ConnectionSnapshot, MeshNode, MeshSnapshot,
    OrchestrationStatus, PeerSnapshot, RelayNodeSessionSnapshot, TelemetryHealthSnapshot,
    TopologyConfidenceSnapshot,
};
use crate::order::{
    lemma_text_antisymmetric, lemma_text_reflexive, lemma_text_total, lemma_text_transitive,
    ranked, ranking_orders, sort_by_rank, text_le, text_not_after, Ranked,
};
use crate::relay_snapshot::RelaySessionIngressSnapshot;
use crate::streams::{
    annotate_stream_lag, annotated, stats_telemetry, stream_id_text, telemetry_views,
    StatsSnapshot, StreamTelemetry, TelemetryModel,
};
use crate::text::{decimal, same_text, view_of};

verus! {

pub const DEFAULT_MESH_FEC_REPAIR_SYMBOLS: u32 = 1;

/// The default ratio of repair symbols, 0.03, as the bits of a single.
pub const DEFAULT_MESH_FEC_REPAIR_RATIO_BITS: u32 = 1_022_739_087;

pub const DEFAULT_MESH_FEC_MAX_REPAIR_SYMBOLS: u32 = 32;

pub const DEFAULT_MESH_FEC_SYMBOL_SIZE: u16 = 1316;

pub const DEFAULT_MESH_SYNC_INTERVAL_MS: u64 = 20;

/// How the cache mesh is carried.
#[derive(Clone, Copy, Debug, PartialEq, Eq, Structural)]
pub struct MeshTransportConfigSnapshot {
    pub sync_interval_ms: u64,
    pub min_repair_symbols: u32,
    /// The ratio of repair symbols, as the bits of a single.
    pub repair_ratio_bits: u32,
    pub max_repair_symbols: u32,
    pub symbol_size: u16,
}

impl MeshTransportConfigSnapshot {
    /// The transport where nothing else is configured.
    pub open spec fn usual() -> Self {
        MeshTransportConfigSnapshot {
            sync_interval_ms: DEFAULT_MESH_SYNC_INTERVAL_MS,
            min_repair_symbols: DEFAULT_MESH_FEC_REPAIR_SYMBOLS,
            repair_ratio_bits: DEFAULT_MESH_FEC_REPAIR_RATIO_BITS,
            max_repair_symbols: DEFAULT_MESH_FEC_MAX_REPAIR_SYMBOLS,
            symbol_size: DEFAULT_MESH_FEC_SYMBOL_SIZE,
        }
    }
}

impl Default for MeshTransportConfigSnapshot {
    fn default() -> (r: Self)
        ensures
            r == MeshTransportConfigSnapshot::usual(),
    {
        MeshTransportConfigSnapshot {
            sync_interval_ms: DEFAULT_MESH_SYNC_INTERVAL_MS,
            min_repair_symbols: DEFAULT_MESH_FEC_REPAIR_SYMBOLS,
            repair_ratio_bits: DEFAULT_MESH_FEC_REPAIR_RATIO_BITS,
            max_repair_symbols: DEFAULT_MESH_FEC_MAX_REPAIR_SYMBOLS,
            symbol_size: DEFAULT_MESH_FEC_SYMBOL_SIZE,
        }
    }
}

/// What the cache mesh sent and received.
#[derive(Clone, Copy, Debug, PartialEq, Eq, Structural)]
pub struct MeshFecRuntimeSnapshot {
    pub tx_objects: u64,
    pub tx_protected_bytes: u64,
    pub tx_source_datagrams: u64,
    pub tx_repair_datagrams: u64,
    pub tx_wire_bytes: u64,
    pub tx_errors: u64,
    pub rx_wire_datagrams: u64,
    pub rx_wire_bytes: u64,
    pub rx_source_datagrams: u64,
    pub rx_repair_datagrams: u64,
    pub rx_decoded_objects: u64,
    pub rx_decoded_bytes: u64,
    pub rx_repaired_objects: u64,
    pub rx_repaired_source_datagrams: u64,
    pub rx_late_source_datagrams: u64,
    pub rx_presumed_lost_source_datagrams: u64,
    pub rx_decode_errors: u64,
    pub rx_expired_objects: u64,
    pub rx_inflight_objects: u64,
}

impl MeshFecRuntimeSnapshot {
    /// Nothing sent and nothing received.
    pub open spec fn nothing() -> Self {
        MeshFecRuntimeSnapshot {
            tx_objects: 0,
            tx_protected_bytes: 0,
            tx_source_datagrams: 0,
            tx_repair_datagrams: 0,
            tx_wire_bytes: 0,
            tx_errors: 0,
            rx_wire_datagrams: 0,
            rx_wire_bytes: 0,
            rx_source_datagrams: 0,
            rx_repair_datagrams: 0,
            rx_decoded_objects: 0,
            rx_decoded_bytes: 0,
            rx_repaired_objects: 0,
            rx_repaired_source_datagrams: 0,
            rx_late_source_datagrams: 0,
            rx_presumed_lost_source_datagrams: 0,
            rx_decode_errors: 0,
            rx_expired_objects: 0,
            rx_inflight_objects: 0,
        }
    }
}

impl Default for MeshFecRuntimeSnapshot {
    fn default() -> (r: Self)
        ensures
            r == MeshFecRuntimeSnapshot::nothing(),
    {
        MeshFecRuntimeSnapshot {
            tx_objects: 0,
            tx_protected_bytes: 0,
            tx_source_datagrams: 0,
            tx_repair_datagrams: 0,
            tx_wire_bytes: 0,
            tx_errors: 0,
            rx_wire_datagrams: 0,
            rx_wire_bytes: 0,
            rx_source_datagrams: 0,
            rx_repair_datagrams: 0,
            rx_decoded_objects: 0,
            rx_decoded_bytes: 0,
            rx_repaired_objects: 0,
            rx_repaired_source_datagrams: 0,
            rx_late_source_datagrams: 0,
            rx_presumed_lost_source_datagrams: 0,
            rx_decode_errors: 0,
            rx_expired_objects: 0,
            rx_inflight_objects: 0,
        }
    }
}

/// Why a replica is wanted somewhere.
#[derive(Debug)]
pub enum ReplicaReason {
    BaselineRegion { region: String },
    BaselineContinent { continent: String },
    DemandRegion { region: String },
    DemandContinent { continent: String },
}

/// A reason as text.
pub open spec fn reason_text(reason: ReplicaReason) -> Seq<char> {
    match reason {
        ReplicaReason::BaselineRegion { region } => "baseline region "@ + region@,
        ReplicaReason::BaselineContinent { continent } => "baseline continent "@ + continent@,
        ReplicaReason::DemandRegion { region } => "demand region "@ + region@,
        ReplicaReason::DemandContinent { continent } => "demand continent "@ + continent@,
    }
}

/// A reason as text.
pub fn replica_reason_text(reason: &ReplicaReason) -> (r: String)
    ensures
        r@ == reason_text(*reason),
{
    match reason {
        ReplicaReason::BaselineRegion { region } => {
            let mut out = "baseline region ".to_owned();
            out.append(region.as_str());
            out
        },
        ReplicaReason::BaselineContinent { continent } => {
            let mut out = "baseline continent ".to_owned();
            out.append(continent.as_str());
            out
        },
        ReplicaReason::DemandRegion { region } => {
            let mut out = "demand region ".to_owned();
            out.append(region.as_str());
            out
        },
        ReplicaReason::DemandContinent { continent } => {
            let mut out = "demand continent ".to_owned();
            out.append(continent.as_str());
            out
        },
    }
}

/// A replica that is wanted somewhere.
#[derive(Debug)]
pub struct ReplicaPlacement {
    pub stream_id: u64,
    pub target_node_id: String,
    pub reason: ReplicaReason,
    /// The score of the placement, as the bits of a double.
    pub score_bits: u64,
}

/// A replica that is wanted somewhere, as it is reported.
#[derive(Debug)]
pub struct ReplicaPlacementSnapshot {
    pub stream_id: u64,
    pub stream_id_text: String,
    pub target_node_id: String,
    pub reason: ReplicaReason,
    pub reason_text: String,
    pub score_bits: u64,
}

impl ReplicaPlacementSnapshot {
    /// Whether this reports a placement.
    pub open spec fn reports(self, placement: ReplicaPlacement) -> bool {
        &&& self.stream_id == placement.stream_id
        &&& self.stream_id_text@ == decimal(placement.stream_id as nat)
        &&& self.target_node_id == placement.target_node_id
        &&& self.reason == placement.reason
        &&& self.reason_text@ == reason_text(placement.reason)
        &&& self.score_bits == placement.score_bits
    }

    /// A placement as it is reported.
    pub fn from_placement(placement: ReplicaPlacement) -> (r: Self)
        ensures
            r.reports(placement),
    {
        let text = replica_reason_text(&placement.reason);
        ReplicaPlacementSnapshot {
            stream_id: placement.stream_id,
            stream_id_text: stream_id_text(placement.stream_id),
            target_node_id: placement.target_node_id,
            reason: placement.reason,
            reason_text: text,
            score_bits: placement.score_bits,
        }
    }
}

/// The view of a whole mesh.
#[derive(Debug)]
pub struct MeshApiSnapshot {
    pub updated_unix_ms: u64,
    pub node: MeshNode,
    pub mesh_transport: MeshTransportConfigSnapshot,
    pub mesh_fec: MeshFecRuntimeSnapshot,
    pub relay_session: RelaySessionIngressSnapshot,
    pub relay_nodes: Vec<RelayNodeSessionSnapshot>,
    pub peers: Vec<PeerSnapshot>,
    pub stream: StatsSnapshot,
    pub recent_commands: Vec<ControlCommand>,
    pub planned_replicas: Vec<ReplicaPlacementSnapshot>,
    pub aggregate: AggregateMetrics,
    pub alerts: Vec<MeshAlert>,
    pub activity: Vec<MeshActivity>,
    pub telemetry: TelemetryHealthSnapshot,
    pub orchestration: OrchestrationStatus,
    pub topology: TopologyConfidenceSnapshot,
    pub nodes: Vec<MeshNode>,
    pub edge_services: Vec<EdgeServiceSnapshot>,
    pub connections: Vec<ConnectionSnapshot>,
    pub streams: Vec<StreamTelemetry>,
}

/// The sums over the nodes of a mesh, without its links.
pub open spec fn node_sums(snapshots: Seq<MeshSnapshot>) -> AggregateMetrics
    decreases snapshots.len(),
{
    if snapshots.len() == 0 {
        AggregateMetrics {
            node_count: 0,
            connection_count: 0,
            total_storage_bytes: 0,
            used_storage_bytes: 0,
            total_egress_capacity_bps: 0,
            contributor_streams: 0,
            active_streams: 0,
        }
    } else {
        let front = node_sums(snapshots.drop_last());
        let node = snapshots.last().node;
        AggregateMetrics {
            node_count: snapshots.len() as usize,
            connection_count: 0,
            total_storage_bytes: saturating_sum(
                front.total_storage_bytes,
                node.total_storage_bytes,
            ),
            used_storage_bytes: saturating_sum(front.used_storage_bytes, node.used_storage_bytes),
            total_egress_capacity_bps: saturating_sum(
                front.total_egress_capacity_bps,
                node.egress_capacity_bps,
            ),
            contributor_streams: saturating_sum(
                front.contributor_streams,
                node.contributor_streams,
            ),
            active_streams: saturating_sum(front.active_streams, node.active_streams),
        }
    }
}

fn sum_nodes(snapshots: &Vec<MeshSnapshot>) -> (r: AggregateMetrics)
    ensures
        r == node_sums(snapshots@),
{
    let mut sums = AggregateMetrics {
        node_count: 0,
        connection_count: 0,
        total_storage_bytes: 0,
        used_storage_bytes: 0,
        total_egress_capacity_bps: 0,
        contributor_streams: 0,
        active_streams: 0,
    };
    let mut i: usize = 0;
    proof {
        assert(snapshots@.take(0) =~= Seq::<MeshSnapshot>::empty());
    }
    while i < snapshots.len()
        invariant
            i <= snapshots.len(),
            sums == node_sums(snapshots@.take(i as int)),
        decreases snapshots.len() - i,
    {
        proof {
            assert(snapshots@.take(i + 1).drop_last() =~= snapshots@.take(i as int));
            assert(snapshots@.take(i + 1).last() == snapshots@[i as int]);
        }
        let node = &snapshots[i].node;
        sums = AggregateMetrics {
            node_count: i + 1,
            connection_count: 0,
            total_storage_bytes: sums.total_storage_bytes.saturating_add(
                node.total_storage_bytes,
            ),
            used_storage_bytes: sums.used_storage_bytes.saturating_add(node.used_storage_bytes),
            total_egress_capacity_bps: sums.total_egress_capacity_bps.saturating_add(
                node.egress_capacity_bps,
            ),
            contributor_streams: sums.contributor_streams.saturating_add(
                node.contributor_streams,
            ),
            active_streams: sums.active_streams.saturating_add(node.active_streams),
        };
        i = i + 1;
    }
    proof {
        assert(snapshots@.take(i as int) =~= snapshots@);
    }
    sums
}

/// The node that an address belongs to: the last one that is named by it, or whose mesh
/// address it is.
pub open spec fn node_at(snapshots: Seq<MeshSnapshot>, addr: Seq<char>) -> Option<String>
    decreases snapshots.len(),
{
    if snapshots.len() == 0 {
        None
    } else {
        let last = snapshots.last();
        if last.node.node_id@ == addr || view_of(last.mesh_addr) == Some(addr) {
            Some(last.node.node_id)
        } else {
            node_at(snapshots.drop_last(), addr)
        }
    }
}

fn find_node(snapshots: &Vec<MeshSnapshot>, addr: &str) -> (r: Option<String>)
    ensures
        r == node_at(snapshots@, addr@),
{
    let mut i: usize = snapshots.len();
    proof {
        assert(snapshots@.take(snapshots@.len() as int) =~= snapshots@);
    }
    while i > 0
        invariant
            i <= snapshots.len(),
            node_at(snapshots@, addr@) == node_at(snapshots@.take(i as int), addr@),
        decreases i,
    {
        proof {
            assert(snapshots@.take(i as int).drop_last() =~= snapshots@.take(i - 1));
            assert(snapshots@.take(i as int).last() == snapshots@[i - 1]);
        }
        let snapshot = &snapshots[i - 1];
        let by_addr: bool = match &snapshot.mesh_addr {
            Some(mesh_addr) => same_text(mesh_addr.as_str(), addr),
            None => false,
        };
        if by_addr || same_text(snapshot.node.node_id.as_str(), addr) {
            return Some(snapshot.node.node_id.clone());
        }
        i = i - 1;
    }
    None
}

/// The link from a node to a peer.
pub open spec fn link(
    snapshots: Seq<MeshSnapshot>,
    node: MeshNode,
    peer: PeerSnapshot,
) -> ConnectionSnapshot {
    ConnectionSnapshot {
        source_node_id: node.node_id,
        target_addr: peer.addr,
        target_node_id: node_at(snapshots, peer.addr@),
        state: peer.state,
        private_target: private_mesh_target(peer.addr@),
    }
}

/// The links from a node to its peers.
pub open spec fn links_of(snapshots: Seq<MeshSnapshot>, snapshot: MeshSnapshot) -> Seq<
    ConnectionSnapshot,
> {
    snapshot.peers@.map_values(|peer: PeerSnapshot| link(snapshots, snapshot.node, peer))
}

/// The links from the first `k` nodes to their peers.
pub open spec fn links(snapshots: Seq<MeshSnapshot>, k: int) -> Seq<ConnectionSnapshot>
    decreases k,
{
    if k <= 0 {
        Seq::empty()
    } else {
        links(snapshots, k - 1) + links_of(snapshots, snapshots[k - 1])
    }
}

fn gather_links(snapshots: &Vec<MeshSnapshot>) -> (r: Vec<ConnectionSnapshot>)
    ensures
        r@ == links(snapshots@, snapshots@.len() as int),
{
    let mut out: Vec<ConnectionSnapshot> = Vec::new();
    let mut i: usize = 0;
    while i < snapshots.len()
        invariant
            i <= snapshots.len(),
            out@ == links(snapshots@, i as int),
        decreases snapshots.len() - i,
    {
        let snapshot = &snapshots[i];
        let ghost before = out@;
        let ghost own = links_of(snapshots@, *snapshot);
        let mut j: usize = 0;
        proof {
            assert(before + own.take(0) =~= before);
        }
        while j < snapshot.peers.len()
            invariant
                own == links_of(snapshots@, *snapshot),
                j <= snapshot.peers.len(),
                out@ == before + own.take(j as int),
            decreases snapshot.peers.len() - j,
        {
            let peer = &snapshot.peers[j];
            let connection = ConnectionSnapshot {
                source_node_id: snapshot.node.node_id.clone(),
                target_addr: peer.addr.clone(),
                target_node_id: find_node(snapshots, peer.addr.as_str()),
                state: peer.state.clone(),
                private_target: is_private_mesh_target(peer.addr.as_str()),
            };
            out.push(connection);
            proof {
                assert(connection == own[j as int]);
                assert(out@ =~= before + own.take(j + 1));
            }
            j = j + 1;
        }
        proof {
            assert(own.take(j as int) =~= own);
        }
        i = i + 1;
    }
    out
}

/// Whether an optional text comes no later than another; none comes first.
pub open spec fn option_le(a: Option<Seq<char>>, b: Option<Seq<char>>) -> bool {
    match (a, b) {
        (None, _) => true,
        (Some(_), None) => false,
        (Some(x), Some(y)) => text_le(x, y),
    }
}

impl Ranked for ConnectionSnapshot {
    /// By the source, then by the address, then by the node at it.
    open spec fn le(self, other: Self) -> bool {
        if self.source_node_id@ != other.source_node_id@ {
            text_le(self.source_node_id@, other.source_node_id@)
        } else if self.target_addr@ != other.target_addr@ {
            text_le(self.target_addr@, other.target_addr@)
        } else {
            option_le(view_of(self.target_node_id), view_of(other.target_node_id))
        }
    }

    proof fn rank_laws(a: Self, b: Self, c: Self) {
        lemma_text_total(a.source_node_id@, b.source_node_id@);
        lemma_text_total(a.target_addr@, b.target_addr@);
        match (view_of(a.target_node_id), view_of(b.target_node_id)) {
            (Some(x), Some(y)) => {
                lemma_text_total(x, y);
            },
            _ => {},
        }
        if a.le(b) && b.le(c) {
            let (x, y, z) = (a.source_node_id@, b.source_node_id@, c.source_node_id@);
            if x != y || y != z {
                if x == z {
                    lemma_text_antisymmetric(x, y);
                } else if x != y && y != z {
                    lemma_text_transitive(x, y, z);
                }
            } else {
                let (p, q, s) = (a.target_addr@, b.target_addr@, c.target_addr@);
                if p != q || q != s {
                    if p == s {
                        lemma_text_antisymmetric(p, q);
                    } else if p != q && q != s {
                        lemma_text_transitive(p, q, s);
                    }
                } else {
                    match (
                        view_of(a.target_node_id),
                        view_of(b.target_node_id),
                        view_of(c.target_node_id),
                    ) {
                        (Some(l), Some(m), Some(n)) => {
                            lemma_text_transitive(l, m, n);
                        },
                        _ => {},
                    }
                }
            }
        }
    }

    fn not_after(&self, other: &Self) -> (r: bool) {
        if !same_text(self.source_node_id.as_str(), other.source_node_id.as_str()) {
            return text_not_after(self.source_node_id.as_str(), other.source_node_id.as_str());
        }
        if !same_text(self.target_addr.as_str(), other.target_addr.as_str()) {
            return text_not_after(self.target_addr.as_str(), other.target_addr.as_str());
        }
        match (&self.target_node_id, &other.target_node_id) {
            (None, _) => true,
            (Some(_), None) => false,
            (Some(x), Some(y)) => text_not_after(x.as_str(), y.as_str()),
        }
    }
}

/// Whether two links are the same.
pub open spec fn same_link(a: ConnectionSnapshot, b: ConnectionSnapshot) -> bool {
    &&& a.source_node_id@ == b.source_node_id@
    &&& a.target_addr@ == b.target_addr@
    &&& view_of(a.target_node_id) == view_of(b.target_node_id)
    &&& a.state@ == b.state@
    &&& a.private_target == b.private_target
}

fn is_same_link(a: &ConnectionSnapshot, b: &ConnectionSnapshot) -> (r: bool)
    ensures
        r == same_link(*a, *b),
{
    let same_node: bool = match (&a.target_node_id, &b.target_node_id) {
        (None, None) => true,
        (Some(x), Some(y)) => same_text(x.as_str(), y.as_str()),
        _ => false,
    };
    same_node && a.private_target == b.private_target && same_text(
        a.source_node_id.as_str(),
        b.source_node_id.as_str(),
    ) && same_text(a.target_addr.as_str(), b.target_addr.as_str()) && same_text(
        a.state.as_str(),
        b.state.as_str(),
    )
}

/// A list of links without those that repeat the one before them.
pub open spec fn deduped(list: Seq<ConnectionSnapshot>) -> Seq<ConnectionSnapshot>
    decreases list.len(),
{
    if list.len() == 0 {
        Seq::empty()
    } else if list.len() > 1 && same_link(list[list.len() - 2], list.last()) {
        deduped(list.drop_last())
    } else {
        deduped(list.drop_last()).push(list.last())
    }
}

proof fn lemma_deduped_last(list: Seq<ConnectionSnapshot>)
    requires
        list.len() > 0,
    ensures
        deduped(list).len() > 0,
        same_link(deduped(list).last(), list.last()),
    decreases list.len(),
{
    if list.len() > 1 && same_link(list[list.len() - 2], list.last()) {
        lemma_deduped_last(list.drop_last());
        assert(list.drop_last().last() == list[list.len() - 2]);
    }
}

fn dedup_links(list: Vec<ConnectionSnapshot>) -> (r: Vec<ConnectionSnapshot>)
    ensures
        r@ == deduped(list@),
{
    let ghost all = list@;
    let mut rest = list;
    let mut out: Vec<ConnectionSnapshot> = Vec::new();
    let ghost mut done: int = 0;
    proof {
        assert(all.take(0) =~= Seq::<ConnectionSnapshot>::empty());
        assert(all.skip(0) =~= all);
    }
    while rest.len() > 0
        invariant
            0 <= done <= all.len(),
            rest@ == all.skip(done),
            out@ == deduped(all.take(done)),
            done == 0 <==> out@.len() == 0,
        decreases rest.len(),
    {
        let x = rest.remove(0);
        proof {
            assert(all.take(done + 1).drop_last() =~= all.take(done));
            assert(all.take(done + 1).last() == x);
            assert(rest@ =~= all.skip(done + 1));
            if done > 0 {
                lemma_deduped_last(all.take(done));
                assert(all.take(done).last() == all.take(done + 1)[done - 1]);
            }
        }
        let repeated: bool = out.len() > 0 && is_same_link(&out[out.len() - 1], &x);
        if !repeated {
            out.push(x);
        }
        proof {
            done = done + 1;
        }
    }
    proof {
        assert(all.take(done) =~= all);
    }
    out
}

/// The accounts of streams that a node tells: of its streams, or of its own where it tells of
/// no others.
pub open spec fn told_streams(snapshot: MeshSnapshot) -> Seq<TelemetryModel> {
    if snapshot.streams@.len() == 0 {
        seq![stats_telemetry(snapshot.node.node_id@, snapshot.stream)]
    } else {
        telemetry_views(snapshot.streams@)
    }
}

/// The accounts of streams that nodes tell.
pub open spec fn all_streams(snapshots: Seq<MeshSnapshot>) -> Seq<TelemetryModel>
    decreases snapshots.len(),
{
    if snapshots.len() == 0 {
        Seq::empty()
    } else {
        all_streams(snapshots.drop_last()) + told_streams(snapshots.last())
    }
}

fn gather_streams(snapshots: &Vec<MeshSnapshot>) -> (r: Vec<StreamTelemetry>)
    ensures
        telemetry_views(r@) == all_streams(snapshots@),
{
    let mut out: Vec<StreamTelemetry> = Vec::new();
    let mut i: usize = 0;
    proof {
        assert(snapshots@.take(0) =~= Seq::<MeshSnapshot>::empty());
        assert(telemetry_views(out@) =~= Seq::<TelemetryModel>::empty());
    }
    while i < snapshots.len()
        invariant
            i <= snapshots.len(),
            telemetry_views(out@) == all_streams(snapshots@.take(i as int)),
        decreases snapshots.len() - i,
    {
        proof {
            assert(snapshots@.take(i + 1).drop_last() =~= snapshots@.take(i as int));
            assert(snapshots@.take(i + 1).last() == snapshots@[i as int]);
        }
        let snapshot = &snapshots[i];
        let ghost before = telemetry_views(out@);
        let ghost told = told_streams(*snapshot);
        if snapshot.streams.len() == 0 {
            out.push(StreamTelemetry::from_stats(snapshot.node.node_id.clone(), &snapshot.stream));
            proof {
                assert(telemetry_views(out@) =~= before + told);
            }
        } else {
            let mut j: usize = 0;
            proof {
                assert(before + told.take(0) =~= before);
            }
            while j < snapshot.streams.len()
                invariant
                    told == telemetry_views(snapshot.streams@),
                    j <= snapshot.streams.len(),
                    telemetry_views(out@) == before + told.take(j as int),
                decreases snapshot.streams.len() - j,
            {
                let ghost mid = out@;
                out.push(snapshot.streams[j].copy());
                proof {
                    assert(telemetry_views(out@) =~= telemetry_views(mid).push(told[j as int]));
                    assert(telemetry_views(out@) =~= before + told.take(j + 1));
                }
                j = j + 1;
            }
            proof {
                assert(told.take(j as int) =~= told);
            }
        }
        i = i + 1;
    }
    proof {
        assert(snapshots@.take(i as int) =~= snapshots@);
    }
    out
}

impl Ranked for RelayNodeSessionSnapshot {
    open spec fn le(self, other: Self) -> bool {
        text_le(self.node_id@, other.node_id@)
    }

    proof fn rank_laws(a: Self, b: Self, c: Self) {
        lemma_text_total(a.node_id@, b.node_id@);
        if a.le(b) && b.le(c) {
            lemma_text_transitive(a.node_id@, b.node_id@, c.node_id@);
        }
    }

    fn not_after(&self, other: &Self) -> (r: bool) {
        text_not_after(self.node_id.as_str(), other.node_id.as_str())
    }
}

/// The relays of nodes.
pub open spec fn relays(snapshots: Seq<MeshSnapshot>) -> Seq<RelayNodeSessionSnapshot> {
    snapshots.map_values(
        |s: MeshSnapshot| RelayNodeSessionSnapshot {
            node_id: s.node.node_id,
            region: s.node.region,
            relay_session: s.relay_session,
        },
    )
}

fn gather_relays(snapshots: &Vec<MeshSnapshot>) -> (r: Vec<RelayNodeSessionSnapshot>)
    ensures
        r@ == relays(snapshots@),
{
    let mut out: Vec<RelayNodeSessionSnapshot> = Vec::new();
    let mut i: usize = 0;
    while i < snapshots.len()
        invariant
            i <= snapshots.len(),
            out@ == relays(snapshots@).take(i as int),
        decreases snapshots.len() - i,
    {
        out.push(
            RelayNodeSessionSnapshot {
                node_id: snapshots[i].node.node_id.clone(),
                region: snapshots[i].node.region.clone(),
                relay_session: snapshots[i].relay_session,
            },
        );
        proof {
            assert(out@ =~= relays(snapshots@).take(i + 1));
        }
        i = i + 1;
    }
    proof {
        assert(out@ =~= relays(snapshots@));
    }
    out
}

/// Whether an edge is the one that a node tells of, or the one of a node that tells of none.
pub open spec fn edge_of(snapshot: MeshSnapshot, edge: EdgeServiceSnapshot) -> bool {
    match snapshot.edge_service {
        Some(told) => edge == told,
        None => edge.is_fallback(snapshot.node),
    }
}

/// The failed responses that nodes tell of.
pub open spec fn told_errors(snapshots: Seq<MeshSnapshot>) -> nat
    decreases snapshots.len(),
{
    if snapshots.len() == 0 {
        0
    } else {
        told_errors(snapshots.drop_last()) + match snapshots.last().edge_service {
            Some(edge) => edge.response_errors as nat,
            None => 0nat,
        }
    }
}

proof fn lemma_told_errors(snapshots: Seq<MeshSnapshot>, edges: Seq<EdgeServiceSnapshot>)
    requires
        snapshots.len() == edges.len(),
        forall|i: int| 0 <= i < edges.len() ==> edge_of(snapshots[i], #[trigger] edges[i]),
    ensures
        error_total(edges) == told_errors(snapshots),
    decreases edges.len(),
{
    if edges.len() > 0 {
        assert(edge_of(snapshots[edges.len() - 1], edges[edges.len() - 1]));
        assert forall|i: int| 0 <= i < edges.drop_last().len() implies edge_of(
            snapshots.drop_last()[i],
            #[trigger] edges.drop_last()[i],
        ) by {
            assert(edge_of(snapshots[i], edges[i]));
        }
        lemma_told_errors(snapshots.drop_last(), edges.drop_last());
    }
}

fn split_nodes(snapshots: Vec<MeshSnapshot>) -> (r: (Vec<MeshNode>, Vec<EdgeServiceSnapshot>))
    ensures
        r.0@ == snapshots@.map_values(|s: MeshSnapshot| s.node),
        r.1@.len() == snapshots@.len(),
        forall|i: int| 0 <= i < snapshots@.len() ==> edge_of(snapshots@[i], #[trigger] r.1@[i]),
{
    let ghost all = snapshots@;
    let mut rest = snapshots;
    let mut nodes: Vec<MeshNode> = Vec::new();
    let mut edges: Vec<EdgeServiceSnapshot> = Vec::new();
    let ghost mut done: int = 0;
    proof {
        assert(all.skip(0) =~= all);
    }
    while rest.len() > 0
        invariant
            0 <= done <= all.len(),
            rest@ == all.skip(done),
            nodes@ == all.take(done).map_values(|s: MeshSnapshot| s.node),
            edges@.len() == done,
            forall|i: int| 0 <= i < done ==> edge_of(all[i], #[trigger] edges@[i]),
        decreases rest.len(),
    {
        let ghost before = edges@;
        let snapshot = rest.remove(0);
        let ghost told = snapshot;
        assert(told == all[done]);
        let edge = match snapshot.edge_service {
            Some(edge) => edge,
            None => EdgeServiceSnapshot::fallback_for_node(&snapshot.node),
        };
        edges.push(edge);
        nodes.push(snapshot.node);
        proof {
            assert(rest@ =~= all.skip(done + 1));
            assert(nodes@ =~= all.take(done + 1).map_values(|s: MeshSnapshot| s.node));
            assert forall|i: int| 0 <= i < done + 1 implies edge_of(all[i], #[trigger] edges@[i]) by {
                if i < done {
                    assert(edges@[i] == before[i]);
                }
            }
            done = done + 1;
        }
    }
    proof {
        assert(all.take(done) =~= all);
    }
    (nodes, edges)
}

fn report_placements(placements: Vec<ReplicaPlacement>) -> (r: Vec<ReplicaPlacementSnapshot>)
    ensures
        r@.len() == placements@.len(),
        forall|i: int| 0 <= i < placements@.len() ==> (#[trigger] r@[i]).reports(placements@[i]),
{
    let ghost all = placements@;
    let mut rest = placements;
    let mut out: Vec<ReplicaPlacementSnapshot> = Vec::new();
    proof {
        assert(all.skip(0) =~= all);
    }
    while rest.len() > 0
        invariant
            out@.len() <= all.len(),
            rest@ == all.skip(out@.len() as int),
            forall|i: int| 0 <= i < out@.len() ==> (#[trigger] out@[i]).reports(all[i]),
        decreases rest.len(),
    {
        let ghost done = out@.len() as int;
        let placement = rest.remove(0);
        assert(placement == all[done]);
        out.push(ReplicaPlacementSnapshot::from_placement(placement));
        proof {
            assert(rest@ =~= all.skip(done + 1));
        }
    }
    out
}

impl MeshApiSnapshot {
    /// Puts the view of a mesh together: what the local node tells, and what all nodes tell,
    /// the local one among them.
    pub fn from_snapshots(
        local: MeshSnapshot,
        snapshots: Vec<MeshSnapshot>,
        telemetry: TelemetryHealthSnapshot,
        planned_replicas: Vec<ReplicaPlacement>,
        orchestration: OrchestrationStatus,
        now_ms: u64,
    ) -> (r: Self)
        requires
            told_errors(snapshots@) <= u64::MAX,
        ensures
            r.updated_unix_ms == now_ms,
            r.node == local.node,
            r.mesh_transport == MeshTransportConfigSnapshot::usual(),
            r.mesh_fec == MeshFecRuntimeSnapshot::nothing(),
            r.relay_session == local.relay_session,
            r.relay_nodes@ == ranked(relays(snapshots@)),
            r.peers == local.peers,
            r.stream == local.stream,
            r.recent_commands == local.recent_commands,
            r.planned_replicas@.len() == planned_replicas@.len(),
            forall|i: int|
                0 <= i < planned_replicas@.len() ==> (#[trigger] r.planned_replicas@[i]).reports(
                    planned_replicas@[i],
                ),
            r.aggregate == (AggregateMetrics {
                connection_count: r.connections@.len() as usize,
                ..node_sums(snapshots@)
            }),
            alert_views(r.alerts@) == mesh_alerts(
                r.aggregate,
                r.nodes@,
                r.edge_services@,
                r.connections@,
                r.stream,
                r.node.node_id@,
                telemetry_views(r.streams@),
                r.relay_nodes@,
                r.recent_commands@,
                r.telemetry,
                r.relay_session,
                r.orchestration.provision,
                r.orchestration.telemetry_peers@,
                r.orchestration.private_discovery,
                now_ms,
            ),
            exists|all: Seq<MeshActivity>| #[trigger]
                activity_views(all) == all_activity(
                    r.aggregate,
                    alert_views(r.alerts@),
                    r.recent_commands@,
                    now_ms,
                ) && r.activity@ == reported_part(ranked(all)),
            r.telemetry == telemetry,
            r.orchestration == orchestration,
            r.topology.connection_count == r.connections@.len(),
            r.topology.resolved_peer_count == resolved_count(r.connections@),
            r.topology.private_peer_count == private_count(r.connections@),
            r.topology.unresolved_peer_count + r.topology.resolved_peer_count
                == r.topology.connection_count,
            r.topology.public_peer_count + r.topology.private_peer_count
                == r.topology.connection_count,
            r.nodes@ == snapshots@.map_values(|s: MeshSnapshot| s.node),
            r.edge_services@.len() == snapshots@.len(),
            forall|i: int|
                0 <= i < snapshots@.len() ==> edge_of(
                    snapshots@[i],
                    #[trigger] r.edge_services@[i],
                ),
            r.connections@ == deduped(ranked(links(snapshots@, snapshots@.len() as int))),
            telemetry_views(r.streams@) == annotated(all_streams(snapshots@)),
    {
        let mut aggregate = sum_nodes(&snapshots);
        let connections = dedup_links(sort_by_rank(gather_links(&snapshots)));
        let relay_nodes = sort_by_rank(gather_relays(&snapshots));
        let mut streams = gather_streams(&snapshots);
        annotate_stream_lag(&mut streams);
        let ghost all = snapshots@;
        let (nodes, edge_services) = split_nodes(snapshots);
        proof {
            lemma_told_errors(all, edge_services@);
        }
        aggregate.connection_count = connections.len();
        let topology = TopologyConfidenceSnapshot::from_connections(&connections);
        let planned = report_placements(planned_replicas);
        let alerts = derive_mesh_alerts(
            &aggregate,
            &nodes,
            &edge_services,
            &connections,
            &local.stream,
            local.node.node_id.as_str(),
            &streams,
            &relay_nodes,
            &local.recent_commands,
            &telemetry,
            &local.relay_session,
            &orchestration.provision,
            &orchestration.telemetry_peers,
            &orchestration.private_discovery,
            now_ms,
        );
        let activity = derive_mesh_activity(&aggregate, &alerts, &local.recent_commands, now_ms);
        MeshApiSnapshot {
            updated_unix_ms: now_ms,
            node: local.node,
            mesh_transport: MeshTransportConfigSnapshot::default(),
            mesh_fec: MeshFecRuntimeSnapshot::default(),
            relay_session: local.relay_session,
            relay_nodes,
            peers: local.peers,
            stream: local.stream,
            recent_commands: local.recent_commands,
            planned_replicas: planned,
            aggregate,
            alerts,
            activity,
            telemetry,
            orchestration,
            topology,
            nodes,
            edge_services,
            connections,
            streams,
        }
    }
}

/// A total, or the largest number where it does not fit.
pub open spec fn at_most_u64(total: int) -> int {
    if total > u64::MAX {
        u64::MAX as int
    } else {
        total
    }
}

/// The sums of a mesh are those of its nodes, field by field: storage, what is used of it, egress
/// capacity and streams, each added over all nodes.
pub proof fn sums_are_those_of_the_nodes(snapshots: Seq<MeshSnapshot>)
    requires
        snapshots.len() <= usize::MAX,
    ensures
        ({
            let sums = node_sums(snapshots);
            &&& sums.node_count == snapshots.len()
            &&& sums.total_storage_bytes == at_most_u64(
                snapshots.fold_left(
                    0int,
                    |sum: int, s: MeshSnapshot| sum + s.node.total_storage_bytes,
                ),
            )
            &&& sums.used_storage_bytes == at_most_u64(
                snapshots.fold_left(
                    0int,
                    |sum: int, s: MeshSnapshot| sum + s.node.used_storage_bytes,
                ),
            )
            &&& sums.total_egress_capacity_bps == at_most_u64(
                snapshots.fold_left(
                    0int,
                    |sum: int, s: MeshSnapshot| sum + s.node.egress_capacity_bps,
                ),
            )
            &&& sums.contributor_streams == at_most_u64(
                snapshots.fold_left(
                    0int,
                    |sum: int, s: MeshSnapshot| sum + s.node.contributor_streams,
                ),
            )
            &&& sums.active_streams == at_most_u64(
                snapshots.fold_left(0int, |sum: int, s: MeshSnapshot| sum + s.node.active_streams),
            )
        }),
    decreases snapshots.len(),
{
    reveal_with_fuel(Seq::fold_left, 2);
    if snapshots.len() > 0 {
        sums_are_those_of_the_nodes(snapshots.drop_last());
    }
}

/// A mesh uses no more than it has where no node does, and nothing where no node uses anything;
/// a node that joins adds what it has and uses to the sums.
pub proof fn sums_stay_within_the_nodes(snapshots: Seq<MeshSnapshot>, joined: MeshSnapshot)
    requires
        snapshots.len() < usize::MAX,
        forall|i: int|
            0 <= i < snapshots.len() ==> (#[trigger] snapshots[i]).node.used_storage_bytes
                <= snapshots[i].node.total_storage_bytes,
    ensures
        node_sums(snapshots).used_storage_bytes <= node_sums(snapshots).total_storage_bytes,
        (forall|i: int|
            0 <= i < snapshots.len() ==> (#[trigger] snapshots[i]).node.used_storage_bytes == 0)
            ==> node_sums(snapshots).used_storage_bytes == 0,
        node_sums(snapshots.push(joined)).used_storage_bytes == at_most_u64(
            node_sums(snapshots).used_storage_bytes + joined.node.used_storage_bytes,
        ),
        node_sums(snapshots.push(joined)).total_storage_bytes == at_most_u64(
            node_sums(snapshots).total_storage_bytes + joined.node.total_storage_bytes,
        ),
        node_sums(snapshots.push(joined)).total_egress_capacity_bps == at_most_u64(
            node_sums(snapshots).total_egress_capacity_bps + joined.node.egress_capacity_bps,
        ),
        node_sums(snapshots.push(joined)).contributor_streams == at_most_u64(
            node_sums(snapshots).contributor_streams + joined.node.contributor_streams,
        ),
        node_sums(snapshots.push(joined)).active_streams == at_most_u64(
            node_sums(snapshots).active_streams + joined.node.active_streams,
        ),
    decreases snapshots.len(),
{
    assert(snapshots.push(joined).drop_last() =~= snapshots);
    if snapshots.len() > 0 {
        let front = snapshots.drop_last();
        assert forall|i: int| 0 <= i < front.len() implies front[i] == #[trigger] snapshots[i] by {}
        assert(snapshots.last() == snapshots[snapshots.len() - 1]);
        sums_stay_within_the_nodes(front, joined);
    }
}

/// An address is that of the last node that is told by it or names itself so, and of none where
/// no node does.
pub proof fn addresses_are_resolved_to_nodes(snapshots: Seq<MeshSnapshot>, addr: Seq<char>)
    ensures
        match node_at(snapshots, addr) {
            Some(id) => exists|i: int|
                0 <= i < snapshots.len() && #[trigger] answers_to(snapshots[i], addr) && id
                    == snapshots[i].node.node_id && forall|j: int|
                    i < j < snapshots.len() ==> !(#[trigger] answers_to(snapshots[j], addr)),
            None => forall|j: int|
                0 <= j < snapshots.len() ==> !(#[trigger] answers_to(snapshots[j], addr)),
        },
    decreases snapshots.len(),
{
    if snapshots.len() > 0 {
        let front = snapshots.drop_last();
        let n = snapshots.len() - 1;
        assert(snapshots.last() == snapshots[n]);
        assert forall|i: int| 0 <= i < n implies front[i] == #[trigger] snapshots[i] by {}
        if answers_to(snapshots[n], addr) {
            assert(node_at(snapshots, addr) == Some(snapshots[n].node.node_id));
        } else {
            addresses_are_resolved_to_nodes(front, addr);
            match node_at(front, addr) {
                Some(id) => {
                    let i = choose|i: int|
                        0 <= i < front.len() && #[trigger] answers_to(front[i], addr) && id
                            == front[i].node.node_id && forall|j: int|
                            i < j < front.len() ==> !(#[trigger] answers_to(front[j], addr));
                    assert(answers_to(snapshots[i], addr));
                    assert forall|j: int| i < j < snapshots.len() implies !(#[trigger] answers_to(
                        snapshots[j],
                        addr,
                    )) by {
                        if j < n {
                            assert(!answers_to(front[j], addr));
                        }
                    }
                },
                None => {
                    assert forall|j: int| 0 <= j < snapshots.len() implies !(
                    #[trigger] answers_to(snapshots[j], addr)) by {
                        if j < n {
                            assert(!answers_to(front[j], addr));
                        }
                    }
                },
            }
        }
    }
}

/// Whether a node is told by an address or names itself so.
pub open spec fn answers_to(snapshot: MeshSnapshot, addr: Seq<char>) -> bool {
    snapshot.node.node_id@ == addr || (snapshot.mesh_addr is Some && (snapshot.mesh_addr->0)@
        == addr)
}

/// Whether a link is the one that a node tells of to one of its peers.
pub open spec fn tells_of_link(
    snapshots: Seq<MeshSnapshot>,
    i: int,
    p: int,
    c: ConnectionSnapshot,
) -> bool {
    let peer = snapshots[i].peers@[p];
    &&& c.source_node_id == snapshots[i].node.node_id
    &&& c.target_addr == peer.addr
    &&& c.state == peer.state
    &&& c.target_node_id == node_at(snapshots, peer.addr@)
    &&& c.private_target == private_mesh_target(peer.addr@)
}

/// The links of a mesh are those from its nodes to their peers, all of them and no others.
pub proof fn links_are_those_to_peers(snapshots: Seq<MeshSnapshot>, k: int)
    requires
        0 <= k <= snapshots.len(),
    ensures
        forall|i: int, p: int|
            0 <= i < k && 0 <= p < snapshots[i].peers@.len() ==> links(snapshots, k).contains(
                #[trigger] link(snapshots, snapshots[i].node, snapshots[i].peers@[p]),
            ),
        forall|c: ConnectionSnapshot| #[trigger]
            links(snapshots, k).contains(c) ==> exists|i: int, p: int|
                0 <= i < k && 0 <= p < snapshots[i].peers@.len() && #[trigger] tells_of_link(
                    snapshots,
                    i,
                    p,
                    c,
                ),
        forall|i: int, p: int|
            0 <= i < k && 0 <= p < snapshots[i].peers@.len() ==> tells_of_link(
                snapshots,
                i,
                p,
                #[trigger] link(snapshots, snapshots[i].node, snapshots[i].peers@[p]),
            ),
    decreases k,
{
    if k > 0 {
        links_are_those_to_peers(snapshots, k - 1);
        let before = links(snapshots, k - 1);
        let more = links_of(snapshots, snapshots[k - 1]);
        let all = links(snapshots, k);
        assert(all == before + more);
        assert forall|i: int, p: int|
            0 <= i < k && 0 <= p < snapshots[i].peers@.len() implies all.contains(
            #[trigger] link(snapshots, snapshots[i].node, snapshots[i].peers@[p]),
        ) by {
            let c = link(snapshots, snapshots[i].node, snapshots[i].peers@[p]);
            if i < k - 1 {
                assert(before.contains(c));
                let a = choose|a: int| 0 <= a < before.len() && before[a] == c;
                assert(all[a] == c);
            } else {
                assert(more[p] == c);
                assert(all[before.len() + p] == c);
            }
        }
        assert forall|c: ConnectionSnapshot| #[trigger] all.contains(c) implies exists|
            i: int,
            p: int,
        |
            0 <= i < k && 0 <= p < snapshots[i].peers@.len() && #[trigger] tells_of_link(
                snapshots,
                i,
                p,
                c,
            ) by {
            let a = choose|a: int| 0 <= a < all.len() && all[a] == c;
            if a < before.len() {
                assert(before.contains(c)) by {
                    assert(before[a] == c);
                }
                let (i, p) = choose|i: int, p: int|
                    0 <= i < k - 1 && 0 <= p < snapshots[i].peers@.len()
                        && #[trigger] tells_of_link(snapshots, i, p, c);
                assert(tells_of_link(snapshots, i, p, c));
            } else {
                let p = a - before.len();
                assert(more[p] == c);
                assert(tells_of_link(snapshots, k - 1, p, c));
            }
        }
    }
}

/// Whether two links go from one node to one target, in one state.
pub open spec fn equal_links(a: ConnectionSnapshot, b: ConnectionSnapshot) -> bool {
    a.source_node_id@ == b.source_node_id@ && a.target_addr@ == b.target_addr@
        && a.target_node_id is Some == b.target_node_id is Some && (a.target_node_id is Some ==> (
    a.target_node_id->0)@ == (b.target_node_id->0)@) && a.state@ == b.state@ && a.private_target
        == b.private_target
}

/// Of links that stand side by side and are equal, one is reported; no link is lost, and none is
/// made up.
pub proof fn repeated_links_are_reported_once(list: Seq<ConnectionSnapshot>)
    ensures
        forall|j: int|
            0 <= j < deduped(list).len() ==> list.contains(#[trigger] deduped(list)[j]),
        forall|i: int| 0 <= i < list.len() ==> reports(deduped(list), #[trigger] list[i]),
        forall|j: int|
            0 < j < deduped(list).len() ==> !equal_links(
                deduped(list)[j - 1],
                #[trigger] deduped(list)[j],
            ),
{
    lemma_once_from(list);
    lemma_once_covers(list);
    lemma_once_apart(list);
}

/// Whether a list of links holds one that is equal to a given link.
pub open spec fn reports(list: Seq<ConnectionSnapshot>, link: ConnectionSnapshot) -> bool {
    exists|j: int| 0 <= j < list.len() && equal_links(#[trigger] list[j], link)
}

proof fn lemma_once_from(list: Seq<ConnectionSnapshot>)
    ensures
        forall|j: int|
            0 <= j < deduped(list).len() ==> list.contains(#[trigger] deduped(list)[j]),
    decreases list.len(),
{
    if list.len() > 0 {
        let front = list.drop_last();
        let before = deduped(front);
        let once = deduped(list);
        lemma_once_from(front);
        assert forall|j: int| 0 <= j < once.len() implies list.contains(#[trigger] once[j]) by {
            if j < before.len() {
                assert(front.contains(before[j]));
                let a = choose|a: int| 0 <= a < front.len() && front[a] == before[j];
                assert(list[a] == once[j]);
            } else {
                assert(once[j] == list[list.len() - 1]);
            }
        }
    }
}

proof fn lemma_once_covers(list: Seq<ConnectionSnapshot>)
    ensures
        forall|i: int| 0 <= i < list.len() ==> reports(deduped(list), #[trigger] list[i]),
    decreases list.len(),
{
    if list.len() > 0 {
        let front = list.drop_last();
        let before = deduped(front);
        let once = deduped(list);
        lemma_once_covers(front);
        lemma_deduped_last(list);
        assert forall|i: int| 0 <= i < list.len() implies reports(once, #[trigger] list[i]) by {
            if i < front.len() {
                assert(reports(before, front[i]));
                let j = choose|j: int|
                    0 <= j < before.len() && equal_links(#[trigger] before[j], front[i]);
                assert(once[j] == before[j]);
            } else {
                assert(equal_links(once[once.len() - 1], list[i]));
            }
        }
    }
}

proof fn lemma_once_apart(list: Seq<ConnectionSnapshot>)
    ensures
        forall|j: int|
            0 < j < deduped(list).len() ==> !equal_links(
                deduped(list)[j - 1],
                #[trigger] deduped(list)[j],
            ),
    decreases list.len(),
{
    if list.len() > 0 {
        let front = list.drop_last();
        let before = deduped(front);
        let once = deduped(list);
        lemma_once_apart(front);
        assert forall|j: int| 0 < j < once.len() implies !equal_links(
            once[j - 1],
            #[trigger] once[j],
        ) by {
            if j < before.len() {
                assert(once[j - 1] == before[j - 1] && once[j] == before[j]);
            } else {
                lemma_deduped_last(front);
                assert(once[j] == list.last());
                assert(once[j - 1] == before.last());
                assert(front.last() == list[list.len() - 2]);
                assert(same_link(before.last(), front.last()));
                assert(!same_link(front.last(), list.last()));
            }
        }
    }
}

/// A node that joins brings along what it tells of its streams, or what it tells of its own stream
/// where it lists none, behind what the others tell.
pub proof fn streams_are_those_that_nodes_tell_of(
    snapshots: Seq<MeshSnapshot>,
    joined: MeshSnapshot,
)
    ensures
        all_streams(Seq::<MeshSnapshot>::empty()).len() == 0,
        joined.streams@.len() > 0 ==> all_streams(snapshots.push(joined)) == all_streams(snapshots)
            + joined.streams@.map_values(|s: StreamTelemetry| s@),
        joined.streams@.len() == 0 ==> all_streams(snapshots.push(joined)).len() == all_streams(
            snapshots,
        ).len() + 1 && all_streams(snapshots.push(joined)).drop_last() == all_streams(snapshots)
            && all_streams(snapshots.push(joined)).last().stream_id == joined.stream.stream_id
            && all_streams(snapshots.push(joined)).last().node_id == joined.node.node_id@,
{
    assert(snapshots.push(joined).drop_last() =~= snapshots);
    if joined.streams@.len() == 0 {
        assert(all_streams(snapshots.push(joined)).drop_last() =~= all_streams(snapshots));
    }
}

/// Each node has its relay's account, under its own name and region.
pub proof fn relays_are_told_by_their_nodes(snapshots: Seq<MeshSnapshot>, i: int)
    requires
        0 <= i < snapshots.len(),
    ensures
        relays(snapshots).len() == snapshots.len(),
        relays(snapshots)[i].node_id == snapshots[i].node.node_id,
        relays(snapshots)[i].region == snapshots[i].node.region,
        relays(snapshots)[i].relay_session == snapshots[i].relay_session,
{
}

/// Links stand in the order of their sources, those of one source in the order of their addresses;
/// relays stand in the order of their nodes. None is lost and none is added.
pub proof fn links_and_relays_stand_in_order(
    list: Seq<ConnectionSnapshot>,
    nodes: Seq<RelayNodeSessionSnapshot>,
)
    ensures
        ranked(list).to_multiset() == list.to_multiset(),
        ranked(nodes).to_multiset() == nodes.to_multiset(),
        forall|i: int, j: int|
            0 <= i < j < list.len() ==> text_le(
                (#[trigger] ranked(list)[i]).source_node_id@,
                (#[trigger] ranked(list)[j]).source_node_id@,
            ) && (ranked(list)[i].source_node_id@ == ranked(list)[j].source_node_id@ ==> text_le(
                ranked(list)[i].target_addr@,
                ranked(list)[j].target_addr@,
            )),
        forall|i: int, j: int|
            0 <= i < j < nodes.len() ==> text_le(
                (#[trigger] ranked(nodes)[i]).node_id@,
                (#[trigger] ranked(nodes)[j]).node_id@,
            ),
{
    ranking_orders(list);
    ranking_orders(nodes);
    assert forall|i: int, j: int| 0 <= i < j < list.len() implies text_le(
        (#[trigger] ranked(list)[i]).source_node_id@,
        (#[trigger] ranked(list)[j]).source_node_id@,
    ) && (ranked(list)[i].source_node_id@ == ranked(list)[j].source_node_id@ ==> text_le(
        ranked(list)[i].target_addr@,
        ranked(list)[j].target_addr@,
    )) by {
        assert(ranked(list)[i].le(ranked(list)[j]));
        lemma_text_reflexive(ranked(list)[i].source_node_id@);
        lemma_text_reflexive(ranked(list)[i].target_addr@);
    }
    assert forall|i: int, j: int| 0 <= i < j < nodes.len() implies text_le(
        (#[trigger] ranked(nodes)[i]).node_id@,
        (#[trigger] ranked(nodes)[j]).node_id@,
    ) by {
        assert(ranked(nodes)[i].le(ranked(nodes)[j]));
    }
}

/// The errors that nodes tell of are added over the nodes that have an edge.
pub proof fn told_errors_add_up(snapshots: Seq<MeshSnapshot>)
    ensures
        told_errors(snapshots) == snapshots.fold_left(
            0int,
            |sum: int, s: MeshSnapshot|
                if s.edge_service is Some {
                    sum + s.edge_service->0.response_errors
                } else {
                    sum
                },
        ),
    decreases snapshots.len(),
{
    reveal_with_fuel(Seq::fold_left, 2);
    if snapshots.len() > 0 {
        told_errors_add_up(snapshots.drop_last());
    }
}

/// A reason is told by its kind and its place: no two reasons of different kinds or places read the
/// same.
pub proof fn reasons_are_told_apart(region: String, continent: String)
    ensures
        reason_text(ReplicaReason::BaselineRegion { region }) == "baseline region "@ + region@,
        reason_text(ReplicaReason::DemandRegion { region }) == "demand region "@ + region@,
        reason_text(ReplicaReason::BaselineContinent { continent }) == "baseline continent "@
            + continent@,
        reason_text(ReplicaReason::DemandContinent { continent }) == "demand continent "@
            + continent@,
{
}

/// The edge of a node is the one it tells of, as it tells it; a node that tells of none has one under
/// its own name and region on which nothing has happened.
pub proof fn edges_are_those_that_nodes_tell_of(snapshot: MeshSnapshot, edge: EdgeServiceSnapshot)
    requires
        edge_of(snapshot, edge),
    ensures
        snapshot.edge_service is Some ==> edge == snapshot.edge_service->0,
        snapshot.edge_service is None ==> edge.node_id == snapshot.node.node_id && edge.region
            == snapshot.node.region && edge.continent == snapshot.node.continent && edge.draining
            == snapshot.node.draining && edge.playback_base_url is None && edge.active_readers == 0
            && edge.requests_served == 0 && edge.bytes_served == 0 && edge.responses_total == 0
            && edge.response_errors == 0 && edge.recent_responses@.len() == 0
            && edge.last_response_unix_ms is None,
{
}

} // verus!
