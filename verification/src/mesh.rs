//! The nodes of a mesh, and what each of them tells the others.

use vstd::prelude::*;
use vstd::string::*;
use crate::control::ControlCommand;
use crate::edge::EdgeServiceSnapshot;
use crate::provision::ProvisionStatus;
use crate::relay_snapshot::RelaySessionIngressSnapshot;
use crate::streams::{stats_telemetry, StatsSnapshot, StreamTelemetry, TelemetryModel};
use crate::text::{decimal, decimal_text, views};

verus! {

/// A node of the mesh.
#[derive(Debug)]
pub struct MeshNode {
    pub node_id: String,
    pub region: String,
    pub continent: String,
    /// The degrees of latitude, as the bits of a double.
    pub latitude_bits: u64,
    /// The degrees of longitude, as the bits of a double.
    pub longitude_bits: u64,
    pub total_storage_bytes: u64,
    pub used_storage_bytes: u64,
    pub egress_capacity_bps: u64,
    pub contributor_streams: u64,
    pub active_streams: u64,
    pub draining: bool,
}

impl MeshNode {
    /// Another copy of the node.
    pub fn copy(&self) -> (r: Self)
        ensures
            r == *self,
    {
        MeshNode {
            node_id: self.node_id.clone(),
            region: self.region.clone(),
            continent: self.continent.clone(),
            latitude_bits: self.latitude_bits,
            longitude_bits: self.longitude_bits,
            total_storage_bytes: self.total_storage_bytes,
            used_storage_bytes: self.used_storage_bytes,
            egress_capacity_bps: self.egress_capacity_bps,
            contributor_streams: self.contributor_streams,
            active_streams: self.active_streams,
            draining: self.draining,
        }
    }

    /// The used part of the node's storage in percent; nothing of nothing is none.
    pub open spec fn used_percent(self) -> u64 {
        if self.total_storage_bytes == 0 {
            0
        } else if self.used_storage_bytes * 100 > u64::MAX {
            u64::MAX / self.total_storage_bytes
        } else {
            ((self.used_storage_bytes * 100) / (self.total_storage_bytes as int)) as u64
        }
    }
}

/// The used part of a node's storage in percent.
pub fn storage_percent(node: &MeshNode) -> (r: u64)
    ensures
        r == node.used_percent(),
{
    if node.total_storage_bytes == 0 {
        return 0;
    }
    match node.used_storage_bytes.checked_mul(100) {
        Some(scaled) => scaled / node.total_storage_bytes,
        None => u64::MAX / node.total_storage_bytes,
    }
}

/// A peer of a node.
#[derive(Debug)]
pub struct PeerSnapshot {
    pub addr: String,
    pub state: String,
}

/// What a node tells of itself.
#[derive(Debug)]
pub struct MeshSnapshot {
    pub updated_unix_ms: u64,
    pub node: MeshNode,
    pub mesh_addr: Option<String>,
    pub edge_service: Option<EdgeServiceSnapshot>,
    pub relay_session: RelaySessionIngressSnapshot,
    pub peers: Vec<PeerSnapshot>,
    pub stream: StatsSnapshot,
    pub streams: Vec<StreamTelemetry>,
    pub recent_commands: Vec<ControlCommand>,
}

impl MeshSnapshot {
    /// The same with an edge service.
    pub fn with_edge_service(self, edge_service: EdgeServiceSnapshot) -> (r: Self)
        ensures
            r == (MeshSnapshot { edge_service: Some(edge_service), ..self }),
    {
        MeshSnapshot {
            updated_unix_ms: self.updated_unix_ms,
            node: self.node,
            mesh_addr: self.mesh_addr,
            edge_service: Some(edge_service),
            relay_session: self.relay_session,
            peers: self.peers,
            stream: self.stream,
            streams: self.streams,
            recent_commands: self.recent_commands,
        }
    }
}

/// The number of streams with a part of the node's own.
pub open spec fn contributed(streams: Seq<StreamTelemetry>) -> nat
    decreases streams.len(),
{
    if streams.len() == 0 {
        0
    } else {
        contributed(streams.drop_last()) + if streams.last().latest_local_part is Some {
            1nat
        } else {
            0nat
        }
    }
}

fn count_contributed(streams: &Vec<StreamTelemetry>) -> (r: u64)
    ensures
        r == contributed(streams@),
{
    let mut count: u64 = 0;
    let mut i: usize = 0;
    proof {
        assert(streams@.take(0) =~= Seq::<StreamTelemetry>::empty());
    }
    while i < streams.len()
        invariant
            i <= streams.len(),
            count <= i,
            count == contributed(streams@.take(i as int)),
        decreases streams.len() - i,
    {
        proof {
            assert(streams@.take(i + 1).drop_last() =~= streams@.take(i as int));
            assert(streams@.take(i + 1).last() == streams@[i as int]);
        }
        if streams[i].latest_local_part.is_some() {
            count = count + 1;
        }
        i = i + 1;
    }
    proof {
        assert(streams@.take(i as int) =~= streams@);
    }
    count
}

/// Puts together what a node tells of itself: its storage is what its streams take, up to what
/// it has, and its peers are the ones that its own stream's account names.
pub fn mesh_snapshot(
    node: MeshNode,
    mesh_addr: String,
    relay_session: RelaySessionIngressSnapshot,
    stream: StatsSnapshot,
    streams: Vec<StreamTelemetry>,
    recent_commands: Vec<ControlCommand>,
    storage_bytes: u64,
    now_ms: u64,
) -> (r: MeshSnapshot)
    ensures
        r.updated_unix_ms == now_ms,
        r.node == (MeshNode {
            used_storage_bytes: if storage_bytes < node.total_storage_bytes {
                storage_bytes
            } else {
                node.total_storage_bytes
            },
            active_streams: streams@.len() as u64,
            contributor_streams: contributed(streams@) as u64,
            ..node
        }),
        r.mesh_addr == Some(mesh_addr),
        r.edge_service is None,
        r.relay_session == relay_session,
        r.peers@.len() == stream.mesh_peers@.len(),
        forall|i: int|
            0 <= i < r.peers@.len() ==> (#[trigger] r.peers@[i]).addr == stream.mesh_peers@[i]
                && r.peers@[i].state@ == "discovered"@,
        r.stream == stream,
        r.streams == streams,
        r.recent_commands == recent_commands,
{
    let mut peers: Vec<PeerSnapshot> = Vec::new();
    let mut i: usize = 0;
    while i < stream.mesh_peers.len()
        invariant
            i <= stream.mesh_peers.len(),
            peers@.len() == i,
            forall|j: int|
                0 <= j < i ==> (#[trigger] peers@[j]).addr == stream.mesh_peers@[j]
                    && peers@[j].state@ == "discovered"@,
        decreases stream.mesh_peers.len() - i,
    {
        peers.push(
            PeerSnapshot { addr: stream.mesh_peers[i].clone(), state: "discovered".to_owned() },
        );
        i = i + 1;
    }
    let used: u64 = if storage_bytes < node.total_storage_bytes {
        storage_bytes
    } else {
        node.total_storage_bytes
    };
    let contributor_streams: u64 = count_contributed(&streams);
    let active_streams: u64 = streams.len() as u64;
    MeshSnapshot {
        updated_unix_ms: now_ms,
        node: MeshNode {
            node_id: node.node_id,
            region: node.region,
            continent: node.continent,
            latitude_bits: node.latitude_bits,
            longitude_bits: node.longitude_bits,
            total_storage_bytes: node.total_storage_bytes,
            used_storage_bytes: used,
            egress_capacity_bps: node.egress_capacity_bps,
            contributor_streams,
            active_streams,
            draining: node.draining,
        },
        mesh_addr: Some(mesh_addr),
        edge_service: None,
        relay_session,
        peers,
        stream,
        streams,
        recent_commands,
    }
}

/// The account of a stream in what a node tells: of its streams the first with the number, or
/// its own stream where it tells of no others.
pub open spec fn stream_told(snapshot: MeshSnapshot, stream_id: u64) -> Option<TelemetryModel> {
    if snapshot.streams@.len() == 0 {
        if snapshot.stream.stream_id == stream_id {
            Some(stats_telemetry(snapshot.node.node_id@, snapshot.stream))
        } else {
            None
        }
    } else {
        first_account(snapshot.streams@, stream_id)
    }
}

/// The first account of a stream.
pub open spec fn first_account(streams: Seq<StreamTelemetry>, stream_id: u64) -> Option<
    TelemetryModel,
>
    decreases streams.len(),
{
    if streams.len() == 0 {
        None
    } else if streams[0].stream_id == stream_id {
        Some(streams[0]@)
    } else {
        first_account(streams.skip(1), stream_id)
    }
}

/// The account of a stream in what a node tells.
pub fn snapshot_stream_for_id(snapshot: &MeshSnapshot, stream_id: u64) -> (r: Option<StreamTelemetry>)
    ensures
        match r {
            Some(stream) => stream_told(*snapshot, stream_id) == Some(stream@),
            None => stream_told(*snapshot, stream_id) is None,
        },
{
    if snapshot.streams.len() == 0 {
        if snapshot.stream.stream_id == stream_id {
            return Some(
                StreamTelemetry::from_stats(snapshot.node.node_id.clone(), &snapshot.stream),
            );
        }
        return None;
    }
    let ghost streams = snapshot.streams@;
    let mut i: usize = 0;
    proof {
        assert(streams.skip(0) =~= streams);
    }
    while i < snapshot.streams.len()
        invariant
            streams == snapshot.streams@,
            streams.len() > 0,
            i <= streams.len(),
            first_account(streams, stream_id) == first_account(streams.skip(i as int), stream_id),
        decreases streams.len() - i,
    {
        proof {
            assert(streams.skip(i as int)[0] == streams[i as int]);
            assert(streams.skip(i as int).skip(1) =~= streams.skip(i + 1));
        }
        if snapshot.streams[i].stream_id == stream_id {
            return Some(snapshot.streams[i].copy());
        }
        i = i + 1;
    }
    None
}

/// The streams that are there in what a node tells.
pub open spec fn streams_told(snapshot: MeshSnapshot) -> Seq<u64> {
    if snapshot.streams@.len() == 0 {
        if snapshot.stream.latest_local_part is Some || snapshot.stream.latest_mesh_part is Some {
            seq![snapshot.stream.stream_id]
        } else {
            Seq::empty()
        }
    } else {
        active_ids(snapshot.streams@)
    }
}

/// The numbers of the streams that are there, in order.
pub open spec fn active_ids(streams: Seq<StreamTelemetry>) -> Seq<u64>
    decreases streams.len(),
{
    if streams.len() == 0 {
        Seq::empty()
    } else if streams.last()@.is_active() {
        active_ids(streams.drop_last()).push(streams.last().stream_id)
    } else {
        active_ids(streams.drop_last())
    }
}

/// The streams that are there in what a node tells.
pub fn snapshot_stream_ids(snapshot: &MeshSnapshot) -> (r: Vec<u64>)
    ensures
        r@ == streams_told(*snapshot),
{
    let mut out: Vec<u64> = Vec::new();
    if snapshot.streams.len() == 0 {
        if snapshot.stream.latest_local_part.is_some() || snapshot.stream.latest_mesh_part.is_some() {
            out.push(snapshot.stream.stream_id);
        }
        proof {
            assert(out@ =~= streams_told(*snapshot));
        }
        return out;
    }
    let ghost streams = snapshot.streams@;
    let mut i: usize = 0;
    proof {
        assert(streams.take(0) =~= Seq::<StreamTelemetry>::empty());
    }
    while i < snapshot.streams.len()
        invariant
            streams == snapshot.streams@,
            i <= streams.len(),
            out@ == active_ids(streams.take(i as int)),
        decreases streams.len() - i,
    {
        proof {
            assert(streams.take(i + 1).drop_last() =~= streams.take(i as int));
            assert(streams.take(i + 1).last() == streams[i as int]);
        }
        if snapshot.streams[i].active() {
            out.push(snapshot.streams[i].stream_id);
        }
        i = i + 1;
    }
    proof {
        assert(streams.take(i as int) =~= streams);
    }
    out
}

/// A directed link of the mesh.
#[derive(Debug)]
pub struct ConnectionSnapshot {
    pub source_node_id: String,
    pub target_addr: String,
    pub target_node_id: Option<String>,
    pub state: String,
    pub private_target: bool,
}

/// How much of the links of a mesh is known.
#[derive(Clone, Copy, Debug, PartialEq, Eq, Structural)]
pub struct TopologyConfidenceSnapshot {
    pub connection_count: usize,
    pub resolved_peer_count: usize,
    pub unresolved_peer_count: usize,
    pub private_peer_count: usize,
    pub public_peer_count: usize,
}

/// The number of links whose far end is a known node.
pub open spec fn resolved_count(connections: Seq<ConnectionSnapshot>) -> nat
    decreases connections.len(),
{
    if connections.len() == 0 {
        0
    } else {
        resolved_count(connections.drop_last()) + if connections.last().target_node_id is Some {
            1nat
        } else {
            0nat
        }
    }
}

/// The number of links whose far end has a private address.
pub open spec fn private_count(connections: Seq<ConnectionSnapshot>) -> nat
    decreases connections.len(),
{
    if connections.len() == 0 {
        0
    } else {
        private_count(connections.drop_last()) + if connections.last().private_target {
            1nat
        } else {
            0nat
        }
    }
}

pub proof fn lemma_link_counts(connections: Seq<ConnectionSnapshot>)
    ensures
        resolved_count(connections) <= connections.len(),
        private_count(connections) <= connections.len(),
    decreases connections.len(),
{
    if connections.len() > 0 {
        lemma_link_counts(connections.drop_last());
    }
}

impl TopologyConfidenceSnapshot {
    /// Counts the links; what is not resolved is unresolved, and what is not private is public.
    pub fn from_connections(connections: &Vec<ConnectionSnapshot>) -> (r: Self)
        ensures
            r.connection_count == connections@.len(),
            r.resolved_peer_count == resolved_count(connections@),
            r.private_peer_count == private_count(connections@),
            r.unresolved_peer_count + r.resolved_peer_count == r.connection_count,
            r.public_peer_count + r.private_peer_count == r.connection_count,
    {
        let mut resolved: usize = 0;
        let mut private: usize = 0;
        let mut i: usize = 0;
        proof {
            assert(connections@.take(0) =~= Seq::<ConnectionSnapshot>::empty());
            lemma_link_counts(connections@);
        }
        while i < connections.len()
            invariant
                i <= connections.len(),
                resolved <= i,
                private <= i,
                resolved == resolved_count(connections@.take(i as int)),
                private == private_count(connections@.take(i as int)),
            decreases connections.len() - i,
        {
            proof {
                assert(connections@.take(i + 1).drop_last() =~= connections@.take(i as int));
                assert(connections@.take(i + 1).last() == connections@[i as int]);
            }
            if connections[i].target_node_id.is_some() {
                resolved = resolved + 1;
            }
            if connections[i].private_target {
                private = private + 1;
            }
            i = i + 1;
        }
        proof {
            assert(connections@.take(i as int) =~= connections@);
        }
        let connection_count: usize = connections.len();
        TopologyConfidenceSnapshot {
            connection_count,
            resolved_peer_count: resolved,
            unresolved_peer_count: connection_count.saturating_sub(resolved),
            private_peer_count: private,
            public_peer_count: connection_count.saturating_sub(private),
        }
    }
}

/// The sums over a mesh.
#[derive(Clone, Copy, Debug, PartialEq, Eq, Structural)]
pub struct AggregateMetrics {
    pub node_count: usize,
    pub connection_count: usize,
    pub total_storage_bytes: u64,
    pub used_storage_bytes: u64,
    pub total_egress_capacity_bps: u64,
    pub contributor_streams: u64,
    pub active_streams: u64,
}

/// The account of a remote node whose telemetry is too old.
#[derive(Debug)]
pub struct TelemetryNodeHealth {
    pub node_id: String,
    pub region: String,
    pub updated_unix_ms: u64,
    pub age_ms: u64,
}

/// The account of the telemetry of remote nodes.
#[derive(Debug)]
pub struct TelemetryHealthSnapshot {
    pub stale_after_ms: u64,
    pub fresh_remote_count: usize,
    pub stale_remote_count: usize,
    pub stale_nodes: Vec<TelemetryNodeHealth>,
}

/// The account of a connection to the telemetry of a peer.
#[derive(Debug)]
pub struct TelemetryPeerStatus {
    pub peer: String,
    pub state: String,
    pub connect_attempts: u64,
    pub disconnects: u64,
    pub payloads: u64,
    pub bytes: u64,
    pub last_connected_unix_ms: Option<u64>,
    pub last_payload_unix_ms: Option<u64>,
    pub last_error: Option<String>,
}

/// Whether peers on the private network are discovered.
#[derive(Debug)]
pub struct PrivateDiscoveryStatus {
    pub compiled: bool,
    pub enabled: bool,
    pub state: &'static str,
    pub broadcast_port: Option<u16>,
    pub mesh_port: Option<u16>,
    pub details: Vec<String>,
}

impl PrivateDiscoveryStatus {
    /// Discovery that is built in, and switched on or not.
    pub fn from_args(enabled: bool, broadcast_port: u16, mesh_port: u16) -> (r: Self)
        ensures
            r.compiled,
            r.enabled == enabled,
            enabled ==> {
                &&& r.state@ == "listening"@
                &&& r.broadcast_port == Some(broadcast_port)
                &&& r.mesh_port == Some(mesh_port)
                &&& views(r.details@) == seq![
                    "udp-broadcast://0.0.0.0:"@ + decimal(broadcast_port as nat),
                    "mesh-port="@ + decimal(mesh_port as nat),
                ]
            },
            !enabled ==> {
                &&& r.state@ == "available"@
                &&& r.broadcast_port is None
                &&& r.mesh_port is None
                &&& views(r.details@) == seq![
                    "pass --private-subnet-discovery to discover VLAN peers"@,
                ]
            },
    {
        let mut details: Vec<String> = Vec::new();
        if enabled {
            let mut broadcast = "udp-broadcast://0.0.0.0:".to_owned();
            broadcast.append(decimal_text(broadcast_port as u64).as_str());
            let mut mesh = "mesh-port=".to_owned();
            mesh.append(decimal_text(mesh_port as u64).as_str());
            details.push(broadcast);
            details.push(mesh);
            proof {
                assert(views(details@) =~= seq![
                    "udp-broadcast://0.0.0.0:"@ + decimal(broadcast_port as nat),
                    "mesh-port="@ + decimal(mesh_port as nat),
                ]);
            }
            PrivateDiscoveryStatus {
                compiled: true,
                enabled: true,
                state: "listening",
                broadcast_port: Some(broadcast_port),
                mesh_port: Some(mesh_port),
                details,
            }
        } else {
            details.push("pass --private-subnet-discovery to discover VLAN peers".to_owned());
            proof {
                assert(views(details@) =~= seq![
                    "pass --private-subnet-discovery to discover VLAN peers"@,
                ]);
            }
            PrivateDiscoveryStatus {
                compiled: true,
                enabled: false,
                state: "available",
                broadcast_port: None,
                mesh_port: None,
                details,
            }
        }
    }

    /// Discovery that is not built in.
    pub fn unavailable() -> (r: Self)
        ensures
            !r.compiled,
            !r.enabled,
            r.state@ == "unavailable"@,
            r.broadcast_port is None,
            r.mesh_port is None,
            views(r.details@) == seq!["build with --features private-subnet-discovery"@],
    {
        let mut details: Vec<String> = Vec::new();
        details.push("build with --features private-subnet-discovery".to_owned());
        proof {
            assert(views(details@) =~= seq!["build with --features private-subnet-discovery"@]);
        }
        PrivateDiscoveryStatus {
            compiled: false,
            enabled: false,
            state: "unavailable",
            broadcast_port: None,
            mesh_port: None,
            details,
        }
    }
}

/// How a node is orchestrated.
#[derive(Debug)]
pub struct OrchestrationStatus {
    pub control_dispatch_ready: bool,
    pub provision: ProvisionStatus,
    pub telemetry_peers: Vec<TelemetryPeerStatus>,
    pub private_discovery: PrivateDiscoveryStatus,
}

/// The relay of a node, with the node.
#[derive(Debug)]
pub struct RelayNodeSessionSnapshot {
    pub node_id: String,
    pub region: String,
    pub relay_session: RelaySessionIngressSnapshot,
}

/// A node's storage is used by the largest whole percentage that does not exceed the share.
pub proof fn percentages_are_shares(node: MeshNode)
    requires
        node.total_storage_bytes > 0,
        node.used_storage_bytes * 100 <= u64::MAX,
    ensures
        node.used_percent() * node.total_storage_bytes <= node.used_storage_bytes * 100,
        node.used_storage_bytes * 100 < (node.used_percent() + 1) * node.total_storage_bytes,
        node.used_storage_bytes == node.total_storage_bytes ==> node.used_percent() == 100,
        node.used_storage_bytes == 0 ==> node.used_percent() == 0,
{
    let scaled = node.used_storage_bytes * 100;
    let total = node.total_storage_bytes as int;
    vstd::arithmetic::div_mod::lemma_fundamental_div_mod(scaled, total);
    let q = scaled / total;
    assert(0 <= q <= scaled) by (nonlinear_arith)
        requires
            total > 0,
            scaled >= 0,
            q == scaled / total,
    ;
    assert(total * q == q * total) by (nonlinear_arith);
    assert((q + 1) * total == q * total + total) by (nonlinear_arith);
    if node.used_storage_bytes == node.total_storage_bytes {
        assert(q == 100) by (nonlinear_arith)
            requires
                total > 0,
                scaled == total * 100,
                q == scaled / total,
        ;
    }
}

/// A node without storage uses none of it.
pub proof fn no_storage_is_not_used(node: MeshNode)
    requires
        node.total_storage_bytes == 0,
    ensures
        node.used_percent() == 0,
{
}

/// Links count as resolved where their target is a known node, and as private where their target
/// is a private address; contributed streams are those with a part of their own.
pub proof fn links_are_counted_by_kind(
    connections: Seq<ConnectionSnapshot>,
    streams: Seq<StreamTelemetry>,
)
    ensures
        resolved_count(connections) == connections.filter(
            |c: ConnectionSnapshot| c.target_node_id is Some,
        ).len(),
        private_count(connections) == connections.filter(
            |c: ConnectionSnapshot| c.private_target,
        ).len(),
        contributed(streams) == streams.filter(
            |s: StreamTelemetry| s.latest_local_part is Some,
        ).len(),
    decreases connections.len() + streams.len(),
{
    reveal(Seq::filter);
    if connections.len() > 0 {
        links_are_counted_by_kind(connections.drop_last(), streams);
    }
    if streams.len() > 0 {
        links_are_counted_by_kind(connections, streams.drop_last());
    }
}

/// What a node tells of a stream is its first account of it; a node that lists no streams tells of
/// its own alone.
pub proof fn the_first_account_counts(snapshot: MeshSnapshot, stream_id: u64)
    ensures
        snapshot.streams@.len() == 0 ==> (stream_told(snapshot, stream_id) is Some <==> stream_id
            == snapshot.stream.stream_id),
        snapshot.streams@.len() > 0 ==> match stream_told(snapshot, stream_id) {
            Some(told) => exists|i: int|
                0 <= i < snapshot.streams@.len() && (#[trigger] snapshot.streams@[i]).stream_id
                    == stream_id && told == snapshot.streams@[i]@ && forall|j: int|
                    0 <= j < i ==> (#[trigger] snapshot.streams@[j]).stream_id != stream_id,
            None => forall|j: int|
                0 <= j < snapshot.streams@.len() ==> (#[trigger] snapshot.streams@[j]).stream_id
                    != stream_id,
        },
{
    lemma_first_account(snapshot.streams@, stream_id);
}

proof fn lemma_first_account(streams: Seq<StreamTelemetry>, stream_id: u64)
    ensures
        match first_account(streams, stream_id) {
            Some(told) => exists|i: int|
                0 <= i < streams.len() && (#[trigger] streams[i]).stream_id == stream_id && told
                    == streams[i]@ && forall|j: int|
                    0 <= j < i ==> (#[trigger] streams[j]).stream_id != stream_id,
            None => forall|j: int|
                0 <= j < streams.len() ==> (#[trigger] streams[j]).stream_id != stream_id,
        },
    decreases streams.len(),
{
    if streams.len() > 0 {
        if streams[0].stream_id == stream_id {
            assert(first_account(streams, stream_id) == Some(streams[0]@));
        } else {
            let rest = streams.skip(1);
            lemma_first_account(rest, stream_id);
            assert forall|j: int| 0 < j < streams.len() implies rest[j - 1]
                == #[trigger] streams[j] by {}
            match first_account(rest, stream_id) {
                Some(told) => {
                    let i = choose|i: int|
                        0 <= i < rest.len() && (#[trigger] rest[i]).stream_id == stream_id && told
                            == rest[i]@ && forall|j: int|
                            0 <= j < i ==> (#[trigger] rest[j]).stream_id != stream_id;
                    assert(streams[i + 1] == rest[i]);
                    assert forall|j: int| 0 <= j < i + 1 implies (#[trigger] streams[j]).stream_id
                        != stream_id by {
                        if j > 0 {
                            assert(rest[j - 1] == streams[j]);
                        }
                    }
                },
                None => {
                    assert forall|j: int| 0 <= j < streams.len() implies (
                    #[trigger] streams[j]).stream_id != stream_id by {
                        if j > 0 {
                            assert(rest[j - 1] == streams[j]);
                        }
                    }
                },
            }
        }
    }
}

/// The streams that a node tells of are those that are active: with a part of its own, a part of
/// the mesh or a head.
pub proof fn active_streams_are_told(snapshot: MeshSnapshot, stream_id: u64)
    ensures
        snapshot.streams@.len() == 0 ==> (streams_told(snapshot).contains(stream_id) <==> stream_id
            == snapshot.stream.stream_id && (snapshot.stream.latest_local_part is Some
            || snapshot.stream.latest_mesh_part is Some)),
        snapshot.streams@.len() > 0 ==> (streams_told(snapshot).contains(stream_id) <==> exists|
            i: int,
        |
            0 <= i < snapshot.streams@.len() && (#[trigger] snapshot.streams@[i]).stream_id
                == stream_id && (snapshot.streams@[i].latest_local_part is Some
                || snapshot.streams@[i].latest_mesh_part is Some
                || snapshot.streams@[i].head_object is Some)),
{
    lemma_active_ids(snapshot.streams@, stream_id);
    if snapshot.streams@.len() == 0 {
        let own = seq![snapshot.stream.stream_id];
        assert(own[0] == snapshot.stream.stream_id);
    }
}

proof fn lemma_active_ids(streams: Seq<StreamTelemetry>, stream_id: u64)
    ensures
        active_ids(streams).contains(stream_id) <==> exists|i: int|
            0 <= i < streams.len() && (#[trigger] streams[i]).stream_id == stream_id && (
            streams[i].latest_local_part is Some || streams[i].latest_mesh_part is Some
                || streams[i].head_object is Some),
    decreases streams.len(),
{
    if streams.len() > 0 {
        let front = streams.drop_last();
        let n = streams.len() - 1;
        lemma_active_ids(front, stream_id);
        assert(streams.last() == streams[n]);
        assert forall|i: int| 0 <= i < n implies front[i] == #[trigger] streams[i] by {}
        let before = active_ids(front);
        let after = active_ids(streams);
        if before.contains(stream_id) {
            let a = choose|a: int| 0 <= a < before.len() && before[a] == stream_id;
            assert(after[a] == stream_id);
            let i = choose|i: int|
                0 <= i < front.len() && (#[trigger] front[i]).stream_id == stream_id && (
                front[i].latest_local_part is Some || front[i].latest_mesh_part is Some
                    || front[i].head_object is Some);
            assert(streams[i] == front[i]);
        }
        if after.contains(stream_id) && !before.contains(stream_id) {
            let a = choose|a: int| 0 <= a < after.len() && after[a] == stream_id;
            if a < before.len() {
                assert(before[a] == stream_id);
            }
            assert(streams[n].stream_id == stream_id);
        }
        if streams[n].stream_id == stream_id && streams[n]@.is_active() {
            assert(after[before.len() as int] == stream_id);
        }
    }
}

} // verus!
