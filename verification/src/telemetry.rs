//! What is remembered of the telemetry of other nodes, and of the connections it comes by.

use vstd::prelude::*;
use vstd::string::*;
use crate::control::ControlCommand;
use crate::edge::{EdgeResponseSnapshot, EdgeServiceSnapshot};
use crate::live_state::{saturating_diff, saturating_sum};
use crate::mesh::{
    MeshSnapshot, PeerSnapshot, TelemetryHealthSnapshot, TelemetryNodeHealth, TelemetryPeerStatus,
};
use crate::order::{
    in_order, inserted, lemma_text_total, lemma_text_transitive, ranked,
    ranking_orders, sort_by_rank, text_le, text_not_after, Ranked,
};
use crate::streams::{StatsSnapshot, StreamTelemetry};
use crate::text::{copy_text, same_text, view_of};

verus! {

/// How long a node's telemetry counts as fresh, where nothing else is configured.
pub const DEFAULT_TELEMETRY_STALE_MS: u64 = 30_000;

/// The most nodes that are remembered as stale.
pub const MAX_STALE_NODES: usize = 32;

/// Something that can be copied whole.
pub trait Copied: Sized {
    /// Another copy.
    fn copied(&self) -> (r: Self)
        ensures
            r == *self,
    ;
}

impl Copied for u64 {
    fn copied(&self) -> (r: Self) {
        *self
    }
}

impl Copied for String {
    fn copied(&self) -> (r: Self) {
        self.clone()
    }
}

impl Copied for EdgeResponseSnapshot {
    fn copied(&self) -> (r: Self) {
        self.copy()
    }
}

impl Copied for StreamTelemetry {
    fn copied(&self) -> (r: Self) {
        self.copy()
    }
}

impl Copied for ControlCommand {
    fn copied(&self) -> (r: Self) {
        self.copy()
    }
}

impl Copied for PeerSnapshot {
    fn copied(&self) -> (r: Self) {
        PeerSnapshot { addr: self.addr.clone(), state: self.state.clone() }
    }
}

impl Copied for TelemetryNodeHealth {
    fn copied(&self) -> (r: Self) {
        TelemetryNodeHealth {
            node_id: self.node_id.clone(),
            region: self.region.clone(),
            updated_unix_ms: self.updated_unix_ms,
            age_ms: self.age_ms,
        }
    }
}

impl Copied for TelemetryPeerStatus {
    fn copied(&self) -> (r: Self) {
        TelemetryPeerStatus {
            peer: self.peer.clone(),
            state: self.state.clone(),
            connect_attempts: self.connect_attempts,
            disconnects: self.disconnects,
            payloads: self.payloads,
            bytes: self.bytes,
            last_connected_unix_ms: self.last_connected_unix_ms,
            last_payload_unix_ms: self.last_payload_unix_ms,
            last_error: copy_text(&self.last_error),
        }
    }
}

/// Another copy of a list.
pub fn copy_list<T: Copied>(list: &Vec<T>) -> (r: Vec<T>)
    ensures
        r@ == list@,
{
    let mut out: Vec<T> = Vec::new();
    let mut i: usize = 0;
    while i < list.len()
        invariant
            i <= list.len(),
            out@ == list@.take(i as int),
        decreases list.len() - i,
    {
        out.push(list[i].copied());
        proof {
            assert(out@ =~= list@.take(i + 1));
        }
        i = i + 1;
    }
    proof {
        assert(out@ =~= list@);
    }
    out
}

impl EdgeServiceSnapshot {
    /// Whether two edges tell the same.
    pub open spec fn same(self, other: Self) -> bool {
        &&& self.response_duration_buckets@ == other.response_duration_buckets@
        &&& self.recent_responses@ == other.recent_responses@
        &&& self == (EdgeServiceSnapshot {
            response_duration_buckets: self.response_duration_buckets,
            recent_responses: self.recent_responses,
            ..other
        })
    }

    /// Another copy of the edge.
    pub fn copy(&self) -> (r: Self)
        ensures
            r.same(*self),
    {
        EdgeServiceSnapshot {
            node_id: self.node_id.clone(),
            region: self.region.clone(),
            continent: self.continent.clone(),
            playback_base_url: copy_text(&self.playback_base_url),
            active_readers: self.active_readers,
            requests_served: self.requests_served,
            bytes_served: self.bytes_served,
            llhls_tail_requests: self.llhls_tail_requests,
            responses_total: self.responses_total,
            response_errors: self.response_errors,
            response_not_found: self.response_not_found,
            last_response_unix_ms: self.last_response_unix_ms,
            response_duration_count: self.response_duration_count,
            response_duration_sum_us: self.response_duration_sum_us,
            response_duration_p95_us: self.response_duration_p95_us,
            response_duration_buckets: copy_list(&self.response_duration_buckets),
            recent_responses: copy_list(&self.recent_responses),
            draining: self.draining,
        }
    }
}

impl StatsSnapshot {
    /// Whether two accounts of a stream tell the same.
    pub open spec fn same(self, other: Self) -> bool {
        &&& self.mesh_peers@ == other.mesh_peers@
        &&& self == (StatsSnapshot { mesh_peers: self.mesh_peers, ..other })
    }

    /// Another copy of the account.
    pub fn copy(&self) -> (r: Self)
        ensures
            r.same(*self),
    {
        StatsSnapshot {
            stream_id: self.stream_id,
            stream_id_text: self.stream_id_text.clone(),
            part_target_ms: self.part_target_ms,
            parts_per_segment: self.parts_per_segment,
            window_parts: self.window_parts,
            datagrams_received: self.datagrams_received,
            bytes_received: self.bytes_received,
            current_part_bytes: self.current_part_bytes,
            latest_local_part: self.latest_local_part,
            latest_local_part_bytes: self.latest_local_part_bytes,
            latest_local_part_duration_ms: self.latest_local_part_duration_ms,
            latest_mesh_part: self.latest_mesh_part,
            canonical_epoch: self.canonical_epoch,
            canonical_epoch_activation_delay_us: self.canonical_epoch_activation_delay_us,
            contiguous_object: self.contiguous_object,
            head_object: self.head_object,
            gap_count: self.gap_count,
            mesh_peers: copy_list(&self.mesh_peers),
            latest_local_part_age_ms: self.latest_local_part_age_ms,
            last_ingest_age_ms: self.last_ingest_age_ms,
        }
    }
}

impl MeshSnapshot {
    /// Whether two nodes tell the same.
    pub open spec fn same(self, other: Self) -> bool {
        &&& match (self.edge_service, other.edge_service) {
            (Some(a), Some(b)) => a.same(b),
            (None, None) => true,
            _ => false,
        }
        &&& self.peers@ == other.peers@
        &&& self.stream.same(other.stream)
        &&& self.streams@ == other.streams@
        &&& self.recent_commands@ == other.recent_commands@
        &&& self == (MeshSnapshot {
            edge_service: self.edge_service,
            peers: self.peers,
            stream: self.stream,
            streams: self.streams,
            recent_commands: self.recent_commands,
            ..other
        })
    }

    /// Another copy of what a node tells.
    pub fn copy(&self) -> (r: Self)
        ensures
            r.same(*self),
    {
        let edge_service = match &self.edge_service {
            Some(edge) => Some(edge.copy()),
            None => None,
        };
        MeshSnapshot {
            updated_unix_ms: self.updated_unix_ms,
            node: self.node.copy(),
            mesh_addr: copy_text(&self.mesh_addr),
            edge_service,
            relay_session: self.relay_session,
            peers: copy_list(&self.peers),
            stream: self.stream.copy(),
            streams: copy_list(&self.streams),
            recent_commands: copy_list(&self.recent_commands),
        }
    }
}

impl Ranked for MeshSnapshot {
    open spec fn le(self, other: Self) -> bool {
        text_le(self.node.node_id@, other.node.node_id@)
    }

    proof fn rank_laws(a: Self, b: Self, c: Self) {
        lemma_text_total(a.node.node_id@, b.node.node_id@);
        if a.le(b) && b.le(c) {
            lemma_text_transitive(a.node.node_id@, b.node.node_id@, c.node.node_id@);
        }
    }

    fn not_after(&self, other: &Self) -> (r: bool) {
        text_not_after(self.node.node_id.as_str(), other.node.node_id.as_str())
    }
}

impl Ranked for TelemetryNodeHealth {
    /// The oldest first; of the same age by name.
    open spec fn le(self, other: Self) -> bool {
        if self.age_ms != other.age_ms {
            self.age_ms > other.age_ms
        } else {
            text_le(self.node_id@, other.node_id@)
        }
    }

    proof fn rank_laws(a: Self, b: Self, c: Self) {
        lemma_text_total(a.node_id@, b.node_id@);
        if a.le(b) && b.le(c) && a.age_ms == c.age_ms {
            lemma_text_transitive(a.node_id@, b.node_id@, c.node_id@);
        }
    }

    fn not_after(&self, other: &Self) -> (r: bool) {
        if self.age_ms != other.age_ms {
            self.age_ms > other.age_ms
        } else {
            text_not_after(self.node_id.as_str(), other.node_id.as_str())
        }
    }
}

impl Ranked for TelemetryPeerStatus {
    open spec fn le(self, other: Self) -> bool {
        text_le(self.peer@, other.peer@)
    }

    proof fn rank_laws(a: Self, b: Self, c: Self) {
        lemma_text_total(a.peer@, b.peer@);
        if a.le(b) && b.le(c) {
            lemma_text_transitive(a.peer@, b.peer@, c.peer@);
        }
    }

    fn not_after(&self, other: &Self) -> (r: bool) {
        text_not_after(self.peer.as_str(), other.peer.as_str())
    }
}

/// What a stale node is remembered by.
pub open spec fn health_of(snapshot: MeshSnapshot, now_ms: u64) -> TelemetryNodeHealth {
    TelemetryNodeHealth {
        node_id: snapshot.node.node_id,
        region: snapshot.node.region,
        updated_unix_ms: snapshot.updated_unix_ms,
        age_ms: saturating_diff(now_ms, snapshot.updated_unix_ms),
    }
}

impl TelemetryNodeHealth {
    /// What a stale node is remembered by.
    pub fn from_snapshot(snapshot: &MeshSnapshot, now_ms: u64) -> (r: Self)
        ensures
            r == health_of(*snapshot, now_ms),
    {
        TelemetryNodeHealth {
            node_id: snapshot.node.node_id.clone(),
            region: snapshot.node.region.clone(),
            updated_unix_ms: snapshot.updated_unix_ms,
            age_ms: now_ms.saturating_sub(snapshot.updated_unix_ms),
        }
    }
}

/// Whether what a node told is too old; it never is where no age is set.
pub open spec fn outdated(snapshot: MeshSnapshot, stale_after_ms: u64, now_ms: u64) -> bool {
    stale_after_ms > 0 && now_ms - snapshot.updated_unix_ms > stale_after_ms
}

/// What was told lately enough.
pub open spec fn fresh(list: Seq<MeshSnapshot>, stale_after_ms: u64, now_ms: u64) -> Seq<
    MeshSnapshot,
>
    decreases list.len(),
{
    if list.len() == 0 {
        Seq::empty()
    } else if outdated(list.last(), stale_after_ms, now_ms) {
        fresh(list.drop_last(), stale_after_ms, now_ms)
    } else {
        fresh(list.drop_last(), stale_after_ms, now_ms).push(list.last())
    }
}

/// The nodes that told nothing lately.
pub open spec fn aged(list: Seq<MeshSnapshot>, stale_after_ms: u64, now_ms: u64) -> Seq<
    TelemetryNodeHealth,
>
    decreases list.len(),
{
    if list.len() == 0 {
        Seq::empty()
    } else if outdated(list.last(), stale_after_ms, now_ms) {
        aged(list.drop_last(), stale_after_ms, now_ms).push(health_of(list.last(), now_ms))
    } else {
        aged(list.drop_last(), stale_after_ms, now_ms)
    }
}

/// The first place of a node in a list of stale nodes; behind the list where it is not in it.
pub open spec fn health_place(list: Seq<TelemetryNodeHealth>, id: Seq<char>) -> int
    decreases list.len(),
{
    if list.len() == 0 {
        0
    } else {
        let front = health_place(list.drop_last(), id);
        if front < list.len() - 1 || list.last().node_id@ == id {
            front
        } else {
            list.len() as int
        }
    }
}

/// A list of stale nodes with one more, in the place of what it said of that node before.
pub open spec fn with_health(list: Seq<TelemetryNodeHealth>, node: TelemetryNodeHealth) -> Seq<
    TelemetryNodeHealth,
> {
    let i = health_place(list, node.node_id@);
    if i < list.len() {
        list.update(i, node)
    } else {
        list.push(node)
    }
}

/// A list of stale nodes with more of them.
pub open spec fn with_all_health(
    list: Seq<TelemetryNodeHealth>,
    nodes: Seq<TelemetryNodeHealth>,
) -> Seq<TelemetryNodeHealth>
    decreases nodes.len(),
{
    if nodes.len() == 0 {
        list
    } else {
        with_health(with_all_health(list, nodes.drop_last()), nodes.last())
    }
}

/// The first nodes of a list, as many as are remembered as stale.
pub open spec fn remembered_part(list: Seq<TelemetryNodeHealth>) -> Seq<TelemetryNodeHealth> {
    if list.len() > MAX_STALE_NODES {
        list.take(MAX_STALE_NODES as int)
    } else {
        list
    }
}

/// What is remembered of stale nodes after more of them were found.
pub open spec fn remembered(
    list: Seq<TelemetryNodeHealth>,
    nodes: Seq<TelemetryNodeHealth>,
) -> Seq<TelemetryNodeHealth> {
    remembered_part(ranked(with_all_health(list, nodes)))
}

/// A list of stale nodes without one of them.
pub open spec fn without_health(list: Seq<TelemetryNodeHealth>, id: Seq<char>) -> Seq<
    TelemetryNodeHealth,
>
    decreases list.len(),
{
    if list.len() == 0 {
        Seq::empty()
    } else if list.last().node_id@ == id {
        without_health(list.drop_last(), id)
    } else {
        without_health(list.drop_last(), id).push(list.last())
    }
}

/// What is told without what one node tells.
pub open spec fn without_node(list: Seq<MeshSnapshot>, id: Seq<char>) -> Seq<MeshSnapshot>
    decreases list.len(),
{
    if list.len() == 0 {
        Seq::empty()
    } else if list.last().node.node_id@ == id {
        without_node(list.drop_last(), id)
    } else {
        without_node(list.drop_last(), id).push(list.last())
    }
}

/// Whether no node tells twice.
pub open spec fn told_once(list: Seq<MeshSnapshot>) -> bool {
    forall|i: int, j: int|
        0 <= i < j < list.len() ==> (#[trigger] list[i]).node.node_id@ != (
        #[trigger] list[j]).node.node_id@
}

/// Whether no node is named twice.
pub open spec fn named_once(list: Seq<TelemetryNodeHealth>) -> bool {
    forall|i: int, j: int|
        0 <= i < j < list.len() ==> (#[trigger] list[i]).node_id@ != (#[trigger] list[j]).node_id@
}

/// Whether no node that tells is named as stale.
pub open spec fn apart(told: Seq<MeshSnapshot>, stale: Seq<TelemetryNodeHealth>) -> bool {
    forall|i: int, j: int|
        0 <= i < told.len() && 0 <= j < stale.len() ==> (#[trigger] told[i]).node.node_id@ != (
        #[trigger] stale[j]).node_id@
}

/// What is remembered of the telemetry of other nodes.
#[derive(Debug)]
pub struct TelemetryAggregator {
    pub snapshots: Vec<MeshSnapshot>,
    pub stale_nodes: Vec<TelemetryNodeHealth>,
    pub stale_after_ms: u64,
}

impl Default for TelemetryAggregator {
    fn default() -> (r: Self)
        ensures
            r.valid(),
            r.snapshots@.len() == 0,
            r.stale_nodes@.len() == 0,
            r.stale_after_ms == DEFAULT_TELEMETRY_STALE_MS,
    {
        TelemetryAggregator::new(DEFAULT_TELEMETRY_STALE_MS)
    }
}

proof fn lemma_without_node(list: Seq<MeshSnapshot>, id: Seq<char>)
    requires
        told_once(list),
    ensures
        told_once(without_node(list, id)),
        forall|i: int|
            0 <= i < without_node(list, id).len() ==> (#[trigger] without_node(
                list,
                id,
            )[i]).node.node_id@ != id && list.contains(without_node(list, id)[i]),
    decreases list.len(),
{
    if list.len() > 0 {
        let front = list.drop_last();
        lemma_without_node(front, id);
        let rest = without_node(front, id);
        let r = without_node(list, id);
        assert forall|i: int| 0 <= i < rest.len() implies #[trigger] list.contains(rest[i])
            && rest[i].node.node_id@ != list.last().node.node_id@ by {
            let j = choose|j: int| 0 <= j < front.len() && front[j] == rest[i];
            assert(list[j] == rest[i]);
            assert(list[list.len() - 1] == list.last());
        }
        assert forall|i: int| 0 <= i < r.len() implies (#[trigger] r[i]).node.node_id@ != id
            && list.contains(r[i]) by {
            if i < rest.len() {
                assert(r[i] == rest[i]);
                assert(list.contains(rest[i]));
            } else {
                assert(r[i] == list[list.len() - 1]);
            }
        }
    }
}

proof fn lemma_without_health(list: Seq<TelemetryNodeHealth>, id: Seq<char>)
    requires
        named_once(list),
    ensures
        named_once(without_health(list, id)),
        without_health(list, id).len() <= list.len(),
        forall|i: int|
            0 <= i < without_health(list, id).len() ==> (#[trigger] without_health(
                list,
                id,
            )[i]).node_id@ != id && list.contains(without_health(list, id)[i]),
    decreases list.len(),
{
    if list.len() > 0 {
        let front = list.drop_last();
        lemma_without_health(front, id);
        let rest = without_health(front, id);
        let r = without_health(list, id);
        assert forall|i: int| 0 <= i < rest.len() implies #[trigger] list.contains(rest[i])
            && rest[i].node_id@ != list.last().node_id@ by {
            let j = choose|j: int| 0 <= j < front.len() && front[j] == rest[i];
            assert(list[j] == rest[i]);
            assert(list[list.len() - 1] == list.last());
        }
        assert forall|i: int| 0 <= i < r.len() implies (#[trigger] r[i]).node_id@ != id
            && list.contains(r[i]) by {
            if i < rest.len() {
                assert(r[i] == rest[i]);
                assert(list.contains(rest[i]));
            } else {
                assert(r[i] == list[list.len() - 1]);
            }
        }
    }
}

proof fn lemma_fresh(list: Seq<MeshSnapshot>, stale_after_ms: u64, now_ms: u64)
    requires
        told_once(list),
    ensures
        told_once(fresh(list, stale_after_ms, now_ms)),
        forall|i: int|
            0 <= i < fresh(list, stale_after_ms, now_ms).len() ==> !outdated(
                #[trigger] fresh(list, stale_after_ms, now_ms)[i],
                stale_after_ms,
                now_ms,
            ) && list.contains(fresh(list, stale_after_ms, now_ms)[i]),
    decreases list.len(),
{
    if list.len() > 0 {
        let front = list.drop_last();
        lemma_fresh(front, stale_after_ms, now_ms);
        let rest = fresh(front, stale_after_ms, now_ms);
        let r = fresh(list, stale_after_ms, now_ms);
        assert forall|i: int| 0 <= i < rest.len() implies #[trigger] list.contains(rest[i])
            && rest[i].node.node_id@ != list.last().node.node_id@ by {
            let j = choose|j: int| 0 <= j < front.len() && front[j] == rest[i];
            assert(list[j] == rest[i]);
            assert(list[list.len() - 1] == list.last());
        }
        assert forall|i: int| 0 <= i < r.len() implies !outdated(
            #[trigger] r[i],
            stale_after_ms,
            now_ms,
        ) && list.contains(r[i]) by {
            if i < rest.len() {
                assert(r[i] == rest[i]);
                assert(list.contains(rest[i]));
            } else {
                assert(r[i] == list[list.len() - 1]);
            }
        }
    }
}

/// Whether a stale node is one of those that told something, and told nothing lately.
pub open spec fn went_silent(
    node: TelemetryNodeHealth,
    list: Seq<MeshSnapshot>,
    stale_after_ms: u64,
    now_ms: u64,
) -> bool {
    exists|k: int|
        0 <= k < list.len() && outdated(#[trigger] list[k], stale_after_ms, now_ms) && node
            == health_of(list[k], now_ms)
}

proof fn lemma_aged(list: Seq<MeshSnapshot>, stale_after_ms: u64, now_ms: u64)
    ensures
        forall|i: int|
            0 <= i < aged(list, stale_after_ms, now_ms).len() ==> went_silent(
                #[trigger] aged(list, stale_after_ms, now_ms)[i],
                list,
                stale_after_ms,
                now_ms,
            ),
    decreases list.len(),
{
    if list.len() > 0 {
        let front = list.drop_last();
        lemma_aged(front, stale_after_ms, now_ms);
        let rest = aged(front, stale_after_ms, now_ms);
        let r = aged(list, stale_after_ms, now_ms);
        assert forall|i: int| 0 <= i < r.len() implies went_silent(
            #[trigger] r[i],
            list,
            stale_after_ms,
            now_ms,
        ) by {
            if i < rest.len() {
                assert(r[i] == rest[i]);
                assert(went_silent(rest[i], front, stale_after_ms, now_ms));
                let k = choose|k: int|
                    0 <= k < front.len() && outdated(#[trigger] front[k], stale_after_ms, now_ms)
                        && rest[i] == health_of(front[k], now_ms);
                assert(list[k] == front[k]);
            } else {
                assert(r[i] == health_of(list[list.len() - 1], now_ms));
            }
        }
    }
}

proof fn lemma_health_place(list: Seq<TelemetryNodeHealth>, id: Seq<char>)
    ensures
        0 <= health_place(list, id) <= list.len(),
        health_place(list, id) < list.len() ==> list[health_place(list, id)].node_id@ == id,
        forall|i: int| 0 <= i < health_place(list, id) ==> (#[trigger] list[i]).node_id@ != id,
    decreases list.len(),
{
    if list.len() > 0 {
        let front = list.drop_last();
        lemma_health_place(front, id);
        assert forall|i: int| 0 <= i < front.len() implies list[i] == front[i] by {}
        assert forall|i: int| 0 <= i < health_place(list, id) implies (
        #[trigger] list[i]).node_id@ != id by {
            if i < front.len() {
                assert(front[i] == list[i]);
            }
        }
    }
}

/// Whether every node of a list is in another, or is one of some others.
pub open spec fn from_either(
    list: Seq<TelemetryNodeHealth>,
    a: Seq<TelemetryNodeHealth>,
    b: Seq<TelemetryNodeHealth>,
) -> bool {
    forall|i: int|
        0 <= i < list.len() ==> a.contains(#[trigger] list[i]) || b.contains(list[i])
}

proof fn lemma_with_all_health(list: Seq<TelemetryNodeHealth>, nodes: Seq<TelemetryNodeHealth>)
    requires
        named_once(list),
    ensures
        named_once(with_all_health(list, nodes)),
        from_either(with_all_health(list, nodes), list, nodes),
    decreases nodes.len(),
{
    if nodes.len() == 0 {
        assert forall|i: int| 0 <= i < list.len() implies list.contains(#[trigger] list[i]) by {}
    } else {
        let front = nodes.drop_last();
        lemma_with_all_health(list, front);
        let before = with_all_health(list, front);
        let node = nodes.last();
        lemma_health_place(before, node.node_id@);
        let r = with_all_health(list, nodes);
        assert(nodes[nodes.len() - 1] == node);
        assert forall|i: int| 0 <= i < r.len() implies list.contains(#[trigger] r[i])
            || nodes.contains(r[i]) by {
            if r[i] != node {
                assert(r[i] == before[i]);
                if front.contains(before[i]) {
                    let k = choose|k: int| 0 <= k < front.len() && front[k] == before[i];
                    assert(nodes[k] == before[i]);
                }
            }
        }
    }
}

proof fn lemma_inserted_named(list: Seq<TelemetryNodeHealth>, x: TelemetryNodeHealth)
    requires
        named_once(list),
        forall|i: int| 0 <= i < list.len() ==> (#[trigger] list[i]).node_id@ != x.node_id@,
    ensures
        named_once(inserted(list, x)),
        forall|i: int|
            0 <= i < inserted(list, x).len() ==> (#[trigger] inserted(list, x)[i]) == x
                || list.contains(inserted(list, x)[i]),
    decreases list.len(),
{
    let r = inserted(list, x);
    if list.len() == 0 || list.last().le(x) {
        assert(r == list.push(x));
        assert forall|i: int| 0 <= i < r.len() implies (#[trigger] r[i]) == x || list.contains(
            r[i],
        ) by {
            if i < list.len() {
                assert(r[i] == list[i]);
            }
        }
    } else {
        let front = list.drop_last();
        lemma_inserted_named(front, x);
        let rest = inserted(front, x);
        assert(r == rest.push(list.last()));
        assert(list[list.len() - 1] == list.last());
        assert forall|i: int| 0 <= i < r.len() implies (#[trigger] r[i]) == x || list.contains(
            r[i],
        ) by {
            if i < rest.len() {
                assert(r[i] == rest[i]);
                if rest[i] != x {
                    let k = choose|k: int| 0 <= k < front.len() && front[k] == rest[i];
                    assert(list[k] == r[i]);
                }
            } else {
                assert(r[i] == list[list.len() - 1]);
            }
        }
        assert forall|i: int, j: int| 0 <= i < j < r.len() implies (#[trigger] r[i]).node_id@ != (
        #[trigger] r[j]).node_id@ by {
            assert(r[i] == rest[i]);
            if j < rest.len() {
                assert(r[j] == rest[j]);
            } else if rest[i] != x {
                let k = choose|k: int| 0 <= k < front.len() && front[k] == rest[i];
                assert(list[k] == rest[i]);
            }
        }
    }
}

proof fn lemma_ranked_named(list: Seq<TelemetryNodeHealth>)
    requires
        named_once(list),
    ensures
        named_once(ranked(list)),
        forall|i: int|
            0 <= i < ranked(list).len() ==> list.contains(#[trigger] ranked(list)[i]),
    decreases list.len(),
{
    if list.len() > 0 {
        let front = list.drop_last();
        lemma_ranked_named(front);
        let sorted = ranked(front);
        let x = list.last();
        assert(list[list.len() - 1] == x);
        assert forall|i: int| 0 <= i < sorted.len() implies (#[trigger] sorted[i]).node_id@
            != x.node_id@ && list.contains(sorted[i]) by {
            let k = choose|k: int| 0 <= k < front.len() && front[k] == sorted[i];
            assert(list[k] == sorted[i]);
        }
        lemma_inserted_named(sorted, x);
        let r = ranked(list);
        assert(r == inserted(sorted, x));
        assert forall|i: int| 0 <= i < r.len() implies list.contains(#[trigger] r[i]) by {
            if r[i] != x {
                let k = choose|k: int| 0 <= k < sorted.len() && sorted[k] == r[i];
                assert(list.contains(sorted[k]));
            }
        }
    }
}

/// What is remembered of stale nodes names each node once, and only nodes that were remembered
/// or found.
proof fn lemma_remembered(list: Seq<TelemetryNodeHealth>, nodes: Seq<TelemetryNodeHealth>)
    requires
        named_once(list),
    ensures
        named_once(remembered(list, nodes)),
        remembered(list, nodes).len() <= MAX_STALE_NODES,
        from_either(remembered(list, nodes), list, nodes),
{
    lemma_with_all_health(list, nodes);
    let all = with_all_health(list, nodes);
    lemma_ranked_named(all);
    let r = remembered(list, nodes);
    assert forall|i: int| 0 <= i < r.len() implies list.contains(#[trigger] r[i])
        || nodes.contains(r[i]) by {
        assert(r[i] == ranked(all)[i]);
        let k = choose|k: int| 0 <= k < all.len() && all[k] == r[i];
        assert(list.contains(all[k]) || nodes.contains(all[k]));
    }
}

proof fn lemma_alike_inserted(a: Seq<MeshSnapshot>, b: Seq<MeshSnapshot>, x: MeshSnapshot, y:
    MeshSnapshot)
    requires
        a.len() == b.len(),
        forall|i: int| 0 <= i < a.len() ==> (#[trigger] a[i]).same(b[i]),
        x.same(y),
    ensures
        inserted(a, x).len() == inserted(b, y).len(),
        forall|i: int|
            0 <= i < inserted(a, x).len() ==> (#[trigger] inserted(a, x)[i]).same(
                inserted(b, y)[i],
            ),
    decreases a.len(),
{
    if a.len() > 0 {
        assert(a[a.len() - 1].same(b[a.len() - 1]));
        let (f, g) = (a.drop_last(), b.drop_last());
        assert forall|i: int| 0 <= i < f.len() implies (#[trigger] f[i]).same(g[i]) by {
            assert(a[i].same(b[i]));
        }
        lemma_alike_inserted(f, g, x, y);
    }
}

proof fn lemma_alike_ranked(a: Seq<MeshSnapshot>, b: Seq<MeshSnapshot>)
    requires
        a.len() == b.len(),
        forall|i: int| 0 <= i < a.len() ==> (#[trigger] a[i]).same(b[i]),
    ensures
        ranked(a).len() == ranked(b).len(),
        forall|i: int| 0 <= i < ranked(a).len() ==> (#[trigger] ranked(a)[i]).same(ranked(b)[i]),
    decreases a.len(),
{
    if a.len() > 0 {
        assert(a[a.len() - 1].same(b[a.len() - 1]));
        let (f, g) = (a.drop_last(), b.drop_last());
        assert forall|i: int| 0 <= i < f.len() implies (#[trigger] f[i]).same(g[i]) by {
            assert(a[i].same(b[i]));
        }
        lemma_alike_ranked(f, g);
        lemma_alike_inserted(ranked(f), ranked(g), a.last(), b.last());
    }
}

impl TelemetryAggregator {
    /// No node tells twice or is named twice as stale, none does both, and few are named.
    pub open spec fn valid(self) -> bool {
        &&& told_once(self.snapshots@)
        &&& named_once(self.stale_nodes@)
        &&& apart(self.snapshots@, self.stale_nodes@)
        &&& self.stale_nodes@.len() <= MAX_STALE_NODES
    }

    /// Nothing remembered; what is older than an age will count as stale, or nothing where the
    /// age is zero.
    pub fn new(stale_after_ms: u64) -> (r: Self)
        ensures
            r.valid(),
            r.snapshots@.len() == 0,
            r.stale_nodes@.len() == 0,
            r.stale_after_ms == stale_after_ms,
    {
        TelemetryAggregator { snapshots: Vec::new(), stale_nodes: Vec::new(), stale_after_ms }
    }

    /// Whether what a node told is too old.
    pub fn is_stale(&self, snapshot: &MeshSnapshot, now_ms: u64) -> (r: bool)
        ensures
            r == outdated(*snapshot, self.stale_after_ms, now_ms),
    {
        self.stale_after_ms > 0 && now_ms.saturating_sub(snapshot.updated_unix_ms)
            > self.stale_after_ms
    }

    fn forget(&mut self, id: &str)
        ensures
            final(self).snapshots@ == without_node(old(self).snapshots@, id@),
            final(self).stale_nodes == old(self).stale_nodes,
            final(self).stale_after_ms == old(self).stale_after_ms,
    {
        let ghost all = self.snapshots@;
        let mut kept: Vec<MeshSnapshot> = Vec::new();
        let ghost mut done: int = 0;
        proof {
            assert(all.take(0) =~= Seq::<MeshSnapshot>::empty());
            assert(all.skip(0) =~= all);
        }
        while self.snapshots.len() > 0
            invariant
                0 <= done <= all.len(),
                self.snapshots@ == all.skip(done),
                kept@ == without_node(all.take(done), id@),
                self.stale_nodes == old(self).stale_nodes,
                self.stale_after_ms == old(self).stale_after_ms,
            decreases self.snapshots@.len(),
        {
            let snapshot = self.snapshots.remove(0);
            proof {
                assert(snapshot == all[done]);
                assert(all.take(done + 1).drop_last() =~= all.take(done));
                assert(all.take(done + 1).last() == all[done]);
                assert(self.snapshots@ =~= all.skip(done + 1));
                done = done + 1;
            }
            if !same_text(snapshot.node.node_id.as_str(), id) {
                kept.push(snapshot);
            }
        }
        proof {
            assert(all.take(done) =~= all);
        }
        self.snapshots = kept;
    }

    /// Remembers what a node tells, in place of what it told before.
    pub fn ingest_snapshot(&mut self, snapshot: MeshSnapshot)
        requires
            old(self).valid(),
        ensures
            final(self).valid(),
            final(self).snapshots@ == without_node(
                old(self).snapshots@,
                snapshot.node.node_id@,
            ).push(snapshot),
            final(self).stale_nodes@ == without_health(
                old(self).stale_nodes@,
                snapshot.node.node_id@,
            ),
            final(self).stale_after_ms == old(self).stale_after_ms,
    {
        let id = snapshot.node.node_id.clone();
        proof {
            lemma_without_node(self.snapshots@, id@);
            lemma_without_health(self.stale_nodes@, id@);
        }
        let ghost told = without_node(self.snapshots@, id@);
        let ghost told_before = self.snapshots@;
        let ghost stale = self.stale_nodes@;
        self.forget(id.as_str());
        self.snapshots.push(snapshot);
        let mut kept: Vec<TelemetryNodeHealth> = Vec::new();
        let mut i: usize = 0;
        proof {
            assert(stale.take(0) =~= Seq::<TelemetryNodeHealth>::empty());
        }
        while i < self.stale_nodes.len()
            invariant
                self.stale_nodes@ == stale,
                i <= stale.len(),
                kept@ == without_health(stale.take(i as int), id@),
            decreases stale.len() - i,
        {
            proof {
                assert(stale.take(i + 1).drop_last() =~= stale.take(i as int));
                assert(stale.take(i + 1).last() == stale[i as int]);
            }
            if !same_text(self.stale_nodes[i].node_id.as_str(), id.as_str()) {
                kept.push(self.stale_nodes[i].copied());
            }
            i = i + 1;
        }
        proof {
            assert(stale.take(i as int) =~= stale);
        }
        self.stale_nodes = kept;
        proof {
            let now = self.snapshots@;
            assert forall|i: int, j: int| 0 <= i < j < now.len() implies (
            #[trigger] now[i]).node.node_id@ != (#[trigger] now[j]).node.node_id@ by {
                assert(now[i] == told[i]);
                if j < told.len() {
                    assert(now[j] == told[j]);
                }
            }
            assert forall|i: int, j: int|
                0 <= i < now.len() && 0 <= j < self.stale_nodes@.len() implies (
            #[trigger] now[i]).node.node_id@ != (#[trigger] self.stale_nodes@[j]).node_id@ by {
                if i < told.len() {
                    assert(now[i] == told[i]);
                    let k = choose|k: int|
                        0 <= k < told_before.len() && told_before[k] == told[i];
                    let l = choose|l: int| 0 <= l < stale.len() && stale[l] == self.stale_nodes@[j];
                    assert(told_before[k].node.node_id@ != stale[l].node_id@);
                }
            }
        }
    }

    fn place_of(&self, id: &str) -> (r: usize)
        ensures
            r == health_place(self.stale_nodes@, id@),
    {
        proof {
            lemma_health_place(self.stale_nodes@, id@);
        }
        let mut i: usize = 0;
        while i < self.stale_nodes.len()
            invariant
                i <= self.stale_nodes.len(),
                i <= health_place(self.stale_nodes@, id@) <= self.stale_nodes@.len(),
                health_place(self.stale_nodes@, id@) < self.stale_nodes@.len()
                    ==> self.stale_nodes@[health_place(self.stale_nodes@, id@)].node_id@ == id@,
                forall|k: int|
                    0 <= k < health_place(self.stale_nodes@, id@) ==> (
                    #[trigger] self.stale_nodes@[k]).node_id@ != id@,
            decreases self.stale_nodes.len() - i,
        {
            if same_text(self.stale_nodes[i].node_id.as_str(), id) {
                return i;
            }
            i = i + 1;
        }
        i
    }

    /// Remembers stale nodes, in place of what was remembered of them; of too many, those that
    /// told something last are forgotten.
    pub fn remember_stale_nodes(&mut self, stale_nodes: Vec<TelemetryNodeHealth>)
        ensures
            final(self).stale_nodes@ == remembered(old(self).stale_nodes@, stale_nodes@),
            final(self).snapshots == old(self).snapshots,
            final(self).stale_after_ms == old(self).stale_after_ms,
    {
        let ghost before = self.stale_nodes@;
        let ghost told = self.snapshots;
        let ghost after_ms = self.stale_after_ms;
        let mut i: usize = 0;
        proof {
            assert(stale_nodes@.take(0) =~= Seq::<TelemetryNodeHealth>::empty());
        }
        while i < stale_nodes.len()
            invariant
                i <= stale_nodes.len(),
                self.stale_nodes@ == with_all_health(before, stale_nodes@.take(i as int)),
                self.snapshots == told,
                self.stale_after_ms == after_ms,
            decreases stale_nodes.len() - i,
        {
            proof {
                assert(stale_nodes@.take(i + 1).drop_last() =~= stale_nodes@.take(i as int));
                assert(stale_nodes@.take(i + 1).last() == stale_nodes@[i as int]);
                lemma_health_place(self.stale_nodes@, stale_nodes@[i as int].node_id@);
            }
            let place = self.place_of(stale_nodes[i].node_id.as_str());
            if place < self.stale_nodes.len() {
                self.stale_nodes.set(place, stale_nodes[i].copied());
            } else {
                self.stale_nodes.push(stale_nodes[i].copied());
            }
            i = i + 1;
        }
        proof {
            assert(stale_nodes@.take(i as int) =~= stale_nodes@);
        }
        let copies = copy_list(&self.stale_nodes);
        let mut sorted = sort_by_rank(copies);
        if sorted.len() > MAX_STALE_NODES {
            sorted.truncate(MAX_STALE_NODES);
            proof {
                assert(sorted@ =~= ranked(with_all_health(before, stale_nodes@)).take(
                    MAX_STALE_NODES as int,
                ));
            }
        }
        self.stale_nodes = sorted;
    }

    fn find_stale(&self, now_ms: u64) -> (r: Vec<TelemetryNodeHealth>)
        ensures
            r@ == aged(self.snapshots@, self.stale_after_ms, now_ms),
    {
        let mut out: Vec<TelemetryNodeHealth> = Vec::new();
        let mut i: usize = 0;
        proof {
            assert(self.snapshots@.take(0) =~= Seq::<MeshSnapshot>::empty());
        }
        while i < self.snapshots.len()
            invariant
                i <= self.snapshots.len(),
                out@ == aged(self.snapshots@.take(i as int), self.stale_after_ms, now_ms),
            decreases self.snapshots.len() - i,
        {
            proof {
                let s = self.snapshots@;
                assert(s.take(i + 1).drop_last() =~= s.take(i as int));
                assert(s.take(i + 1).last() == s[i as int]);
            }
            if self.is_stale(&self.snapshots[i], now_ms) {
                out.push(TelemetryNodeHealth::from_snapshot(&self.snapshots[i], now_ms));
            }
            i = i + 1;
        }
        proof {
            assert(self.snapshots@.take(i as int) =~= self.snapshots@);
        }
        out
    }

    fn drop_stale(&mut self, now_ms: u64)
        ensures
            final(self).snapshots@ == fresh(
                old(self).snapshots@,
                old(self).stale_after_ms,
                now_ms,
            ),
            final(self).stale_nodes == old(self).stale_nodes,
            final(self).stale_after_ms == old(self).stale_after_ms,
    {
        let ghost all = self.snapshots@;
        let mut kept: Vec<MeshSnapshot> = Vec::new();
        let ghost mut done: int = 0;
        proof {
            assert(all.take(0) =~= Seq::<MeshSnapshot>::empty());
            assert(all.skip(0) =~= all);
        }
        while self.snapshots.len() > 0
            invariant
                0 <= done <= all.len(),
                self.snapshots@ == all.skip(done),
                kept@ == fresh(all.take(done), old(self).stale_after_ms, now_ms),
                self.stale_nodes == old(self).stale_nodes,
                self.stale_after_ms == old(self).stale_after_ms,
            decreases self.snapshots@.len(),
        {
            let snapshot = self.snapshots.remove(0);
            proof {
                assert(snapshot == all[done]);
                assert(all.take(done + 1).drop_last() =~= all.take(done));
                assert(all.take(done + 1).last() == all[done]);
                assert(self.snapshots@ =~= all.skip(done + 1));
                done = done + 1;
            }
            if !self.is_stale(&snapshot, now_ms) {
                kept.push(snapshot);
            }
        }
        proof {
            assert(all.take(done) =~= all);
        }
        self.snapshots = kept;
    }

    /// What the local node and all nodes that told something lately tell, in the order of their
    /// names, and the account of the telemetry. What the local node tells goes before what was
    /// told in its name. What is too old is forgotten, and its node remembered as stale.
    pub fn snapshots_with_local(&mut self, local: MeshSnapshot, now_ms: u64) -> (r: (
        Vec<MeshSnapshot>,
        TelemetryHealthSnapshot,
    ))
        requires
            old(self).valid(),
        ensures
            final(self).valid(),
            final(self).snapshots@ == fresh(
                old(self).snapshots@,
                old(self).stale_after_ms,
                now_ms,
            ),
            ({
                let found = aged(old(self).snapshots@, old(self).stale_after_ms, now_ms);
                final(self).stale_nodes@ == if found.len() == 0 {
                    old(self).stale_nodes@
                } else {
                    remembered(old(self).stale_nodes@, found)
                }
            }),
            final(self).stale_after_ms == old(self).stale_after_ms,
            ({
                let all = ranked(
                    without_node(final(self).snapshots@, local.node.node_id@).push(local),
                );
                &&& r.0@.len() == all.len()
                &&& forall|i: int| 0 <= i < all.len() ==> (#[trigger] r.0@[i]).same(all[i])
            }),
            r.1.stale_after_ms == old(self).stale_after_ms,
            r.1.fresh_remote_count == final(self).snapshots@.len(),
            r.1.stale_remote_count == final(self).stale_nodes@.len(),
            r.1.stale_nodes@ == final(self).stale_nodes@,
    {
        let ghost told = self.snapshots@;
        let ghost stale = self.stale_nodes@;
        proof {
            lemma_fresh(told, self.stale_after_ms, now_ms);
            lemma_aged(told, self.stale_after_ms, now_ms);
        }
        let found = self.find_stale(now_ms);
        let ghost found_nodes = found@;
        self.drop_stale(now_ms);
        if found.len() > 0 {
            proof {
                lemma_remembered(stale, found@);
            }
            self.remember_stale_nodes(found);
        }
        proof {
            let kept = self.snapshots@;
            let named = self.stale_nodes@;
            assert forall|i: int, j: int| 0 <= i < kept.len() && 0 <= j < named.len() implies (
            #[trigger] kept[i]).node.node_id@ != (#[trigger] named[j]).node_id@ by {
                let k = choose|k: int| 0 <= k < told.len() && told[k] == kept[i];
                if found_nodes.len() > 0 && found_nodes.contains(named[j]) {
                    let f = choose|f: int| 0 <= f < found_nodes.len() && found_nodes[f] == named[j];
                    assert(went_silent(found_nodes[f], told, self.stale_after_ms, now_ms));
                    let l = choose|l: int|
                        0 <= l < told.len() && outdated(
                            #[trigger] told[l],
                            self.stale_after_ms,
                            now_ms,
                        ) && found_nodes[f] == health_of(told[l], now_ms);
                    assert(k != l);
                    if k < l {
                        assert(told[k].node.node_id@ != told[l].node.node_id@);
                    } else {
                        assert(told[l].node.node_id@ != told[k].node.node_id@);
                    }
                } else {
                    assert(stale.contains(named[j]));
                    let l = choose|l: int| 0 <= l < stale.len() && stale[l] == named[j];
                    assert(told[k].node.node_id@ != stale[l].node_id@);
                }
            }
        }
        let telemetry = TelemetryHealthSnapshot {
            stale_after_ms: self.stale_after_ms,
            fresh_remote_count: self.snapshots.len(),
            stale_remote_count: self.stale_nodes.len(),
            stale_nodes: copy_list(&self.stale_nodes),
        };
        let mut all: Vec<MeshSnapshot> = Vec::new();
        let mut i: usize = 0;
        proof {
            assert(self.snapshots@.take(0) =~= Seq::<MeshSnapshot>::empty());
        }
        while i < self.snapshots.len()
            invariant
                i <= self.snapshots.len(),
                all@.len() == without_node(self.snapshots@.take(i as int), local.node.node_id@).len(),
                forall|k: int|
                    0 <= k < all@.len() ==> (#[trigger] all@[k]).same(
                        without_node(self.snapshots@.take(i as int), local.node.node_id@)[k],
                    ),
            decreases self.snapshots.len() - i,
        {
            proof {
                let s = self.snapshots@;
                assert(s.take(i + 1).drop_last() =~= s.take(i as int));
                assert(s.take(i + 1).last() == s[i as int]);
            }
            let snapshot = &self.snapshots[i];
            if !same_text(snapshot.node.node_id.as_str(), local.node.node_id.as_str()) {
                all.push(snapshot.copy());
            }
            i = i + 1;
        }
        proof {
            assert(self.snapshots@.take(i as int) =~= self.snapshots@);
        }
        let ghost others = without_node(self.snapshots@, local.node.node_id@);
        let ghost own = local;
        all.push(local);
        proof {
            assert(own.same(own));
            lemma_alike_ranked(all@, others.push(own));
        }
        (sort_by_rank(all), telemetry)
    }
}

/// What a node told stands once in the list that is made of it, and the list is in the order
/// of names.
pub proof fn every_node_once(told: Seq<MeshSnapshot>, local: MeshSnapshot)
    requires
        told_once(told),
    ensures
        ({
            let all = ranked(without_node(told, local.node.node_id@).push(local));
            &&& in_order(all)
            &&& all.to_multiset() == without_node(told, local.node.node_id@).push(
                local,
            ).to_multiset()
            &&& told_once(without_node(told, local.node.node_id@).push(local))
        }),
{
    lemma_without_node(told, local.node.node_id@);
    let all = without_node(told, local.node.node_id@);
    ranking_orders(all.push(local));
    assert forall|i: int, j: int| 0 <= i < j < all.push(local).len() implies (#[trigger] all.push(
        local,
    )[i]).node.node_id@ != (#[trigger] all.push(local)[j]).node.node_id@ by {
        assert(all.push(local)[i] == all[i]);
        if j < all.len() {
            assert(all.push(local)[j] == all[j]);
        }
    }
}

/// What a node told last is what is remembered of it, until it is too old; then the node is
/// among those that told nothing lately.
pub proof fn telemetry_is_heard_until_stale(
    told: Seq<MeshSnapshot>,
    snapshot: MeshSnapshot,
    stale_after_ms: u64,
    now_ms: u64,
)
    ensures
        ({
            let all = without_node(told, snapshot.node.node_id@).push(snapshot);
            if outdated(snapshot, stale_after_ms, now_ms) {
                let found = aged(all, stale_after_ms, now_ms);
                found.len() > 0 && found.last() == health_of(snapshot, now_ms)
            } else {
                let kept = fresh(all, stale_after_ms, now_ms);
                kept.len() > 0 && kept.last() == snapshot
            }
        }),
{
    let all = without_node(told, snapshot.node.node_id@).push(snapshot);
    assert(all.last() == snapshot);
}

/// The account of a connection.
#[verifier::ext_equal]
pub struct PeerStatusModel {
    pub peer: Seq<char>,
    pub state: Seq<char>,
    pub connect_attempts: u64,
    pub disconnects: u64,
    pub payloads: u64,
    pub bytes: u64,
    pub last_connected_unix_ms: Option<u64>,
    pub last_payload_unix_ms: Option<u64>,
    pub last_error: Option<Seq<char>>,
}

impl View for TelemetryPeerStatus {
    type V = PeerStatusModel;

    open spec fn view(&self) -> PeerStatusModel {
        PeerStatusModel {
            peer: self.peer@,
            state: self.state@,
            connect_attempts: self.connect_attempts,
            disconnects: self.disconnects,
            payloads: self.payloads,
            bytes: self.bytes,
            last_connected_unix_ms: self.last_connected_unix_ms,
            last_payload_unix_ms: self.last_payload_unix_ms,
            last_error: view_of(self.last_error),
        }
    }
}

/// A connection of which nothing happened.
pub open spec fn unused_peer(peer: Seq<char>, state: Seq<char>) -> PeerStatusModel {
    PeerStatusModel {
        peer,
        state,
        connect_attempts: 0,
        disconnects: 0,
        payloads: 0,
        bytes: 0,
        last_connected_unix_ms: None,
        last_payload_unix_ms: None,
        last_error: None,
    }
}

fn new_peer(peer: &str, state: &str) -> (r: TelemetryPeerStatus)
    ensures
        r@ == unused_peer(peer@, state@),
{
    TelemetryPeerStatus {
        peer: peer.to_owned(),
        state: state.to_owned(),
        connect_attempts: 0,
        disconnects: 0,
        payloads: 0,
        bytes: 0,
        last_connected_unix_ms: None,
        last_payload_unix_ms: None,
        last_error: None,
    }
}

/// What a list says of a peer.
pub open spec fn status_in(list: Seq<TelemetryPeerStatus>, peer: Seq<char>) -> Option<
    PeerStatusModel,
>
    decreases list.len(),
{
    if list.len() == 0 {
        None
    } else if list.last().peer@ == peer {
        Some(list.last()@)
    } else {
        status_in(list.drop_last(), peer)
    }
}

/// Whether no peer occurs twice.
pub open spec fn peers_once(list: Seq<TelemetryPeerStatus>) -> bool {
    forall|i: int, j: int|
        0 <= i < j < list.len() ==> (#[trigger] list[i]).peer@ != (#[trigger] list[j]).peer@
}

proof fn lemma_status_at(list: Seq<TelemetryPeerStatus>, i: int)
    requires
        peers_once(list),
        0 <= i < list.len(),
    ensures
        status_in(list, list[i].peer@) == Some(list[i]@),
    decreases list.len(),
{
    if i < list.len() - 1 {
        assert(list.last() == list[list.len() - 1]);
        assert(list.drop_last()[i] == list[i]);
        lemma_status_at(list.drop_last(), i);
    }
}

proof fn lemma_no_status(list: Seq<TelemetryPeerStatus>, peer: Seq<char>)
    requires
        forall|i: int| 0 <= i < list.len() ==> (#[trigger] list[i]).peer@ != peer,
    ensures
        status_in(list, peer) is None,
    decreases list.len(),
{
    if list.len() > 0 {
        assert(list.last() == list[list.len() - 1]);
        assert forall|i: int| 0 <= i < list.drop_last().len() implies (
        #[trigger] list.drop_last()[i]).peer@ != peer by {
            assert(list.drop_last()[i] == list[i]);
        }
        lemma_no_status(list.drop_last(), peer);
    }
}

proof fn lemma_status_updated(
    list: Seq<TelemetryPeerStatus>,
    i: int,
    status: TelemetryPeerStatus,
    peer: Seq<char>,
)
    requires
        0 <= i < list.len(),
        status.peer@ == list[i].peer@,
        peer != status.peer@,
    ensures
        status_in(list.update(i, status), peer) == status_in(list, peer),
    decreases list.len(),
{
    let r = list.update(i, status);
    if i == list.len() - 1 {
        assert(r.drop_last() =~= list.drop_last());
    } else {
        assert(r.drop_last() =~= list.drop_last().update(i, status));
        lemma_status_updated(list.drop_last(), i, status, peer);
    }
}

/// The state of a peer that was connected and is no more.
pub open spec fn disconnected_state(failed: bool) -> Seq<char> {
    if failed {
        "error"@
    } else {
        "disconnected"@
    }
}

impl PeerStatusModel {
    /// The account after an attempt to connect.
    pub open spec fn connecting(self) -> Self {
        PeerStatusModel {
            state: "connecting"@,
            connect_attempts: saturating_sum(self.connect_attempts, 1),
            ..self
        }
    }

    /// The account once the peer is connected.
    pub open spec fn connected(self, now_ms: u64) -> Self {
        PeerStatusModel {
            state: "connected"@,
            last_connected_unix_ms: Some(now_ms),
            last_error: None,
            ..self
        }
    }

    /// The account after a payload.
    pub open spec fn received(self, bytes: u64, now_ms: u64) -> Self {
        PeerStatusModel {
            payloads: saturating_sum(self.payloads, 1),
            bytes: saturating_sum(self.bytes, bytes),
            last_payload_unix_ms: Some(now_ms),
            ..self
        }
    }

    /// The account once the peer is connected no more.
    pub open spec fn parted(self, error: Option<Seq<char>>) -> Self {
        PeerStatusModel {
            state: disconnected_state(error is Some),
            disconnects: saturating_sum(self.disconnects, 1),
            last_error: error,
            ..self
        }
    }
}

/// The accounts of the connections that telemetry comes by.
#[derive(Debug)]
pub struct TelemetryPeerMonitor {
    pub peers: Vec<TelemetryPeerStatus>,
}

impl TelemetryPeerMonitor {
    /// No peer occurs twice.
    pub open spec fn valid(self) -> bool {
        peers_once(self.peers@)
    }

    /// The account of the connection to a peer.
    pub open spec fn of(self, peer: Seq<char>) -> Option<PeerStatusModel> {
        status_in(self.peers@, peer)
    }

    /// The account of the connection to a peer, or one of a connection of which nothing
    /// happened.
    pub open spec fn of_or(self, peer: Seq<char>, state: Seq<char>) -> PeerStatusModel {
        match self.of(peer) {
            Some(status) => status,
            None => unused_peer(peer, state),
        }
    }

    /// Whether all peers but one are as before.
    pub open spec fn same_but(self, before: Self, peer: Seq<char>) -> bool {
        forall|p: Seq<char>| p != peer ==> #[trigger] self.of(p) == before.of(p)
    }

    /// The accounts of configured peers.
    pub fn new(peers: &Vec<String>) -> (r: Self)
        ensures
            r.valid(),
            forall|p: Seq<char>| #[trigger]
                r.of(p) == if exists|i: int| 0 <= i < peers@.len() && (#[trigger] peers@[i])@ == p {
                    Some(unused_peer(p, "configured"@))
                } else {
                    None
                },
    {
        let mut monitor = TelemetryPeerMonitor { peers: Vec::new() };
        let mut i: usize = 0;
        while i < peers.len()
            invariant
                i <= peers.len(),
                monitor.valid(),
                forall|p: Seq<char>| #[trigger]
                    monitor.of(p) == if exists|k: int| 0 <= k < i && (#[trigger] peers@[k])@ == p {
                        Some(unused_peer(p, "configured"@))
                    } else {
                        None
                    },
            decreases peers.len() - i,
        {
            let ghost before = monitor;
            monitor.store(new_peer(peers[i].as_str(), "configured"));
            proof {
                assert forall|p: Seq<char>| #[trigger]
                    monitor.of(p) == if exists|k: int|
                        0 <= k < i + 1 && (#[trigger] peers@[k])@ == p {
                        Some(unused_peer(p, "configured"@))
                    } else {
                        None
                    } by {
                    if p == peers@[i as int]@ {
                        assert(peers@[i as int]@ == p);
                    } else {
                        assert(monitor.of(p) == before.of(p));
                        if exists|k: int| 0 <= k < i && (#[trigger] peers@[k])@ == p {
                            let k = choose|k: int| 0 <= k < i && (#[trigger] peers@[k])@ == p;
                            assert(0 <= k < i + 1 && peers@[k]@ == p);
                        }
                    }
                }
            }
            i = i + 1;
        }
        monitor
    }

    fn find(&self, peer: &str) -> (r: Option<usize>)
        requires
            self.valid(),
        ensures
            match r {
                Some(i) => i < self.peers@.len() && self.peers@[i as int].peer@ == peer@ && self.of(
                    peer@,
                ) == Some(self.peers@[i as int]@),
                None => self.of(peer@) is None && forall|i: int|
                    0 <= i < self.peers@.len() ==> (#[trigger] self.peers@[i]).peer@ != peer@,
            },
    {
        let mut i: usize = 0;
        while i < self.peers.len()
            invariant
                i <= self.peers.len(),
                self.valid(),
                forall|k: int| 0 <= k < i ==> (#[trigger] self.peers@[k]).peer@ != peer@,
            decreases self.peers.len() - i,
        {
            if same_text(self.peers[i].peer.as_str(), peer) {
                proof {
                    lemma_status_at(self.peers@, i as int);
                }
                return Some(i);
            }
            i = i + 1;
        }
        proof {
            lemma_no_status(self.peers@, peer@);
        }
        None
    }

    fn store(&mut self, status: TelemetryPeerStatus)
        requires
            old(self).valid(),
        ensures
            final(self).valid(),
            final(self).of(status.peer@) == Some(status@),
            final(self).same_but(*old(self), status.peer@),
    {
        let ghost before = self.peers@;
        let ghost peer = status.peer@;
        let ghost put = status;
        match self.find(status.peer.as_str()) {
            Some(i) => {
                self.peers.set(i, status);
                proof {
                    lemma_status_at(self.peers@, i as int);
                    assert forall|p: Seq<char>| p != peer implies #[trigger] self.of(p)
                        == old(self).of(p) by {
                        lemma_status_updated(before, i as int, put, p);
                    }
                }
            },
            None => {
                self.peers.push(status);
                proof {
                    assert(self.peers@.drop_last() =~= before);
                    assert(self.peers@.last() == put);
                }
            },
        }
    }

    fn status_or(&self, peer: &str, state: &str) -> (r: TelemetryPeerStatus)
        requires
            self.valid(),
        ensures
            r@ == self.of_or(peer@, state@),
            r.peer@ == peer@,
    {
        match self.find(peer) {
            Some(i) => self.peers[i].copied(),
            None => new_peer(peer, state),
        }
    }

    /// Counts an attempt to connect to a peer.
    pub fn record_connecting(&mut self, peer: &str)
        requires
            old(self).valid(),
        ensures
            final(self).valid(),
            final(self).same_but(*old(self), peer@),
            ({
                let before = old(self).of_or(peer@, "configured"@);
                final(self).of(peer@) == Some(
                    PeerStatusModel {
                        state: "connecting"@,
                        connect_attempts: saturating_sum(before.connect_attempts, 1),
                        ..before
                    },
                )
            }),
            final(self).of(peer@) == Some(old(self).of_or(peer@, "configured"@).connecting()),
    {
        let mut status = self.status_or(peer, "configured");
        status.state = "connecting".to_owned();
        status.connect_attempts = status.connect_attempts.saturating_add(1);
        self.store(status);
    }

    /// Records that a peer is connected.
    pub fn record_connected(&mut self, peer: &str, now_ms: u64)
        requires
            old(self).valid(),
        ensures
            final(self).valid(),
            final(self).same_but(*old(self), peer@),
            final(self).of(peer@) == Some(
                PeerStatusModel {
                    state: "connected"@,
                    last_connected_unix_ms: Some(now_ms),
                    last_error: None,
                    ..old(self).of_or(peer@, ""@)
                },
            ),
            final(self).of(peer@) == Some(old(self).of_or(peer@, ""@).connected(now_ms)),
    {
        let mut status = self.status_or(peer, "");
        status.state = "connected".to_owned();
        status.last_connected_unix_ms = Some(now_ms);
        status.last_error = None;
        self.store(status);
    }

    /// Counts a payload from a peer.
    pub fn record_payload(&mut self, peer: &str, bytes: usize, now_ms: u64)
        requires
            old(self).valid(),
        ensures
            final(self).valid(),
            final(self).same_but(*old(self), peer@),
            ({
                let before = old(self).of_or(peer@, ""@);
                final(self).of(peer@) == Some(
                    PeerStatusModel {
                        payloads: saturating_sum(before.payloads, 1),
                        bytes: saturating_sum(before.bytes, bytes as u64),
                        last_payload_unix_ms: Some(now_ms),
                        ..before
                    },
                )
            }),
            final(self).of(peer@) == Some(
                old(self).of_or(peer@, ""@).received(bytes as u64, now_ms),
            ),
    {
        let mut status = self.status_or(peer, "");
        status.payloads = status.payloads.saturating_add(1);
        status.bytes = status.bytes.saturating_add(bytes as u64);
        status.last_payload_unix_ms = Some(now_ms);
        self.store(status);
    }

    /// Records that a peer is connected no more, and the error that ended the connection.
    pub fn record_disconnected(&mut self, peer: &str, error: Option<String>)
        requires
            old(self).valid(),
        ensures
            final(self).valid(),
            final(self).same_but(*old(self), peer@),
            ({
                let before = old(self).of_or(peer@, ""@);
                final(self).of(peer@) == Some(
                    PeerStatusModel {
                        state: disconnected_state(error is Some),
                        disconnects: saturating_sum(before.disconnects, 1),
                        last_error: view_of(error),
                        ..before
                    },
                )
            }),
            final(self).of(peer@) == Some(old(self).of_or(peer@, ""@).parted(view_of(error))),
    {
        let mut status = self.status_or(peer, "");
        status.state = if error.is_some() {
            "error".to_owned()
        } else {
            "disconnected".to_owned()
        };
        status.disconnects = status.disconnects.saturating_add(1);
        status.last_error = error;
        self.store(status);
    }

    /// The accounts of all peers, in the order of their names.
    pub fn snapshot(&self) -> (r: Vec<TelemetryPeerStatus>)
        ensures
            r@ == ranked(self.peers@),
    {
        sort_by_rank(copy_list(&self.peers))
    }
}

/// Whether a snapshot was told longer ago than snapshots are kept.
pub open spec fn too_old(snapshot: MeshSnapshot, stale_after_ms: u64, now_ms: u64) -> bool {
    stale_after_ms > 0 && now_ms > snapshot.updated_unix_ms + stale_after_ms
}

/// Snapshots are kept while they are not too old, in their order; of each of the others a note is
/// kept of the node, its region, and how old its snapshot is.
pub proof fn old_snapshots_become_notes(
    list: Seq<MeshSnapshot>,
    stale_after_ms: u64,
    now_ms: u64,
)
    ensures
        fresh(list, stale_after_ms, now_ms) == list.filter(
            |s: MeshSnapshot| !too_old(s, stale_after_ms, now_ms),
        ),
        ({
            let old_ones = list.filter(|s: MeshSnapshot| too_old(s, stale_after_ms, now_ms));
            let notes = aged(list, stale_after_ms, now_ms);
            &&& notes.len() == old_ones.len()
            &&& forall|i: int|
                0 <= i < notes.len() ==> (#[trigger] notes[i]).node_id == old_ones[i].node.node_id
                    && notes[i].region == old_ones[i].node.region && notes[i].updated_unix_ms
                    == old_ones[i].updated_unix_ms && notes[i].updated_unix_ms + notes[i].age_ms
                    == now_ms
        }),
    decreases list.len(),
{
    reveal(Seq::filter);
    if list.len() > 0 {
        old_snapshots_become_notes(list.drop_last(), stale_after_ms, now_ms);
    }
}

/// A node that is forgotten leaves the snapshots and the notes, and nothing else does.
pub proof fn forgotten_nodes_leave(
    list: Seq<MeshSnapshot>,
    notes: Seq<TelemetryNodeHealth>,
    id: Seq<char>,
)
    ensures
        without_node(list, id) == list.filter(|s: MeshSnapshot| s.node.node_id@ != id),
        without_health(notes, id) == notes.filter(|n: TelemetryNodeHealth| n.node_id@ != id),
    decreases list.len() + notes.len(),
{
    reveal(Seq::filter);
    if list.len() > 0 {
        forgotten_nodes_leave(list.drop_last(), notes, id);
    }
    if notes.len() > 0 {
        forgotten_nodes_leave(list, notes.drop_last(), id);
    }
}

/// A note of a node replaces the first earlier one of that node, and is added where there was
/// none; the others stay as they were.
pub proof fn notes_replace_those_of_their_node(
    list: Seq<TelemetryNodeHealth>,
    node: TelemetryNodeHealth,
)
    ensures
        ({
            let after = with_health(list, node);
            &&& after.contains(node)
            &&& (forall|i: int| 0 <= i < list.len() ==> (#[trigger] list[i]).node_id@
                != node.node_id@) ==> after == list.push(node)
            &&& (exists|i: int| 0 <= i < list.len() && (#[trigger] list[i]).node_id@
                == node.node_id@) ==> after.len() == list.len() && exists|i: int|
                0 <= i < list.len() && (#[trigger] list[i]).node_id@ == node.node_id@ && after
                    == list.update(i, node) && forall|j: int|
                    0 <= j < i ==> (#[trigger] list[j]).node_id@ != node.node_id@
        }),
{
    lemma_place_raw(list, node.node_id@);
    let i = health_place(list, node.node_id@);
    let after = with_health(list, node);
    if i < list.len() {
        assert(after[i] == node);
        assert(list[i].node_id@ == node.node_id@);
    } else {
        assert(after[list.len() as int] == node);
    }
}

proof fn lemma_place_raw(list: Seq<TelemetryNodeHealth>, id: Seq<char>)
    ensures
        0 <= health_place(list, id) <= list.len(),
        health_place(list, id) < list.len() ==> list[health_place(list, id)].node_id@ == id,
        forall|j: int| 0 <= j < health_place(list, id) ==> (#[trigger] list[j]).node_id@ != id,
    decreases list.len(),
{
    if list.len() > 0 {
        let front = list.drop_last();
        lemma_place_raw(front, id);
        assert(list.last() == list[list.len() - 1]);
        assert forall|j: int| 0 <= j < front.len() implies front[j] == #[trigger] list[j] by {}
    }
}

/// No more than 32 notes are kept, and no note that is left out was to stand before one that is
/// kept.
pub proof fn few_notes_are_kept(
    list: Seq<TelemetryNodeHealth>,
    nodes: Seq<TelemetryNodeHealth>,
)
    ensures
        ({
            let all = ranked(with_all_health(list, nodes));
            let kept = remembered(list, nodes);
            &&& kept.len() <= 32
            &&& all.len() <= 32 ==> kept == all
            &&& all.len() > 32 ==> kept.len() == 32
            &&& forall|i: int| 0 <= i < kept.len() ==> #[trigger] kept[i] == all[i]
        }),
{
}

/// Snapshots and peers stand in the order of their names; notes stand with the oldest first, and
/// those of one age in the order of their names. None is lost and none is added.
pub proof fn telemetry_stands_in_order(
    snapshots: Seq<MeshSnapshot>,
    notes: Seq<TelemetryNodeHealth>,
    peers: Seq<TelemetryPeerStatus>,
)
    ensures
        ranked(snapshots).to_multiset() == snapshots.to_multiset(),
        ranked(notes).to_multiset() == notes.to_multiset(),
        ranked(peers).to_multiset() == peers.to_multiset(),
        forall|i: int, j: int|
            0 <= i < j < snapshots.len() ==> text_le(
                (#[trigger] ranked(snapshots)[i]).node.node_id@,
                (#[trigger] ranked(snapshots)[j]).node.node_id@,
            ),
        forall|i: int, j: int|
            0 <= i < j < peers.len() ==> text_le(
                (#[trigger] ranked(peers)[i]).peer@,
                (#[trigger] ranked(peers)[j]).peer@,
            ),
        forall|i: int, j: int|
            0 <= i < j < notes.len() ==> (#[trigger] ranked(notes)[i]).age_ms
                >= (#[trigger] ranked(notes)[j]).age_ms && (ranked(notes)[i].age_ms
                == ranked(notes)[j].age_ms ==> text_le(
                ranked(notes)[i].node_id@,
                ranked(notes)[j].node_id@,
            )),
{
    ranking_orders(snapshots);
    ranking_orders(notes);
    ranking_orders(peers);
    assert forall|i: int, j: int| 0 <= i < j < snapshots.len() implies text_le(
        (#[trigger] ranked(snapshots)[i]).node.node_id@,
        (#[trigger] ranked(snapshots)[j]).node.node_id@,
    ) by {
        assert(ranked(snapshots)[i].le(ranked(snapshots)[j]));
    }
    assert forall|i: int, j: int| 0 <= i < j < peers.len() implies text_le(
        (#[trigger] ranked(peers)[i]).peer@,
        (#[trigger] ranked(peers)[j]).peer@,
    ) by {
        assert(ranked(peers)[i].le(ranked(peers)[j]));
    }
    assert forall|i: int, j: int| 0 <= i < j < notes.len() implies (
    #[trigger] ranked(notes)[i]).age_ms >= (#[trigger] ranked(notes)[j]).age_ms && (
    ranked(notes)[i].age_ms == ranked(notes)[j].age_ms ==> text_le(
        ranked(notes)[i].node_id@,
        ranked(notes)[j].node_id@,
    )) by {
        assert(ranked(notes)[i].le(ranked(notes)[j]));
    }
}

/// The account of a connection counts what happens to it: attempts, payloads with their bytes, and
/// ends. A connection that stands forgets the error of the one before it; one that ended by an error
/// keeps it, and is told apart from one that just ended.
pub proof fn connections_are_counted(
    status: PeerStatusModel,
    bytes: u64,
    now_ms: u64,
    error: Seq<char>,
)
    requires
        status.connect_attempts < u64::MAX,
        status.payloads < u64::MAX,
        status.disconnects < u64::MAX,
        status.bytes + bytes <= u64::MAX,
    ensures
        ({
            let trying = status.connecting();
            &&& trying.state == "connecting"@
            &&& trying.connect_attempts == status.connect_attempts + 1
            &&& trying.last_error == status.last_error && trying.payloads == status.payloads
                && trying.peer == status.peer
        }),
        ({
            let up = status.connected(now_ms);
            &&& up.state == "connected"@ && up.last_connected_unix_ms == Some(now_ms)
            &&& up.last_error is None && up.connect_attempts == status.connect_attempts
                && up.peer == status.peer && up.bytes == status.bytes
        }),
        ({
            let fed = status.received(bytes, now_ms);
            &&& fed.payloads == status.payloads + 1 && fed.bytes == status.bytes + bytes
            &&& fed.last_payload_unix_ms == Some(now_ms) && fed.state == status.state
                && fed.last_connected_unix_ms == status.last_connected_unix_ms && fed.peer
                == status.peer
        }),
        ({
            let gone = status.parted(None);
            let lost = status.parted(Some(error));
            &&& gone.state == "disconnected"@ && lost.state == "error"@
            &&& gone.disconnects == status.disconnects + 1 && lost.disconnects
                == status.disconnects + 1
            &&& gone.last_error is None && lost.last_error == Some(error)
            &&& gone.payloads == status.payloads && lost.payloads == status.payloads
        }),
        unused_peer(error, error).payloads == 0 && unused_peer(error, error).connect_attempts == 0
            && unused_peer(error, error).disconnects == 0,
{
}

} // verus!
