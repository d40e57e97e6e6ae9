//! When and where replicas of streams are asked for.

use std::collections::HashMap;
use vstd::prelude::*;
use vstd::string::*;
use crate::api::ReplicaPlacement;
use crate::live_state::saturating_diff;
use crate::mesh::{
    snapshot_stream_for_id, snapshot_stream_ids, stream_told, streams_told, MeshNode, MeshSnapshot,
};
use crate::text::{decimal, decimal_text, same_text};
use crate::window::sorted_unique;

verus! {

/// How long a node waits before it asks for replicas of the same stream again.
pub const REPLICA_REQUEST_MIN_INTERVAL_MS: u64 = 1_000;

/// The most targets that the status of a request names.
pub const NAMED_TARGETS: usize = 5;

/// When replicas of each stream were asked for last.
#[derive(Debug)]
pub struct DemandTracker {
    last_replica_request_unix_ms: HashMap<u64, u64>,
}

impl DemandTracker {
    /// When replicas of each stream were asked for last.
    pub closed spec fn times(self) -> Map<u64, u64> {
        self.last_replica_request_unix_ms@
    }

    /// Whether replicas of a stream may be asked for.
    pub open spec fn due(self, stream_id: u64, now_ms: u64) -> bool {
        self.times().contains_key(stream_id) ==> saturating_diff(now_ms, self.times()[stream_id])
            >= REPLICA_REQUEST_MIN_INTERVAL_MS
    }

    /// Nothing was asked for.
    pub fn new() -> (r: Self)
        ensures
            r.times() == Map::<u64, u64>::empty(),
    {
        DemandTracker { last_replica_request_unix_ms: HashMap::new() }
    }

    /// Whether replicas of a stream may be asked for now; if so, they are.
    pub fn should_request_replica(&mut self, stream_id: u64, now_ms: u64) -> (r: bool)
        ensures
            r == old(self).due(stream_id, now_ms),
            final(self).times() == if r {
                old(self).times().insert(stream_id, now_ms)
            } else {
                old(self).times()
            },
    {
        let should_request: bool = match self.last_replica_request_unix_ms.get(&stream_id) {
            Some(last) => now_ms.saturating_sub(*last) >= REPLICA_REQUEST_MIN_INTERVAL_MS,
            None => true,
        };
        if should_request {
            self.last_replica_request_unix_ms.insert(stream_id, now_ms);
        }
        should_request
    }
}

/// A request that was granted keeps the next one out until the interval is over, and does not
/// touch other streams.
pub proof fn requests_keep_their_distance(
    before: DemandTracker,
    after: DemandTracker,
    stream_id: u64,
    now_ms: u64,
    other: u64,
    later_ms: u64,
)
    requires
        after.times() == before.times().insert(stream_id, now_ms),
    ensures
        after.due(stream_id, later_ms) <==> later_ms - now_ms >= REPLICA_REQUEST_MIN_INTERVAL_MS,
        other != stream_id ==> after.due(other, later_ms) == before.due(other, later_ms),
{
}

/// Whether a node tells of an active stream with a number.
pub open spec fn holds_stream(snapshot: MeshSnapshot, stream_id: u64) -> bool {
    match stream_told(snapshot, stream_id) {
        Some(stream) => stream.is_active(),
        None => false,
    }
}

/// Whether a node tells of local parts of a stream with a number.
pub open spec fn contributes(snapshot: MeshSnapshot, stream_id: u64) -> bool {
    match stream_told(snapshot, stream_id) {
        Some(stream) => stream.latest_local_part is Some,
        None => false,
    }
}

/// Whether a node holds a replica of a stream: it tells of it, or it is this node and there
/// are bytes of it here.
pub open spec fn is_replica(
    snapshots: Seq<MeshSnapshot>,
    stream_id: u64,
    own_id: Seq<char>,
    local_bytes: u64,
    id: Seq<char>,
) -> bool {
    (local_bytes > 0 && id == own_id) || exists|i: int|
        0 <= i < snapshots.len() && holds_stream(#[trigger] snapshots[i], stream_id)
            && snapshots[i].node.node_id@ == id
}

/// The size of the largest part of a stream that nodes tell of.
pub open spec fn largest_part(snapshots: Seq<MeshSnapshot>, stream_id: u64) -> u64
    decreases snapshots.len(),
{
    if snapshots.len() == 0 {
        0
    } else {
        let front = largest_part(snapshots.drop_last(), stream_id);
        match stream_told(snapshots.last(), stream_id) {
            Some(stream) => match stream.latest_local_part_bytes {
                Some(bytes) => if bytes as u64 > front {
                    bytes as u64
                } else {
                    front
                },
                None => front,
            },
            None => front,
        }
    }
}

/// The size of a stream: what is here, or a window of the largest part that nodes tell of,
/// and never nothing.
pub open spec fn stream_size(local_bytes: u64, largest: u64, window_parts: usize) -> u64 {
    let told = if largest * window_parts > u64::MAX {
        u64::MAX
    } else {
        (largest * window_parts) as u64
    };
    let size = if local_bytes > told {
        local_bytes
    } else {
        told
    };
    if size > 1 {
        size
    } else {
        1
    }
}

/// The first node that tells of local parts of a stream.
pub open spec fn first_contributor(snapshots: Seq<MeshSnapshot>, stream_id: u64) -> Option<String>
    decreases snapshots.len(),
{
    if snapshots.len() == 0 {
        None
    } else if contributes(snapshots[0], stream_id) {
        Some(snapshots[0].node.node_id)
    } else {
        first_contributor(snapshots.skip(1), stream_id)
    }
}

/// What a planner is asked to place replicas of.
#[derive(Debug)]
pub struct PlanRequest {
    pub stream_id: u64,
    pub bytes: u64,
    pub contributor_node_id: Option<String>,
    pub active: bool,
    /// The nodes that hold a replica, each once.
    pub existing_replicas: Vec<String>,
    pub nodes: Vec<MeshNode>,
}

/// Whether a text is in a list.
pub open spec fn listed(list: Seq<String>, id: Seq<char>) -> bool {
    exists|i: int| 0 <= i < list.len() && (#[trigger] list[i])@ == id
}

/// Whether no text is in a list twice.
pub open spec fn listed_once(list: Seq<String>) -> bool {
    forall|i: int, j: int| 0 <= i < j < list.len() ==> (#[trigger] list[i])@ != (
    #[trigger] list[j])@
}

fn add_once(list: &mut Vec<String>, id: &String)
    requires
        listed_once(old(list)@),
    ensures
        listed_once(final(list)@),
        forall|x: Seq<char>| #[trigger]
            listed(final(list)@, x) == (listed(old(list)@, x) || x == id@),
{
    let ghost before = list@;
    let mut i: usize = 0;
    while i < list.len()
        invariant
            before == old(list)@,
            listed_once(before),
            list@ == before,
            i <= list.len(),
            forall|k: int| 0 <= k < i ==> (#[trigger] list@[k])@ != id@,
        decreases list.len() - i,
    {
        if same_text(list[i].as_str(), id.as_str()) {
            assert(listed(list@, id@));
            return ;
        }
        i = i + 1;
    }
    list.push(id.clone());
    proof {
        assert forall|x: Seq<char>| #[trigger]
            listed(list@, x) == (listed(before, x) || x == id@) by {
            if listed(before, x) {
                let k = choose|k: int| 0 <= k < before.len() && (#[trigger] before[k])@ == x;
                assert(list@[k]@ == x);
            }
            if x == id@ {
                assert(list@[before.len() as int]@ == x);
            }
            if listed(list@, x) {
                let k = choose|k: int| 0 <= k < list@.len() && (#[trigger] list@[k])@ == x;
                if k < before.len() {
                    assert(before[k]@ == x);
                }
            }
        }
    }
}

fn find_replicas(
    snapshots: &Vec<MeshSnapshot>,
    stream_id: u64,
    own_id: &String,
    local_bytes: u64,
) -> (r: Vec<String>)
    ensures
        listed_once(r@),
        forall|id: Seq<char>| #[trigger]
            listed(r@, id) == is_replica(snapshots@, stream_id, own_id@, local_bytes, id),
{
    let mut out: Vec<String> = Vec::new();
    let mut i: usize = 0;
    while i < snapshots.len()
        invariant
            i <= snapshots.len(),
            listed_once(out@),
            forall|id: Seq<char>| #[trigger]
                listed(out@, id) == is_replica(
                    snapshots@.take(i as int),
                    stream_id,
                    own_id@,
                    0,
                    id,
                ),
        decreases snapshots.len() - i,
    {
        let ghost before = out@;
        let snapshot = &snapshots[i];
        let active: bool = match snapshot_stream_for_id(snapshot, stream_id) {
            Some(stream) => stream.active(),
            None => false,
        };
        if active {
            add_once(&mut out, &snapshot.node.node_id);
        }
        proof {
            let now = snapshots@.take(i + 1);
            let then = snapshots@.take(i as int);
            assert forall|id: Seq<char>| #[trigger]
                listed(out@, id) == is_replica(now, stream_id, own_id@, 0, id) by {
                assert(listed(before, id) == is_replica(then, stream_id, own_id@, 0, id));
                if is_replica(then, stream_id, own_id@, 0, id) {
                    let k = choose|k: int|
                        0 <= k < then.len() && holds_stream(#[trigger] then[k], stream_id)
                            && then[k].node.node_id@ == id;
                    assert(now[k] == then[k]);
                }
                if is_replica(now, stream_id, own_id@, 0, id) {
                    let k = choose|k: int|
                        0 <= k < now.len() && holds_stream(#[trigger] now[k], stream_id)
                            && now[k].node.node_id@ == id;
                    if k < i {
                        assert(then[k] == now[k]);
                    }
                }
                if active && id == snapshot.node.node_id@ {
                    assert(holds_stream(now[i as int], stream_id));
                }
            }
        }
        i = i + 1;
    }
    proof {
        assert(snapshots@.take(i as int) =~= snapshots@);
    }
    if local_bytes > 0 {
        add_once(&mut out, own_id);
    }
    out
}

fn find_largest_part(snapshots: &Vec<MeshSnapshot>, stream_id: u64) -> (r: u64)
    ensures
        r == largest_part(snapshots@, stream_id),
{
    let mut largest: u64 = 0;
    let mut i: usize = 0;
    proof {
        assert(snapshots@.take(0) =~= Seq::<MeshSnapshot>::empty());
    }
    while i < snapshots.len()
        invariant
            i <= snapshots.len(),
            largest == largest_part(snapshots@.take(i as int), stream_id),
        decreases snapshots.len() - i,
    {
        proof {
            assert(snapshots@.take(i + 1).drop_last() =~= snapshots@.take(i as int));
            assert(snapshots@.take(i + 1).last() == snapshots@[i as int]);
        }
        if let Some(stream) = snapshot_stream_for_id(&snapshots[i], stream_id) {
            if let Some(bytes) = stream.latest_local_part_bytes {
                if bytes as u64 > largest {
                    largest = bytes as u64;
                }
            }
        }
        i = i + 1;
    }
    proof {
        assert(snapshots@.take(i as int) =~= snapshots@);
    }
    largest
}

fn find_contributor(snapshots: &Vec<MeshSnapshot>, stream_id: u64) -> (r: Option<String>)
    ensures
        r == first_contributor(snapshots@, stream_id),
{
    let mut i: usize = 0;
    proof {
        assert(snapshots@.skip(0) =~= snapshots@);
    }
    while i < snapshots.len()
        invariant
            i <= snapshots.len(),
            first_contributor(snapshots@, stream_id) == first_contributor(
                snapshots@.skip(i as int),
                stream_id,
            ),
        decreases snapshots.len() - i,
    {
        proof {
            assert(snapshots@.skip(i as int)[0] == snapshots@[i as int]);
            assert(snapshots@.skip(i as int).skip(1) =~= snapshots@.skip(i + 1));
        }
        if let Some(stream) = snapshot_stream_for_id(&snapshots[i], stream_id) {
            if stream.latest_local_part.is_some() {
                return Some(snapshots[i].node.node_id.clone());
            }
        }
        i = i + 1;
    }
    None
}

fn copy_nodes(snapshots: &Vec<MeshSnapshot>) -> (r: Vec<MeshNode>)
    ensures
        r@ == snapshots@.map_values(|s: MeshSnapshot| s.node),
{
    let mut out: Vec<MeshNode> = Vec::new();
    let mut i: usize = 0;
    while i < snapshots.len()
        invariant
            i <= snapshots.len(),
            out@ == snapshots@.map_values(|s: MeshSnapshot| s.node).take(i as int),
        decreases snapshots.len() - i,
    {
        out.push(snapshots[i].node.copy());
        proof {
            assert(out@ =~= snapshots@.map_values(|s: MeshSnapshot| s.node).take(i + 1));
        }
        i = i + 1;
    }
    proof {
        assert(out@ =~= snapshots@.map_values(|s: MeshSnapshot| s.node));
    }
    out
}

/// What a planner is asked to place replicas of, for a stream of which nodes tell; nothing
/// where no node holds the stream and nobody demands it.
pub fn plan_replicas_from_snapshots(
    stream_id: u64,
    local_bytes: u64,
    snapshots: &Vec<MeshSnapshot>,
    own_id: &String,
    window_parts: usize,
    demanded: bool,
) -> (r: Option<PlanRequest>)
    ensures
        r is None <==> !demanded && forall|id: Seq<char>|
            !is_replica(snapshots@, stream_id, own_id@, local_bytes, id),
        match r {
            Some(plan) => {
                &&& plan.stream_id == stream_id
                &&& plan.bytes == stream_size(
                    local_bytes,
                    largest_part(snapshots@, stream_id),
                    window_parts,
                )
                &&& plan.contributor_node_id == first_contributor(snapshots@, stream_id)
                &&& plan.active == (plan.existing_replicas@.len() > 0)
                &&& listed_once(plan.existing_replicas@)
                &&& forall|id: Seq<char>| #[trigger]
                    listed(plan.existing_replicas@, id) == is_replica(
                        snapshots@,
                        stream_id,
                        own_id@,
                        local_bytes,
                        id,
                    )
                &&& plan.nodes@ == snapshots@.map_values(|s: MeshSnapshot| s.node)
            },
            None => true,
        },
{
    let existing_replicas = find_replicas(snapshots, stream_id, own_id, local_bytes);
    let active: bool = existing_replicas.len() > 0;
    if !active && !demanded {
        proof {
            assert forall|id: Seq<char>| !is_replica(
                snapshots@,
                stream_id,
                own_id@,
                local_bytes,
                id,
            ) by {
                assert(!listed(existing_replicas@, id));
            }
        }
        return None;
    }
    proof {
        if active {
            let id = existing_replicas@[0]@;
            assert(listed(existing_replicas@, id));
            assert(is_replica(snapshots@, stream_id, own_id@, local_bytes, id));
        }
    }
    let largest = find_largest_part(snapshots, stream_id);
    let told: u64 = match largest.checked_mul(window_parts as u64) {
        Some(told) => told,
        None => u64::MAX,
    };
    let mut bytes: u64 = local_bytes;
    if told > bytes {
        bytes = told;
    }
    if bytes < 1 {
        bytes = 1;
    }
    Some(
        PlanRequest {
            stream_id,
            bytes,
            contributor_node_id: find_contributor(snapshots, stream_id),
            active,
            existing_replicas,
            nodes: copy_nodes(snapshots),
        },
    )
}

/// The numbers of the streams that nodes tell of.
pub open spec fn told_ids(snapshots: Seq<MeshSnapshot>) -> Seq<u64>
    decreases snapshots.len(),
{
    if snapshots.len() == 0 {
        Seq::empty()
    } else {
        told_ids(snapshots.drop_last()) + streams_told(snapshots.last())
    }
}

/// The numbers of the streams that are active here or that nodes tell of, each once and in
/// order.
pub fn known_active_stream_ids(own: &Vec<u64>, snapshots: &Vec<MeshSnapshot>) -> (r: Vec<u64>)
    ensures
        forall|i: int, j: int| 0 <= i < j < r@.len() ==> r@[i] < r@[j],
        forall|id: u64| #[trigger]
            r@.contains(id) <==> own@.contains(id) || told_ids(snapshots@).contains(id),
{
    let mut ids: Vec<u64> = Vec::new();
    let mut i: usize = 0;
    while i < own.len()
        invariant
            i <= own.len(),
            ids@ == own@.take(i as int),
        decreases own.len() - i,
    {
        ids.push(own[i]);
        proof {
            assert(ids@ =~= own@.take(i + 1));
        }
        i = i + 1;
    }
    proof {
        assert(ids@ =~= own@);
        assert(snapshots@.take(0) =~= Seq::<MeshSnapshot>::empty());
        assert(own@ + Seq::<u64>::empty() =~= own@);
    }
    let mut k: usize = 0;
    while k < snapshots.len()
        invariant
            k <= snapshots.len(),
            ids@ == own@ + told_ids(snapshots@.take(k as int)),
        decreases snapshots.len() - k,
    {
        proof {
            assert(snapshots@.take(k + 1).drop_last() =~= snapshots@.take(k as int));
            assert(snapshots@.take(k + 1).last() == snapshots@[k as int]);
        }
        let ghost before = ids@;
        let mut more = snapshot_stream_ids(&snapshots[k]);
        let ghost told = more@;
        ids.append(&mut more);
        proof {
            assert(ids@ =~= before + told);
            assert(ids@ =~= own@ + told_ids(snapshots@.take(k + 1)));
        }
        k = k + 1;
    }
    proof {
        assert(snapshots@.take(k as int) =~= snapshots@);
        let all = own@ + told_ids(snapshots@);
        assert forall|id: u64| #[trigger] all.contains(id) <==> own@.contains(id) || told_ids(
            snapshots@,
        ).contains(id) by {
            if all.contains(id) {
                let j = choose|j: int| 0 <= j < all.len() && all[j] == id;
                if j < own@.len() {
                    assert(own@[j] == id);
                } else {
                    assert(told_ids(snapshots@)[j - own@.len()] == id);
                }
            }
            if own@.contains(id) {
                let j = choose|j: int| 0 <= j < own@.len() && own@[j] == id;
                assert(all[j] == id);
            }
            if told_ids(snapshots@).contains(id) {
                let j = choose|j: int|
                    0 <= j < told_ids(snapshots@).len() && told_ids(snapshots@)[j] == id;
                assert(all[own@.len() + j] == id);
            }
        }
    }
    sorted_unique(&ids)
}

/// The first node of a region among nodes.
pub open spec fn first_in_region(snapshots: Seq<MeshSnapshot>, region: Seq<char>) -> Option<
    MeshNode,
>
    decreases snapshots.len(),
{
    if snapshots.len() == 0 {
        None
    } else if snapshots[0].node.region@ == region {
        Some(snapshots[0].node)
    } else {
        first_in_region(snapshots.skip(1), region)
    }
}

/// A demand for a stream, as a planner takes it; how often the stream is read is added to it.
#[derive(Debug)]
pub struct DemandSignal {
    pub stream_id: u64,
    pub requester_node_id: String,
    pub region: String,
    pub continent: String,
    pub active_readers: u32,
    pub observed_unix_ms: u64,
}

/// The demand for a stream from a region: from this node's own where none is named. The
/// continent is that of the first node of the region, or this node's own.
pub fn demand_signal(
    stream_id: u64,
    node: &MeshNode,
    demand_region: Option<&str>,
    snapshots: &Vec<MeshSnapshot>,
    demand_active_readers: u32,
    now_ms: u64,
) -> (r: DemandSignal)
    ensures
        r.stream_id == stream_id,
        r.requester_node_id@ == node.node_id@,
        r.region@ == match demand_region {
            Some(region) => region@,
            None => node.region@,
        },
        r.continent@ == match first_in_region(snapshots@, r.region@) {
            Some(found) => found.continent@,
            None => node.continent@,
        },
        r.active_readers == if demand_active_readers > 1 {
            demand_active_readers
        } else {
            1
        },
        r.observed_unix_ms == now_ms,
{
    let region = match demand_region {
        Some(region) => region.to_owned(),
        None => node.region.clone(),
    };
    let mut continent = node.continent.clone();
    let mut found: bool = false;
    let mut i: usize = 0;
    proof {
        assert(snapshots@.skip(0) =~= snapshots@);
    }
    while i < snapshots.len() && !found
        invariant
            i <= snapshots.len(),
            !found ==> continent@ == node.continent@ && first_in_region(snapshots@, region@)
                == first_in_region(snapshots@.skip(i as int), region@),
            found ==> first_in_region(snapshots@, region@) is Some && continent@
                == first_in_region(snapshots@, region@)->0.continent@,
        decreases snapshots.len() - i,
    {
        proof {
            assert(snapshots@.skip(i as int)[0] == snapshots@[i as int]);
            assert(snapshots@.skip(i as int).skip(1) =~= snapshots@.skip(i + 1));
        }
        if same_text(snapshots[i].node.region.as_str(), region.as_str()) {
            continent = snapshots[i].node.continent.clone();
            found = true;
        }
        i = i + 1;
    }
    let active_readers: u32 = if demand_active_readers > 1 {
        demand_active_readers
    } else {
        1
    };
    DemandSignal {
        stream_id,
        requester_node_id: node.node_id.clone(),
        region,
        continent,
        active_readers,
        observed_unix_ms: now_ms,
    }
}

/// The names of the first `k` targets of some placements, with commas between them.
pub open spec fn target_names(planned: Seq<ReplicaPlacement>, k: int) -> Seq<char>
    decreases k,
{
    if k <= 0 {
        ""@
    } else if k == 1 {
        planned[0].target_node_id@
    } else {
        target_names(planned, k - 1) + ","@ + planned[k - 1].target_node_id@
    }
}

/// The names of the targets of some placements, of too many only the first.
pub open spec fn named_targets(planned: Seq<ReplicaPlacement>) -> Seq<char> {
    if planned.len() > NAMED_TARGETS {
        target_names(planned, NAMED_TARGETS as int) + ",..."@
    } else {
        target_names(planned, planned.len() as int)
    }
}

/// The status of a request for replicas.
pub open spec fn replica_status(
    reason: Seq<char>,
    peer_count: usize,
    planned: Seq<ReplicaPlacement>,
) -> Seq<char> {
    if planned.len() == 0 {
        reason + ": requested from "@ + decimal(peer_count as nat)
            + " peers; no eligible planned targets"@
    } else {
        reason + ": requested from "@ + decimal(peer_count as nat) + " peers; planned "@ + decimal(
            planned.len(),
        ) + " targets: "@ + named_targets(planned)
    }
}

/// The status of a request for replicas.
pub fn format_replica_request_status(
    reason: &str,
    peer_count: usize,
    planned: &Vec<ReplicaPlacement>,
) -> (r: String)
    ensures
        r@ == replica_status(reason@, peer_count, planned@),
{
    let mut out = reason.to_owned();
    out.append(": requested from ");
    out.append(decimal_text(peer_count as u64).as_str());
    if planned.len() == 0 {
        out.append(" peers; no eligible planned targets");
        return out;
    }
    let mut targets = planned[0].target_node_id.clone();
    let mut i: usize = 1;
    while i < planned.len() && i < NAMED_TARGETS
        invariant
            1 <= i <= planned.len(),
            i <= NAMED_TARGETS,
            targets@ == target_names(planned@, i as int),
        decreases planned.len() - i,
    {
        targets.append(",");
        targets.append(planned[i].target_node_id.as_str());
        i = i + 1;
    }
    if planned.len() > NAMED_TARGETS {
        targets.append(",...");
    }
    out.append(" peers; planned ");
    out.append(decimal_text(planned.len() as u64).as_str());
    out.append(" targets: ");
    out.append(targets.as_str());
    out
}

/// Whether one of some placements is on a node.
pub open spec fn planned_on(planned: Seq<ReplicaPlacement>, id: Seq<char>) -> bool {
    exists|i: int| 0 <= i < planned.len() && (#[trigger] planned[i]).target_node_id@ == id
}

/// Whether a node asks for a replica of a stream now: one is planned on it, and it did not ask
/// for one lately.
pub fn request_planned_local_replica(
    tracker: &mut DemandTracker,
    planned: &Vec<ReplicaPlacement>,
    own_id: &str,
    stream_id: u64,
    now_ms: u64,
) -> (r: bool)
    ensures
        r == (planned_on(planned@, own_id@) && old(tracker).due(stream_id, now_ms)),
        final(tracker).times() == if r {
            old(tracker).times().insert(stream_id, now_ms)
        } else {
            old(tracker).times()
        },
{
    let mut i: usize = 0;
    while i < planned.len()
        invariant
            i <= planned.len(),
            *tracker == *old(tracker),
            forall|k: int| 0 <= k < i ==> (#[trigger] planned@[k]).target_node_id@ != own_id@,
        decreases planned.len() - i,
    {
        if same_text(planned[i].target_node_id.as_str(), own_id) {
            assert(planned_on(planned@, own_id@));
            return tracker.should_request_replica(stream_id, now_ms);
        }
        i = i + 1;
    }
    false
}

/// The largest part that is told of is one that a node tells of, and none that is told of is
/// larger; it is nothing where none is told of.
pub proof fn the_largest_part_is_taken(snapshots: Seq<MeshSnapshot>, stream_id: u64)
    ensures
        forall|i: int|
            0 <= i < snapshots.len() && tells_part(#[trigger] snapshots[i], stream_id) ==> stream_told(
                snapshots[i],
                stream_id,
            )->0.latest_local_part_bytes->0 <= largest_part(snapshots, stream_id),
        largest_part(snapshots, stream_id) > 0 ==> exists|i: int|
            0 <= i < snapshots.len() && tells_part(#[trigger] snapshots[i], stream_id)
                && stream_told(snapshots[i], stream_id)->0.latest_local_part_bytes->0
                == largest_part(snapshots, stream_id),
    decreases snapshots.len(),
{
    if snapshots.len() > 0 {
        let front = snapshots.drop_last();
        let n = snapshots.len() - 1;
        the_largest_part_is_taken(front, stream_id);
        assert(snapshots.last() == snapshots[n]);
        assert forall|i: int| 0 <= i < n implies front[i] == #[trigger] snapshots[i] by {}
        if largest_part(front, stream_id) > 0 {
            let i = choose|i: int|
                0 <= i < front.len() && tells_part(#[trigger] front[i], stream_id) && stream_told(
                    front[i],
                    stream_id,
                )->0.latest_local_part_bytes->0 == largest_part(front, stream_id);
            assert(snapshots[i] == front[i]);
        }
    }
}

/// Whether a node tells how large its latest part of a stream is.
pub open spec fn tells_part(snapshot: MeshSnapshot, stream_id: u64) -> bool {
    stream_told(snapshot, stream_id) is Some && stream_told(
        snapshot,
        stream_id,
    )->0.latest_local_part_bytes is Some
}

/// A stream is taken to be as large as what is held of it here or as a window of its largest
/// parts, whichever is more, and never as empty.
pub proof fn sizes_cover_the_window(local_bytes: u64, largest: u64, window_parts: usize)
    ensures
        ({
            let size = stream_size(local_bytes, largest, window_parts);
            &&& size >= 1 && size >= local_bytes
            &&& size >= largest * window_parts || size == u64::MAX
            &&& size == 1 || size == local_bytes || size == largest * window_parts || (size
                == u64::MAX && largest * window_parts > u64::MAX)
        }),
{
}

/// The contributor of a stream is the first node that has a part of its own of it.
pub proof fn the_first_contributor_is_named(snapshots: Seq<MeshSnapshot>, stream_id: u64)
    ensures
        match first_contributor(snapshots, stream_id) {
            Some(id) => exists|i: int|
                0 <= i < snapshots.len() && has_own_part(#[trigger] snapshots[i], stream_id) && id
                    == snapshots[i].node.node_id && forall|j: int|
                    0 <= j < i ==> !has_own_part(#[trigger] snapshots[j], stream_id),
            None => forall|j: int|
                0 <= j < snapshots.len() ==> !has_own_part(#[trigger] snapshots[j], stream_id),
        },
    decreases snapshots.len(),
{
    if snapshots.len() > 0 {
        if contributes(snapshots[0], stream_id) {
            assert(has_own_part(snapshots[0], stream_id));
        } else {
            let rest = snapshots.skip(1);
            the_first_contributor_is_named(rest, stream_id);
            assert forall|j: int| 0 < j < snapshots.len() implies rest[j - 1]
                == #[trigger] snapshots[j] by {}
            match first_contributor(rest, stream_id) {
                Some(id) => {
                    let i = choose|i: int|
                        0 <= i < rest.len() && has_own_part(#[trigger] rest[i], stream_id) && id
                            == rest[i].node.node_id && forall|j: int|
                            0 <= j < i ==> !has_own_part(#[trigger] rest[j], stream_id);
                    assert(snapshots[i + 1] == rest[i]);
                    assert forall|j: int| 0 <= j < i + 1 implies !has_own_part(
                        #[trigger] snapshots[j],
                        stream_id,
                    ) by {
                        if j > 0 {
                            assert(rest[j - 1] == snapshots[j]);
                        }
                    }
                },
                None => {
                    assert forall|j: int| 0 <= j < snapshots.len() implies !has_own_part(
                        #[trigger] snapshots[j],
                        stream_id,
                    ) by {
                        if j > 0 {
                            assert(rest[j - 1] == snapshots[j]);
                        }
                    }
                },
            }
        }
    }
}

/// Whether a node tells of a part of its own of a stream.
pub open spec fn has_own_part(snapshot: MeshSnapshot, stream_id: u64) -> bool {
    stream_told(snapshot, stream_id) is Some && stream_told(
        snapshot,
        stream_id,
    )->0.latest_local_part is Some
}

/// The streams that are known are those that some node tells of.
pub proof fn known_streams_are_told_by_some_node(snapshots: Seq<MeshSnapshot>, id: u64)
    ensures
        told_ids(snapshots).contains(id) <==> exists|i: int|
            0 <= i < snapshots.len() && streams_told(#[trigger] snapshots[i]).contains(id),
    decreases snapshots.len(),
{
    if snapshots.len() > 0 {
        let front = snapshots.drop_last();
        let n = snapshots.len() - 1;
        known_streams_are_told_by_some_node(front, id);
        assert(snapshots.last() == snapshots[n]);
        assert forall|i: int| 0 <= i < n implies front[i] == #[trigger] snapshots[i] by {}
        let before = told_ids(front);
        let more = streams_told(snapshots.last());
        let all = told_ids(snapshots);
        assert(all == before + more);
        if all.contains(id) {
            let a = choose|a: int| 0 <= a < all.len() && all[a] == id;
            if a < before.len() {
                assert(before[a] == id);
                assert(before.contains(id));
                let i = choose|i: int|
                    0 <= i < front.len() && streams_told(#[trigger] front[i]).contains(id);
                assert(snapshots[i] == front[i]);
            } else {
                assert(more[a - before.len()] == id);
                assert(streams_told(snapshots[n]).contains(id));
            }
        }
        if exists|i: int|
            0 <= i < snapshots.len() && streams_told(#[trigger] snapshots[i]).contains(id) {
            let i = choose|i: int|
                0 <= i < snapshots.len() && streams_told(#[trigger] snapshots[i]).contains(id);
            if i < n {
                assert(streams_told(front[i]).contains(id));
                let a = choose|a: int| 0 <= a < before.len() && before[a] == id;
                assert(all[a] == id);
            } else {
                let a = choose|a: int| 0 <= a < more.len() && more[a] == id;
                assert(all[before.len() + a] == id);
            }
        }
    }
}

/// A region is placed by the first node in it.
pub proof fn regions_are_placed_by_their_first_node(snapshots: Seq<MeshSnapshot>, region: Seq<char>)
    ensures
        match first_in_region(snapshots, region) {
            Some(node) => exists|i: int|
                0 <= i < snapshots.len() && node == (#[trigger] snapshots[i]).node
                    && node.region@ == region && forall|j: int|
                    0 <= j < i ==> (#[trigger] snapshots[j]).node.region@ != region,
            None => forall|j: int|
                0 <= j < snapshots.len() ==> (#[trigger] snapshots[j]).node.region@ != region,
        },
    decreases snapshots.len(),
{
    if snapshots.len() > 0 {
        if snapshots[0].node.region@ == region {
            assert(first_in_region(snapshots, region) == Some(snapshots[0].node));
        } else {
            let rest = snapshots.skip(1);
            regions_are_placed_by_their_first_node(rest, region);
            assert forall|j: int| 0 < j < snapshots.len() implies rest[j - 1]
                == #[trigger] snapshots[j] by {}
            match first_in_region(rest, region) {
                Some(node) => {
                    let i = choose|i: int|
                        0 <= i < rest.len() && node == (#[trigger] rest[i]).node
                            && node.region@ == region && forall|j: int|
                            0 <= j < i ==> (#[trigger] rest[j]).node.region@ != region;
                    assert(snapshots[i + 1] == rest[i]);
                    assert forall|j: int| 0 <= j < i + 1 implies (
                    #[trigger] snapshots[j]).node.region@ != region by {
                        if j > 0 {
                            assert(rest[j - 1] == snapshots[j]);
                        }
                    }
                },
                None => {
                    assert forall|j: int| 0 <= j < snapshots.len() implies (
                    #[trigger] snapshots[j]).node.region@ != region by {
                        if j > 0 {
                            assert(rest[j - 1] == snapshots[j]);
                        }
                    }
                },
            }
        }
    }
}

/// The targets of a plan are named in their order, with commas between them: all of up to five,
/// else the first five and a mark that there are more.
pub proof fn targets_are_named_in_order(planned: Seq<ReplicaPlacement>, k: int)
    requires
        0 < k < planned.len(),
    ensures
        target_names(planned, 1) == planned[0].target_node_id@,
        target_names(planned, k + 1) == target_names(planned, k) + ","@
            + planned[k].target_node_id@,
        planned.len() <= 5 ==> named_targets(planned) == target_names(
            planned,
            planned.len() as int,
        ),
        planned.len() > 5 ==> named_targets(planned) == target_names(planned, 5) + ",..."@,
{
}

/// A request for replicas is told with its reason, with how many peers it went to, and with the
/// targets that were planned, if any were.
pub proof fn requests_are_told_with_their_targets(
    reason: Seq<char>,
    peer_count: usize,
    planned: Seq<ReplicaPlacement>,
)
    ensures
        planned.len() == 0 ==> replica_status(reason, peer_count, planned) == reason
            + ": requested from "@ + decimal(peer_count as nat)
            + " peers; no eligible planned targets"@,
        planned.len() > 0 ==> replica_status(reason, peer_count, planned) == reason
            + ": requested from "@ + decimal(peer_count as nat) + " peers; planned "@ + decimal(
            planned.len(),
        ) + " targets: "@ + named_targets(planned),
{
}

/// Requests for one stream are a second apart or more.
pub proof fn requests_wait_a_second(tracker: DemandTracker, stream_id: u64, now_ms: u64)
    ensures
        !tracker.times().contains_key(stream_id) ==> tracker.due(stream_id, now_ms),
        tracker.times().contains_key(stream_id) ==> (tracker.due(stream_id, now_ms) <==> now_ms
            >= tracker.times()[stream_id] + 1_000),
{
}

/// Replicas of a stream are on the nodes that tell of it as active, and on this one where it holds
/// any of it; on no others.
pub proof fn replicas_are_where_the_stream_is_told(
    snapshots: Seq<MeshSnapshot>,
    stream_id: u64,
    own_id: Seq<char>,
    local_bytes: u64,
    id: Seq<char>,
)
    ensures
        local_bytes > 0 ==> is_replica(snapshots, stream_id, own_id, local_bytes, own_id),
        forall|i: int|
            0 <= i < snapshots.len() && tells_active(#[trigger] snapshots[i], stream_id)
                ==> is_replica(
                snapshots,
                stream_id,
                own_id,
                local_bytes,
                snapshots[i].node.node_id@,
            ),
        is_replica(snapshots, stream_id, own_id, local_bytes, id) && (local_bytes == 0 || id
            != own_id) ==> exists|i: int|
            0 <= i < snapshots.len() && tells_active(#[trigger] snapshots[i], stream_id)
                && snapshots[i].node.node_id@ == id,
{
    assert forall|i: int| 0 <= i < snapshots.len() implies tells_active(
        #[trigger] snapshots[i],
        stream_id,
    ) == holds_stream(snapshots[i], stream_id) by {}
    if is_replica(snapshots, stream_id, own_id, local_bytes, id) && (local_bytes == 0 || id
        != own_id) {
        let i = choose|i: int|
            0 <= i < snapshots.len() && holds_stream(#[trigger] snapshots[i], stream_id)
                && snapshots[i].node.node_id@ == id;
        assert(tells_active(snapshots[i], stream_id));
    }
}

/// Whether a node tells of a stream with a part of its own, a part of the mesh or a head.
pub open spec fn tells_active(snapshot: MeshSnapshot, stream_id: u64) -> bool {
    match stream_told(snapshot, stream_id) {
        Some(s) => s.latest_local_part is Some || s.latest_mesh_part is Some || s.head_object
            is Some,
        None => false,
    }
}

} // verus!
