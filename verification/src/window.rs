//! The retained window of a stream: which slots are there, how large they are and what is
//! missing, and the account of streams that follows from it.

use vstd::prelude::*;
use crate::live_state::{
    larger, larger_of, oldest_in_window, saturating_diff, saturating_sum, LiveState, StreamModel,
};
use crate::order::{ranked, ranking_orders, sort_by_rank, Ranked};
use crate::streams::{
    stale_threshold, stream_id_text, stream_stale_threshold_ms, telemetry_views, StatsSnapshot,
    StreamTelemetry, TelemetryModel,
};
use crate::text::decimal;

verus! {

/// How a node cuts and keeps its streams.
#[derive(Clone, Copy, Debug, PartialEq, Eq, Structural)]
pub struct LiveConfig {
    /// The node's own stream.
    pub stream_id: u64,
    pub part_target_ms: u64,
    pub parts_per_segment: usize,
    pub window_parts: usize,
}

/// A slot that the cache returned.
#[derive(Clone, Copy, Debug, PartialEq, Eq, Structural)]
pub struct SlotInfo {
    pub seq: u64,
    pub bytes: usize,
    pub hash: u64,
}

impl SlotInfo {
    /// Whether the slot holds anything.
    pub open spec fn filled(self) -> bool {
        self.hash != 0 || self.bytes > 0
    }

    /// Whether the slot holds anything.
    pub fn present(&self) -> (r: bool)
        ensures
            r == self.filled(),
    {
        self.hash != 0 || self.bytes > 0
    }
}

/// The first slot of the window that ends at `last`.
pub open spec fn first_in_window(last: usize, window_parts: usize) -> usize {
    if window_parts == 0 {
        last
    } else if last + 1 < window_parts {
        0
    } else {
        (last + 1 - window_parts) as usize
    }
}

/// The first slot of the window that ends at `last`.
pub fn window_first(last: usize, window_parts: usize) -> (r: usize)
    ensures
        r == (if window_parts == 0 || last < window_parts - 1 {
            if window_parts == 0 {
                last
            } else {
                0
            }
        } else {
            (last - (window_parts - 1)) as usize
        }),
        r == first_in_window(last, window_parts),
{
    last.saturating_sub(window_parts.saturating_sub(1))
}

/// The position of the last filled slot of a list.
pub open spec fn last_filled(slots: Seq<SlotInfo>) -> Option<int>
    decreases slots.len(),
{
    if slots.len() == 0 {
        None
    } else if slots.last().filled() {
        Some(slots.len() - 1)
    } else {
        last_filled(slots.drop_last())
    }
}

/// The last filled slot of a list.
pub open spec fn latest_slot(slots: Seq<SlotInfo>) -> Option<SlotInfo> {
    match last_filled(slots) {
        Some(i) => Some(slots[i]),
        None => None,
    }
}

/// The last filled slot of a list.
pub fn latest_present(slots: &Vec<SlotInfo>) -> (r: Option<SlotInfo>)
    ensures
        r == latest_slot(slots@),
{
    let mut i: usize = slots.len();
    proof {
        assert(slots@.take(slots@.len() as int) =~= slots@);
    }
    while i > 0
        invariant
            i <= slots.len(),
            last_filled(slots@) == last_filled(slots@.take(i as int)),
        decreases i,
    {
        proof {
            assert(slots@.take(i as int).drop_last() =~= slots@.take(i - 1));
            assert(slots@.take(i as int).last() == slots@[i - 1]);
        }
        if slots[i - 1].present() {
            return Some(slots[i - 1]);
        }
        i = i - 1;
    }
    None
}

/// The bytes of the filled slots, up to the largest number.
pub open spec fn filled_bytes(slots: Seq<SlotInfo>) -> u64
    decreases slots.len(),
{
    if slots.len() == 0 {
        0
    } else if slots.last().filled() {
        saturating_sum(filled_bytes(slots.drop_last()), slots.last().bytes as u64)
    } else {
        filled_bytes(slots.drop_last())
    }
}

/// The number of filled slots.
pub open spec fn filled_count(slots: Seq<SlotInfo>) -> nat
    decreases slots.len(),
{
    if slots.len() == 0 {
        0
    } else {
        filled_count(slots.drop_last()) + if slots.last().filled() {
            1nat
        } else {
            0nat
        }
    }
}

/// The bytes and the number of the filled slots.
pub fn measure_slots(slots: &Vec<SlotInfo>) -> (r: (u64, u64))
    ensures
        r.0 == filled_bytes(slots@),
        r.1 == filled_count(slots@),
{
    let mut bytes: u64 = 0;
    let mut count: u64 = 0;
    let mut i: usize = 0;
    proof {
        assert(slots@.take(0) =~= Seq::<SlotInfo>::empty());
    }
    while i < slots.len()
        invariant
            i <= slots.len(),
            count <= i,
            bytes == filled_bytes(slots@.take(i as int)),
            count == filled_count(slots@.take(i as int)),
        decreases slots.len() - i,
    {
        proof {
            assert(slots@.take(i + 1).drop_last() =~= slots@.take(i as int));
            assert(slots@.take(i + 1).last() == slots@[i as int]);
        }
        if slots[i].present() {
            bytes = bytes.saturating_add(slots[i].bytes as u64);
            count = count + 1;
        }
        i = i + 1;
    }
    proof {
        assert(slots@.take(i as int) =~= slots@);
    }
    (bytes, count)
}

/// The sum of the storage of streams, up to the largest number.
pub open spec fn saturating_total(list: Seq<u64>) -> u64
    decreases list.len(),
{
    if list.len() == 0 {
        0
    } else {
        saturating_sum(saturating_total(list.drop_last()), list.last())
    }
}

/// The sum of the storage of streams.
pub fn estimated_storage_bytes(per_stream: &Vec<u64>) -> (r: u64)
    ensures
        r == saturating_total(per_stream@),
{
    let mut total: u64 = 0;
    let mut i: usize = 0;
    proof {
        assert(per_stream@.take(0) =~= Seq::<u64>::empty());
    }
    while i < per_stream.len()
        invariant
            i <= per_stream.len(),
            total == saturating_total(per_stream@.take(i as int)),
        decreases per_stream.len() - i,
    {
        proof {
            assert(per_stream@.take(i + 1).drop_last() =~= per_stream@.take(i as int));
            assert(per_stream@.take(i + 1).last() == per_stream@[i as int]);
        }
        total = total.saturating_add(per_stream[i]);
        i = i + 1;
    }
    proof {
        assert(per_stream@.take(i as int) =~= per_stream@);
    }
    total
}

/// The objects among which gaps are counted: those of the window that ends at the head, from
/// the subscription's first object on.
pub open spec fn gap_bounds(
    base: Option<u64>,
    head: Option<u64>,
    window_parts: usize,
) -> Option<(u64, u64)> {
    match (base, head) {
        (Some(base), Some(head)) => Some((larger(oldest_in_window(head, window_parts), base), head)),
        _ => None,
    }
}

/// The objects among which gaps are counted.
pub fn gap_range(base: Option<u64>, head: Option<u64>, window_parts: usize) -> (r: Option<
    (u64, u64),
>)
    ensures
        r == gap_bounds(base, head, window_parts),
{
    match (base, head) {
        (Some(base), Some(head)) => {
            let oldest: u64 = head.saturating_sub(window_parts.saturating_sub(1) as u64);
            Some((larger_of(oldest, base), head))
        },
        _ => None,
    }
}

/// The number of objects that were not found.
pub open spec fn missing_count(found: Seq<bool>) -> nat
    decreases found.len(),
{
    if found.len() == 0 {
        0
    } else {
        missing_count(found.drop_last()) + if found.last() {
            0nat
        } else {
            1nat
        }
    }
}

/// The number of gaps of a stream: nothing where there is no base or no head, or where the
/// head has no slot; else the objects of the range that were not found.
pub fn canonical_gap_count(range: Option<(u64, u64)>, found: &Vec<bool>) -> (r: Option<u64>)
    ensures
        r == (match range {
            Some((first, head)) => if first <= head && head > usize::MAX {
                None
            } else {
                Some(missing_count(found@) as u64)
            },
            None => None,
        }),
{
    match range {
        None => None,
        Some((first, head)) => {
            if first <= head && head > usize::MAX as u64 {
                return None;
            }
            let mut gaps: u64 = 0;
            let mut i: usize = 0;
            proof {
                assert(found@.take(0) =~= Seq::<bool>::empty());
            }
            while i < found.len()
                invariant
                    i <= found.len(),
                    gaps <= i,
                    gaps == missing_count(found@.take(i as int)),
                decreases found.len() - i,
            {
                proof {
                    assert(found@.take(i + 1).drop_last() =~= found@.take(i as int));
                    assert(found@.take(i + 1).last() == found@[i as int]);
                }
                if !found[i] {
                    gaps = gaps.saturating_add(1);
                }
                i = i + 1;
            }
            proof {
                assert(found@.take(i as int) =~= found@);
            }
            Some(gaps)
        },
    }
}

/// The position of the first slot that is not there, or the number of slots.
pub open spec fn first_absent(present: Seq<bool>) -> int
    decreases present.len(),
{
    if present.len() == 0 || !present[0] {
        0
    } else {
        1 + first_absent(present.skip(1))
    }
}

/// The slot from which a replica of a stream is to be asked for: the first retained slot that
/// is not there, or the one behind the last.
pub fn replica_request_from_slot(retained_start: usize, present: &Vec<bool>) -> (r: usize)
    ensures
        r == (if retained_start + first_absent(present@) > usize::MAX {
            usize::MAX as int
        } else {
            retained_start + first_absent(present@)
        }),
{
    let mut i: usize = 0;
    proof {
        assert(present@.skip(0) =~= present@);
    }
    while i < present.len()
        invariant
            i <= present.len(),
            first_absent(present@) == i + first_absent(present@.skip(i as int)),
        decreases present.len() - i,
    {
        proof {
            assert(present@.skip(i as int)[0] == present@[i as int]);
            assert(present@.skip(i as int).skip(1) =~= present@.skip(i + 1));
        }
        if !present[i] {
            return retained_start.saturating_add(i);
        }
        i = i + 1;
    }
    retained_start.saturating_add(i)
}

/// Sorts numbers and drops the repeated ones.
pub fn sorted_unique(ids: &Vec<u64>) -> (r: Vec<u64>)
    ensures
        forall|i: int, j: int| 0 <= i < j < r@.len() ==> #[trigger] r@[i] < #[trigger] r@[j],
        forall|id: u64| #[trigger] r@.contains(id) <==> ids@.contains(id),
{
    let mut out: Vec<u64> = Vec::new();
    let mut i: usize = 0;
    while i < ids.len()
        invariant
            i <= ids.len(),
            forall|a: int, b: int| 0 <= a < b < out@.len() ==> #[trigger] out@[a] < #[trigger] out@[b],
            forall|id: u64| #[trigger] out@.contains(id) <==> ids@.take(i as int).contains(id),
        decreases ids.len() - i,
    {
        let id: u64 = ids[i];
        let mut p: usize = out.len();
        while p > 0 && out[p - 1] > id
            invariant
                p <= out.len(),
                forall|j: int| p <= j < out@.len() ==> #[trigger] out@[j] > id,
            decreases p,
        {
            p = p - 1;
        }
        let ghost before = out@;
        proof {
            let t = ids@.take(i as int);
            let u = ids@.take(i + 1);
            assert(u =~= t.push(id));
            assert forall|k: u64| u.contains(k) <==> t.contains(k) || k == id by {
                if t.contains(k) {
                    let j = choose|j: int| 0 <= j < t.len() && t[j] == k;
                    assert(u[j] == k);
                }
                assert(u[t.len() as int] == id);
                if u.contains(k) {
                    let j = choose|j: int| 0 <= j < u.len() && u[j] == k;
                    if j < t.len() {
                        assert(t[j] == k);
                    }
                }
            }
        }
        if p == 0 || out[p - 1] != id {
            out.insert(p, id);
            proof {
                assert(out@ == before.insert(p as int, id));
                assert forall|a: int, b: int| 0 <= a < b < out@.len() implies #[trigger] out@[a]
                    < #[trigger] out@[b] by {
                    if p > 0 {
                        assert(before[p - 1] < id);
                        if a < p - 1 {
                            assert(before[a] < before[p - 1]);
                        }
                    }
                    if b < p {
                        assert(before[a] < before[b]);
                    } else if b > p {
                        assert(out@[b] == before[b - 1]);
                        if a < p {
                            assert(before[b - 1] > id);
                        } else if a > p {
                            assert(before[a - 1] < before[b - 1]);
                        }
                    }
                }
                assert forall|k: u64| #[trigger] out@.contains(k) <==> before.contains(k) || k == id by {
                    if before.contains(k) {
                        let j = choose|j: int| 0 <= j < before.len() && before[j] == k;
                        let x = if j < p {
                            j
                        } else {
                            j + 1
                        };
                        assert(out@[x] == k);
                    }
                    assert(out@[p as int] == id);
                    if out@.contains(k) && k != id {
                        let x = choose|x: int| 0 <= x < out@.len() && out@[x] == k;
                        let j = if x < p {
                            x
                        } else {
                            x - 1
                        };
                        assert(before[j] == k);
                    }
                }
            }
        } else {
            assert(before[p - 1] == id);
        }
        i = i + 1;
    }
    proof {
        assert(ids@.take(i as int) =~= ids@);
    }
    out
}

/// How long ago something was.
pub open spec fn age(now_ms: u64, then: Option<u64>) -> Option<u64> {
    match then {
        Some(then) => Some(saturating_diff(now_ms, then)),
        None => None,
    }
}

fn age_of(now_ms: u64, then: Option<u64>) -> (r: Option<u64>)
    ensures
        r == age(now_ms, then),
{
    match then {
        Some(then) => Some(now_ms.saturating_sub(then)),
        None => None,
    }
}

/// Whether an account tells the state of a stream.
pub open spec fn tells_state(
    r: StatsSnapshot,
    state: LiveState,
    config: LiveConfig,
    slots: Seq<SlotInfo>,
    gap_count: Option<u64>,
    now_ms: u64,
) -> bool {
    let stream = state.stream(config.stream_id);
    &&& r.stream_id == config.stream_id && r.part_target_ms == config.part_target_ms
    &&& r.parts_per_segment == config.parts_per_segment && r.window_parts == config.window_parts
    &&& r.datagrams_received == state.counters.datagrams_received
    &&& r.bytes_received == state.counters.bytes_received
    &&& r.current_part_bytes == state.assembly.current@.len()
    &&& r.latest_local_part == state.counters.last_committed_seq
    &&& r.latest_local_part_bytes == state.counters.last_committed_bytes
    &&& r.latest_local_part_duration_ms == state.counters.last_committed_duration_ms
    &&& r.latest_mesh_part == (match latest_slot(slots) {
        Some(slot) => Some(slot.seq),
        None => None,
    })
    &&& r.contiguous_object == r.latest_mesh_part
    &&& r.canonical_epoch == stream.canonical_epoch
    &&& r.canonical_epoch_activation_delay_us == stream.canonical_epoch_activation_delay_us
    &&& r.head_object == stream.latest_canonical_object
    &&& r.gap_count == gap_count
    &&& r.latest_local_part_age_ms == age(now_ms, state.counters.last_committed_unix_ms)
    &&& r.last_ingest_age_ms == age(now_ms, state.counters.last_ingest_unix_ms)
}

/// The account of the node's own stream, out of its state, the slots of its window and the
/// number of its gaps.
pub fn stats(
    state: &LiveState,
    config: &LiveConfig,
    slots: &Vec<SlotInfo>,
    gap_count: Option<u64>,
    mesh_peers: Vec<String>,
    now_ms: u64,
) -> (r: StatsSnapshot)
    ensures
        r.stream_id == config.stream_id,
        r.stream_id_text@ == decimal(config.stream_id as nat),
        r.part_target_ms == config.part_target_ms,
        r.parts_per_segment == config.parts_per_segment,
        r.window_parts == config.window_parts,
        r.datagrams_received == state.counters.datagrams_received,
        r.bytes_received == state.counters.bytes_received,
        r.current_part_bytes == state.assembly.current@.len(),
        r.latest_local_part == state.counters.last_committed_seq,
        r.latest_local_part_bytes == state.counters.last_committed_bytes,
        r.latest_local_part_duration_ms == state.counters.last_committed_duration_ms,
        r.latest_mesh_part == (match latest_slot(slots@) {
            Some(slot) => Some(slot.seq),
            None => None,
        }),
        r.canonical_epoch == state.stream(config.stream_id).canonical_epoch,
        r.canonical_epoch_activation_delay_us == state.stream(
            config.stream_id,
        ).canonical_epoch_activation_delay_us,
        r.contiguous_object == r.latest_mesh_part,
        r.head_object == state.stream(config.stream_id).latest_canonical_object,
        r.gap_count == gap_count,
        r.mesh_peers == mesh_peers,
        r.latest_local_part_age_ms == age(now_ms, state.counters.last_committed_unix_ms),
        r.last_ingest_age_ms == age(now_ms, state.counters.last_ingest_unix_ms),
        tells_state(r, *state, *config, slots@, gap_count, now_ms),
{
    let (epoch, delay, head): (Option<u64>, Option<u64>, Option<u64>) = match state.streams.get(
        &config.stream_id,
    ) {
        Some(stream) => (
            stream.canonical_epoch,
            stream.canonical_epoch_activation_delay_us,
            stream.latest_canonical_object,
        ),
        None => (None, None, None),
    };
    let latest: Option<u64> = match latest_present(slots) {
        Some(slot) => Some(slot.seq),
        None => None,
    };
    StatsSnapshot {
        stream_id: config.stream_id,
        stream_id_text: stream_id_text(config.stream_id),
        part_target_ms: config.part_target_ms,
        parts_per_segment: config.parts_per_segment,
        window_parts: config.window_parts,
        datagrams_received: state.counters.datagrams_received,
        bytes_received: state.counters.bytes_received,
        current_part_bytes: state.assembly.current.len(),
        latest_local_part: state.counters.last_committed_seq,
        latest_local_part_bytes: state.counters.last_committed_bytes,
        latest_local_part_duration_ms: state.counters.last_committed_duration_ms,
        latest_mesh_part: latest,
        canonical_epoch: epoch,
        canonical_epoch_activation_delay_us: delay,
        contiguous_object: latest,
        head_object: head,
        gap_count,
        mesh_peers,
        latest_local_part_age_ms: age_of(now_ms, state.counters.last_committed_unix_ms),
        last_ingest_age_ms: age_of(now_ms, state.counters.last_ingest_unix_ms),
    }
}

/// A stream of the cache: its number, the slots of its window and the number of its gaps.
#[derive(Debug)]
pub struct CacheStream {
    pub stream_id: u64,
    pub slots: Vec<SlotInfo>,
    pub gap_count: Option<u64>,
}

/// The account of a stream of the cache; nothing where its window is empty.
///
/// The node's own stream has its account from the node; any other from the cache and the
/// state alone.
pub open spec fn stream_account(
    node_id: Seq<char>,
    config: LiveConfig,
    own: StatsSnapshot,
    known: StreamModel,
    stream: CacheStream,
) -> Option<TelemetryModel> {
    match latest_slot(stream.slots@) {
        None => None,
        Some(latest) => {
            let is_own = stream.stream_id == config.stream_id;
            let bytes = filled_bytes(stream.slots@);
            let count = filled_count(stream.slots@) as u64;
            Some(
                TelemetryModel {
                    node_id,
                    stream_id: stream.stream_id,
                    stream_id_text: decimal(stream.stream_id as nat),
                    latest_local_part: if is_own {
                        own.latest_local_part
                    } else {
                        None
                    },
                    latest_local_part_bytes: if is_own && own.latest_local_part_bytes is Some {
                        own.latest_local_part_bytes
                    } else {
                        Some(latest.bytes)
                    },
                    latest_local_part_duration_ms: if is_own {
                        own.latest_local_part_duration_ms
                    } else {
                        None
                    },
                    latest_local_part_age_ms: if is_own {
                        own.latest_local_part_age_ms
                    } else {
                        None
                    },
                    latest_mesh_part: Some(latest.seq),
                    canonical_epoch: if is_own {
                        own.canonical_epoch
                    } else {
                        known.canonical_epoch
                    },
                    canonical_epoch_activation_delay_us: if is_own {
                        own.canonical_epoch_activation_delay_us
                    } else {
                        known.canonical_epoch_activation_delay_us
                    },
                    contiguous_object: if is_own {
                        own.contiguous_object
                    } else {
                        Some(latest.seq)
                    },
                    head_object: if is_own {
                        own.head_object
                    } else {
                        known.latest_canonical_object
                    },
                    gap_count: if is_own {
                        own.gap_count
                    } else {
                        stream.gap_count
                    },
                    bytes_received: if is_own {
                        larger(own.bytes_received, bytes)
                    } else {
                        bytes
                    },
                    datagrams_received: if is_own {
                        larger(own.datagrams_received, count)
                    } else {
                        count
                    },
                    last_ingest_age_ms: if is_own {
                        own.last_ingest_age_ms
                    } else {
                        None
                    },
                    stale_threshold_ms: Some(
                        stale_threshold(own.part_target_ms, own.window_parts),
                    ),
                    mesh_lag_parts: None,
                },
            )
        },
    }
}

/// The accounts of the streams of the cache, in the order of the cache.
pub open spec fn stream_accounts(
    node_id: Seq<char>,
    config: LiveConfig,
    own: StatsSnapshot,
    state: LiveState,
    streams: Seq<CacheStream>,
) -> Seq<TelemetryModel>
    decreases streams.len(),
{
    if streams.len() == 0 {
        Seq::empty()
    } else {
        let front = stream_accounts(node_id, config, own, state, streams.drop_last());
        let last = streams.last();
        match stream_account(node_id, config, own, state.stream(last.stream_id), last) {
            Some(account) => front.push(account),
            None => front,
        }
    }
}

impl Ranked for StreamTelemetry {
    open spec fn le(self, other: Self) -> bool {
        self.stream_id <= other.stream_id
    }

    proof fn rank_laws(a: Self, b: Self, c: Self) {
    }

    fn not_after(&self, other: &Self) -> (r: bool) {
        self.stream_id <= other.stream_id
    }
}

fn account(
    node_id: &String,
    config: &LiveConfig,
    own: &StatsSnapshot,
    state: &LiveState,
    stream: &CacheStream,
) -> (r: Option<StreamTelemetry>)
    ensures
        match r {
            Some(t) => stream_account(
                node_id@,
                *config,
                *own,
                state.stream(stream.stream_id),
                *stream,
            ) == Some(t@),
            None => stream_account(
                node_id@,
                *config,
                *own,
                state.stream(stream.stream_id),
                *stream,
            ) is None,
        },
{
    let latest = match latest_present(&stream.slots) {
        Some(slot) => slot,
        None => {
            return None;
        },
    };
    let (bytes, count): (u64, u64) = measure_slots(&stream.slots);
    let (epoch, delay, head): (Option<u64>, Option<u64>, Option<u64>) = match state.streams.get(
        &stream.stream_id,
    ) {
        Some(known) => (
            known.canonical_epoch,
            known.canonical_epoch_activation_delay_us,
            known.latest_canonical_object,
        ),
        None => (None, None, None),
    };
    let threshold: u64 = stream_stale_threshold_ms(own.part_target_ms, own.window_parts);
    let is_own: bool = stream.stream_id == config.stream_id;
    let own_bytes: Option<usize> = if is_own && own.latest_local_part_bytes.is_some() {
        own.latest_local_part_bytes
    } else {
        Some(latest.bytes)
    };
    if is_own {
        Some(
            StreamTelemetry {
                node_id: node_id.clone(),
                stream_id: stream.stream_id,
                stream_id_text: stream_id_text(stream.stream_id),
                latest_local_part: own.latest_local_part,
                latest_local_part_bytes: own_bytes,
                latest_local_part_duration_ms: own.latest_local_part_duration_ms,
                latest_local_part_age_ms: own.latest_local_part_age_ms,
                latest_mesh_part: Some(latest.seq),
                canonical_epoch: own.canonical_epoch,
                canonical_epoch_activation_delay_us: own.canonical_epoch_activation_delay_us,
                contiguous_object: own.contiguous_object,
                head_object: own.head_object,
                gap_count: own.gap_count,
                bytes_received: larger_of(own.bytes_received, bytes),
                datagrams_received: larger_of(own.datagrams_received, count),
                last_ingest_age_ms: own.last_ingest_age_ms,
                stale_threshold_ms: Some(threshold),
                mesh_lag_parts: None,
            },
        )
    } else {
        Some(
            StreamTelemetry {
                node_id: node_id.clone(),
                stream_id: stream.stream_id,
                stream_id_text: stream_id_text(stream.stream_id),
                latest_local_part: None,
                latest_local_part_bytes: own_bytes,
                latest_local_part_duration_ms: None,
                latest_local_part_age_ms: None,
                latest_mesh_part: Some(latest.seq),
                canonical_epoch: epoch,
                canonical_epoch_activation_delay_us: delay,
                contiguous_object: Some(latest.seq),
                head_object: head,
                gap_count: stream.gap_count,
                bytes_received: bytes,
                datagrams_received: count,
                last_ingest_age_ms: None,
                stale_threshold_ms: Some(threshold),
                mesh_lag_parts: None,
            },
        )
    }
}

/// The accounts of the streams of the cache, by stream.
pub fn stream_telemetry(
    node_id: &String,
    config: &LiveConfig,
    own: &StatsSnapshot,
    state: &LiveState,
    streams: &Vec<CacheStream>,
) -> (r: Vec<StreamTelemetry>)
    ensures
        exists|list: Seq<StreamTelemetry>| #[trigger]
            telemetry_views(list) == stream_accounts(node_id@, *config, *own, *state, streams@)
                && r@ == ranked(list),
{
    let mut list: Vec<StreamTelemetry> = Vec::new();
    let mut i: usize = 0;
    proof {
        assert(streams@.take(0) =~= Seq::<CacheStream>::empty());
        assert(telemetry_views(list@) =~= Seq::<TelemetryModel>::empty());
    }
    while i < streams.len()
        invariant
            i <= streams.len(),
            telemetry_views(list@) == stream_accounts(
                node_id@,
                *config,
                *own,
                *state,
                streams@.take(i as int),
            ),
        decreases streams.len() - i,
    {
        proof {
            assert(streams@.take(i + 1).drop_last() =~= streams@.take(i as int));
            assert(streams@.take(i + 1).last() == streams@[i as int]);
        }
        let ghost before = list@;
        match account(node_id, config, own, state, &streams[i]) {
            Some(t) => {
                list.push(t);
                proof {
                    assert(telemetry_views(list@) =~= telemetry_views(before).push(t@));
                }
            },
            None => {},
        }
        i = i + 1;
    }
    proof {
        assert(streams@.take(i as int) =~= streams@);
    }
    sort_by_rank(list)
}

/// The latest slot is the last one that holds anything, whatever stands behind it.
pub proof fn the_last_filled_slot_is_the_latest(slots: Seq<SlotInfo>)
    ensures
        match latest_slot(slots) {
            Some(slot) => exists|i: int|
                0 <= i < slots.len() && slot == #[trigger] slots[i] && (slot.hash != 0 || slot.bytes
                    > 0) && forall|j: int|
                    i < j < slots.len() ==> (#[trigger] slots[j]).hash == 0 && slots[j].bytes == 0,
            None => forall|j: int|
                0 <= j < slots.len() ==> (#[trigger] slots[j]).hash == 0 && slots[j].bytes == 0,
        },
    decreases slots.len(),
{
    if slots.len() > 0 {
        let n = slots.len() - 1;
        let front = slots.drop_last();
        assert(slots.last() == slots[n]);
        if !slots.last().filled() {
            the_last_filled_slot_is_the_latest(front);
            assert forall|j: int| 0 <= j < n implies front[j] == #[trigger] slots[j] by {}
            match last_filled(front) {
                Some(k) => {
                    lemma_last_filled(front);
                    assert(front[k] == slots[k]);
                    assert(latest_slot(front) == Some(slots[k]));
                    let i = choose|i: int|
                        0 <= i < front.len() && slots[k] == #[trigger] front[i] && (slots[k].hash
                            != 0 || slots[k].bytes > 0) && forall|j: int|
                            i < j < front.len() ==> (#[trigger] front[j]).hash == 0
                                && front[j].bytes == 0;
                    assert(slots[i] == front[i]);
                    assert forall|j: int| i < j < slots.len() implies (#[trigger] slots[j]).hash
                        == 0 && slots[j].bytes == 0 by {
                        if j < n {
                            assert(front[j] == slots[j]);
                        }
                    }
                },
                None => {
                    assert forall|j: int| 0 <= j < slots.len() implies (#[trigger] slots[j]).hash
                        == 0 && slots[j].bytes == 0 by {
                        if j < n {
                            assert(front[j] == slots[j]);
                        }
                    }
                },
            }
        }
    }
}

proof fn lemma_last_filled(slots: Seq<SlotInfo>)
    ensures
        last_filled(slots) is Some ==> 0 <= last_filled(slots)->0 < slots.len(),
    decreases slots.len(),
{
    if slots.len() > 0 {
        lemma_last_filled(slots.drop_last());
    }
}

/// Slots are measured by those that hold anything: how many there are, and how many bytes they
/// hold together.
pub proof fn filled_slots_are_measured(slots: Seq<SlotInfo>)
    ensures
        ({
            let held = slots.filter(|s: SlotInfo| s.hash != 0 || s.bytes > 0);
            let bytes = held.fold_left(0int, |sum: int, s: SlotInfo| sum + s.bytes);
            &&& filled_count(slots) == held.len()
            &&& bytes <= u64::MAX ==> filled_bytes(slots) == bytes
            &&& bytes > u64::MAX ==> filled_bytes(slots) == u64::MAX
            &&& bytes >= 0
        }),
    decreases slots.len(),
{
    reveal(Seq::filter);
    reveal_with_fuel(Seq::fold_left, 2);
    if slots.len() > 0 {
        let front = slots.drop_last();
        filled_slots_are_measured(front);
        let before = front.filter(|s: SlotInfo| s.hash != 0 || s.bytes > 0);
        if slots.last().filled() {
            assert(before.push(slots.last()).drop_last() =~= before);
        }
    }
}

/// The bytes of all streams are added up, as far as they fit a number.
pub proof fn storage_adds_up(per_stream: Seq<u64>)
    ensures
        ({
            let total = per_stream.fold_left(0int, |sum: int, bytes: u64| sum + bytes);
            &&& total <= u64::MAX ==> saturating_total(per_stream) == total
            &&& total > u64::MAX ==> saturating_total(per_stream) == u64::MAX
            &&& total >= 0
        }),
    decreases per_stream.len(),
{
    reveal_with_fuel(Seq::fold_left, 2);
    if per_stream.len() > 0 {
        storage_adds_up(per_stream.drop_last());
    }
}

/// The gaps of a range are the objects of it that were not found.
pub proof fn gaps_are_what_was_not_found(found: Seq<bool>)
    ensures
        missing_count(found) == found.filter(|f: bool| !f).len(),
        missing_count(found) == 0 <==> forall|i: int| 0 <= i < found.len() ==> #[trigger] found[i],
    decreases found.len(),
{
    reveal(Seq::filter);
    if found.len() > 0 {
        let front = found.drop_last();
        gaps_are_what_was_not_found(front);
        assert(found.last() == found[found.len() - 1]);
        assert forall|i: int| 0 <= i < front.len() implies front[i] == #[trigger] found[i] by {}
    }
}

/// Requests begin at the first slot that is absent, behind those that are present.
pub proof fn requests_begin_at_the_first_absent(present: Seq<bool>)
    ensures
        0 <= first_absent(present) <= present.len(),
        forall|i: int| 0 <= i < first_absent(present) ==> #[trigger] present[i],
        first_absent(present) < present.len() ==> !present[first_absent(present)],
    decreases present.len(),
{
    if present.len() > 0 && present[0] {
        let rest = present.skip(1);
        requests_begin_at_the_first_absent(rest);
        assert forall|i: int| 0 <= i < first_absent(present) implies #[trigger] present[i] by {
            if i > 0 {
                assert(rest[i - 1] == present[i]);
            }
        }
    }
}

/// Gaps are looked for up to the head, from the base or from where the window begins, whichever is
/// later; never where one of the two is unknown.
pub proof fn gaps_are_looked_for_within_the_window(
    base: Option<u64>,
    head: Option<u64>,
    window_parts: usize,
)
    ensures
        gap_bounds(base, head, window_parts) is Some <==> base is Some && head is Some,
        base is Some && head is Some ==> ({
            let (first, last) = gap_bounds(base, head, window_parts)->0;
            &&& last == head->0
            &&& first >= base->0
            &&& window_parts > 0 ==> first + window_parts > last
            &&& window_parts == 0 ==> first >= last
            &&& first > base->0 ==> first <= last && (window_parts > 0 ==> first + window_parts
                == last + 1)
        }),
{
}

/// The age of a time is how long ago it was, and nothing where it lies ahead.
pub proof fn ages_are_told_from_now(now_ms: u64, then: u64)
    ensures
        age(now_ms, None) is None,
        age(now_ms, Some(then)) is Some,
        then <= now_ms ==> then + age(now_ms, Some(then))->0 == now_ms,
        then > now_ms ==> age(now_ms, Some(then))->0 == 0,
{
}

/// A stream is told of where any of its slots holds anything. Of the node's own stream its
/// counters are told, where they are ahead of the slots; of others what the slots hold.
pub proof fn streams_with_slots_are_told(
    node_id: Seq<char>,
    config: LiveConfig,
    own: StatsSnapshot,
    known: StreamModel,
    stream: CacheStream,
)
    ensures
        ({
            let told = stream_account(node_id, config, own, known, stream);
            let t = told->0;
            &&& told is Some <==> exists|i: int|
                0 <= i < stream.slots@.len() && ((#[trigger] stream.slots@[i]).hash != 0
                    || stream.slots@[i].bytes > 0)
            &&& told is Some ==> t.node_id == node_id && t.stream_id == stream.stream_id
                && t.mesh_lag_parts is None && t.latest_mesh_part == Some(
                latest_slot(stream.slots@)->0.seq,
            )
            &&& told is Some && stream.stream_id != config.stream_id ==> {
                &&& t.latest_local_part is None && t.latest_local_part_age_ms is None
                &&& t.latest_local_part_duration_ms is None && t.last_ingest_age_ms is None
                &&& t.latest_local_part_bytes == Some(latest_slot(stream.slots@)->0.bytes)
                &&& t.contiguous_object == t.latest_mesh_part
                &&& t.canonical_epoch == known.canonical_epoch
                &&& t.head_object == known.latest_canonical_object
                &&& t.canonical_epoch_activation_delay_us
                    == known.canonical_epoch_activation_delay_us
                &&& t.gap_count == stream.gap_count
                &&& t.bytes_received == filled_bytes(stream.slots@)
            }
            &&& told is Some && stream.stream_id == config.stream_id ==> {
                &&& t.latest_local_part == own.latest_local_part
                &&& t.latest_local_part_age_ms == own.latest_local_part_age_ms
                &&& t.latest_local_part_duration_ms == own.latest_local_part_duration_ms
                &&& t.last_ingest_age_ms == own.last_ingest_age_ms
                &&& t.contiguous_object == own.contiguous_object
                &&& t.canonical_epoch == own.canonical_epoch
                &&& t.head_object == own.head_object && t.gap_count == own.gap_count
                &&& t.bytes_received >= own.bytes_received && t.bytes_received >= filled_bytes(
                    stream.slots@,
                )
                &&& t.bytes_received == own.bytes_received || t.bytes_received == filled_bytes(
                    stream.slots@,
                )
                &&& t.datagrams_received >= own.datagrams_received
                &&& t.datagrams_received == own.datagrams_received || t.datagrams_received
                    == filled_count(stream.slots@) as u64
            }
        }),
{
    the_last_filled_slot_is_the_latest(stream.slots@);
}

/// Streams are told in the order of their numbers.
pub proof fn streams_stand_in_order(list: Seq<StreamTelemetry>)
    ensures
        ranked(list).to_multiset() == list.to_multiset(),
        forall|i: int, j: int|
            0 <= i < j < list.len() ==> (#[trigger] ranked(list)[i]).stream_id
                <= (#[trigger] ranked(list)[j]).stream_id,
{
    ranking_orders(list);
    assert forall|i: int, j: int| 0 <= i < j < list.len() implies (
    #[trigger] ranked(list)[i]).stream_id <= (#[trigger] ranked(list)[j]).stream_id by {
        assert(ranked(list)[i].le(ranked(list)[j]));
    }
}

/// A stream that is told of adds one account behind the others, one without slots adds none.
pub proof fn accounts_follow_their_streams(
    node_id: Seq<char>,
    config: LiveConfig,
    own: StatsSnapshot,
    state: LiveState,
    streams: Seq<CacheStream>,
    stream: CacheStream,
)
    ensures
        ({
            let before = stream_accounts(node_id, config, own, state, streams);
            let after = stream_accounts(node_id, config, own, state, streams.push(stream));
            let account = stream_account(
                node_id,
                config,
                own,
                state.stream(stream.stream_id),
                stream,
            );
            &&& account is Some ==> after == before.push(account->0)
            &&& account is None ==> after == before
        }),
{
    assert(streams.push(stream).drop_last() =~= streams);
}

/// A window of some parts holds so many slots, or all up to its end where there are fewer.
pub proof fn windows_begin_so_many_slots_before_their_end(last: usize, window_parts: usize)
    requires
        window_parts > 0,
    ensures
        first_in_window(last, window_parts) <= last,
        last + 1 >= window_parts ==> last + 1 - first_in_window(last, window_parts)
            == window_parts,
        last + 1 < window_parts ==> first_in_window(last, window_parts) == 0,
        first_in_window(last, 0) == last,
{
}

/// The account of a stream tells its latest part by the last slot that holds anything, its own part
/// by the last that was stored, and its ages from now; what was never seen has none.
pub proof fn accounts_tell_parts_and_ages(
    r: StatsSnapshot,
    state: LiveState,
    config: LiveConfig,
    slots: Seq<SlotInfo>,
    gap_count: Option<u64>,
    now_ms: u64,
)
    requires
        tells_state(r, state, config, slots, gap_count, now_ms),
    ensures
        r.stream_id == config.stream_id,
        match r.latest_mesh_part {
            Some(seq) => exists|i: int|
                0 <= i < slots.len() && (#[trigger] slots[i]).seq == seq && (slots[i].hash != 0
                    || slots[i].bytes > 0) && forall|j: int|
                    i < j < slots.len() ==> (#[trigger] slots[j]).hash == 0 && slots[j].bytes == 0,
            None => forall|j: int|
                0 <= j < slots.len() ==> (#[trigger] slots[j]).hash == 0 && slots[j].bytes == 0,
        },
        r.latest_local_part == state.counters.last_committed_seq,
        state.counters.last_committed_unix_ms is None ==> r.latest_local_part_age_ms is None,
        state.counters.last_ingest_unix_ms is None ==> r.last_ingest_age_ms is None,
        state.counters.last_ingest_unix_ms is Some && state.counters.last_ingest_unix_ms->0
            <= now_ms ==> r.last_ingest_age_ms is Some && state.counters.last_ingest_unix_ms->0
            + r.last_ingest_age_ms->0 == now_ms,
        state.counters.last_committed_unix_ms is Some && state.counters.last_committed_unix_ms->0
            <= now_ms ==> r.latest_local_part_age_ms is Some
            && state.counters.last_committed_unix_ms->0 + r.latest_local_part_age_ms->0 == now_ms,
        r.head_object == state.stream(config.stream_id).latest_canonical_object,
        r.gap_count == gap_count,
        r.bytes_received == state.counters.bytes_received,
        r.current_part_bytes == state.assembly.current@.len(),
{
    the_last_filled_slot_is_the_latest(slots);
}

} // verus!
