//! What a node reports of its streams, and how replicas of a stream compare.

use vstd::prelude::*;
use vstd::string::*;
use crate::live_state::{
    larger, larger_of, oldest_in_window, saturating_diff, saturating_sum, LiveState, StreamModel,
};
use crate::order::{ranked, sort_by_rank, Ranked};
use crate::text::{decimal, decimal_text};

verus! {

pub const MESH_MIN_STALE_INGEST_ALERT_MS: u64 = 5_000;

pub const MESH_STREAM_LAG_WARN_PARTS: u64 = 6;

/// The number of a stream as text.
pub fn stream_id_text(stream_id: u64) -> (r: String)
    ensures
        r@ == decimal(stream_id as nat),
{
    decimal_text(stream_id)
}

/// The account of a node's own stream.
#[derive(Debug)]
pub struct StatsSnapshot {
    pub stream_id: u64,
    pub stream_id_text: String,
    pub part_target_ms: u64,
    pub parts_per_segment: usize,
    pub window_parts: usize,
    pub datagrams_received: u64,
    pub bytes_received: u64,
    pub current_part_bytes: usize,
    pub latest_local_part: Option<u64>,
    pub latest_local_part_bytes: Option<usize>,
    pub latest_local_part_duration_ms: Option<u64>,
    pub latest_mesh_part: Option<u64>,
    pub canonical_epoch: Option<u64>,
    pub canonical_epoch_activation_delay_us: Option<u64>,
    pub contiguous_object: Option<u64>,
    pub head_object: Option<u64>,
    pub gap_count: Option<u64>,
    pub mesh_peers: Vec<String>,
    pub latest_local_part_age_ms: Option<u64>,
    pub last_ingest_age_ms: Option<u64>,
}

/// The account of one stream on one node.
#[derive(Debug)]
pub struct StreamTelemetry {
    pub node_id: String,
    pub stream_id: u64,
    pub stream_id_text: String,
    pub latest_local_part: Option<u64>,
    pub latest_local_part_bytes: Option<usize>,
    pub latest_local_part_duration_ms: Option<u64>,
    pub latest_local_part_age_ms: Option<u64>,
    pub latest_mesh_part: Option<u64>,
    pub canonical_epoch: Option<u64>,
    pub canonical_epoch_activation_delay_us: Option<u64>,
    pub contiguous_object: Option<u64>,
    pub head_object: Option<u64>,
    pub gap_count: Option<u64>,
    pub bytes_received: u64,
    pub datagrams_received: u64,
    pub last_ingest_age_ms: Option<u64>,
    pub stale_threshold_ms: Option<u64>,
    pub mesh_lag_parts: Option<u64>,
}

/// The account of one stream on one node.
#[verifier::ext_equal]
pub struct TelemetryModel {
    pub node_id: Seq<char>,
    pub stream_id: u64,
    pub stream_id_text: Seq<char>,
    pub latest_local_part: Option<u64>,
    pub latest_local_part_bytes: Option<usize>,
    pub latest_local_part_duration_ms: Option<u64>,
    pub latest_local_part_age_ms: Option<u64>,
    pub latest_mesh_part: Option<u64>,
    pub canonical_epoch: Option<u64>,
    pub canonical_epoch_activation_delay_us: Option<u64>,
    pub contiguous_object: Option<u64>,
    pub head_object: Option<u64>,
    pub gap_count: Option<u64>,
    pub bytes_received: u64,
    pub datagrams_received: u64,
    pub last_ingest_age_ms: Option<u64>,
    pub stale_threshold_ms: Option<u64>,
    pub mesh_lag_parts: Option<u64>,
}

impl View for StreamTelemetry {
    type V = TelemetryModel;

    open spec fn view(&self) -> TelemetryModel {
        TelemetryModel {
            node_id: self.node_id@,
            stream_id: self.stream_id,
            stream_id_text: self.stream_id_text@,
            latest_local_part: self.latest_local_part,
            latest_local_part_bytes: self.latest_local_part_bytes,
            latest_local_part_duration_ms: self.latest_local_part_duration_ms,
            latest_local_part_age_ms: self.latest_local_part_age_ms,
            latest_mesh_part: self.latest_mesh_part,
            canonical_epoch: self.canonical_epoch,
            canonical_epoch_activation_delay_us: self.canonical_epoch_activation_delay_us,
            contiguous_object: self.contiguous_object,
            head_object: self.head_object,
            gap_count: self.gap_count,
            bytes_received: self.bytes_received,
            datagrams_received: self.datagrams_received,
            last_ingest_age_ms: self.last_ingest_age_ms,
            stale_threshold_ms: self.stale_threshold_ms,
            mesh_lag_parts: self.mesh_lag_parts,
        }
    }
}

/// The accounts of a list.
pub open spec fn telemetry_views(list: Seq<StreamTelemetry>) -> Seq<TelemetryModel> {
    list.map_values(|s: StreamTelemetry| s@)
}

/// How long a stream may be without bytes: its window, or five seconds where that is shorter.
pub open spec fn stale_threshold(part_target_ms: u64, window_parts: usize) -> u64 {
    let window: int = part_target_ms * window_parts;
    if window > u64::MAX {
        u64::MAX
    } else {
        larger(window as u64, MESH_MIN_STALE_INGEST_ALERT_MS)
    }
}

/// How long a stream may be without bytes.
pub fn stream_stale_threshold_ms(part_target_ms: u64, window_parts: usize) -> (r: u64)
    ensures
        r == stale_threshold(part_target_ms, window_parts),
{
    let window: u64 = match part_target_ms.checked_mul(window_parts as u64) {
        Some(product) => product,
        None => u64::MAX,
    };
    larger_of(window, MESH_MIN_STALE_INGEST_ALERT_MS)
}

impl TelemetryModel {
    /// Whether anything of the stream is there.
    pub open spec fn is_active(self) -> bool {
        self.latest_local_part is Some || self.latest_mesh_part is Some || self.head_object is Some
    }

    /// Whether the stream is there and has been without bytes for too long.
    pub open spec fn is_stale(self) -> bool {
        self.is_active() && self.last_ingest_age_ms is Some && self.last_ingest_age_ms->0 > (
        match self.stale_threshold_ms {
            Some(threshold) => threshold,
            None => MESH_MIN_STALE_INGEST_ALERT_MS,
        })
    }

    /// The object by which replicas compare.
    pub open spec fn comparable(self) -> Option<u64> {
        if self.contiguous_object is Some {
            self.contiguous_object
        } else {
            self.latest_mesh_part
        }
    }

    /// Whether the replica is too far behind.
    pub open spec fn is_lagging(self) -> bool {
        self.mesh_lag_parts is Some && self.mesh_lag_parts->0 > MESH_STREAM_LAG_WARN_PARTS
    }
}

/// The account of a node's own stream, as one of its streams.
pub open spec fn stats_telemetry(node_id: Seq<char>, stats: StatsSnapshot) -> TelemetryModel {
    TelemetryModel {
        node_id,
        stream_id: stats.stream_id,
        stream_id_text: decimal(stats.stream_id as nat),
        latest_local_part: stats.latest_local_part,
        latest_local_part_bytes: stats.latest_local_part_bytes,
        latest_local_part_duration_ms: stats.latest_local_part_duration_ms,
        latest_local_part_age_ms: stats.latest_local_part_age_ms,
        latest_mesh_part: stats.latest_mesh_part,
        canonical_epoch: stats.canonical_epoch,
        canonical_epoch_activation_delay_us: stats.canonical_epoch_activation_delay_us,
        contiguous_object: stats.contiguous_object,
        head_object: stats.head_object,
        gap_count: stats.gap_count,
        bytes_received: stats.bytes_received,
        datagrams_received: stats.datagrams_received,
        last_ingest_age_ms: stats.last_ingest_age_ms,
        stale_threshold_ms: Some(stale_threshold(stats.part_target_ms, stats.window_parts)),
        mesh_lag_parts: None,
    }
}

impl StreamTelemetry {
    /// The account of a node's own stream, as one of its streams.
    pub fn from_stats(node_id: String, stats: &StatsSnapshot) -> (r: Self)
        ensures
            r@ == stats_telemetry(node_id@, *stats),
            r.node_id == node_id,
    {
        StreamTelemetry {
            node_id,
            stream_id: stats.stream_id,
            stream_id_text: stream_id_text(stats.stream_id),
            latest_local_part: stats.latest_local_part,
            latest_local_part_bytes: stats.latest_local_part_bytes,
            latest_local_part_duration_ms: stats.latest_local_part_duration_ms,
            latest_local_part_age_ms: stats.latest_local_part_age_ms,
            latest_mesh_part: stats.latest_mesh_part,
            canonical_epoch: stats.canonical_epoch,
            canonical_epoch_activation_delay_us: stats.canonical_epoch_activation_delay_us,
            contiguous_object: stats.contiguous_object,
            head_object: stats.head_object,
            gap_count: stats.gap_count,
            bytes_received: stats.bytes_received,
            datagrams_received: stats.datagrams_received,
            last_ingest_age_ms: stats.last_ingest_age_ms,
            stale_threshold_ms: Some(
                stream_stale_threshold_ms(stats.part_target_ms, stats.window_parts),
            ),
            mesh_lag_parts: None,
        }
    }

    /// Another copy of the account.
    pub fn copy(&self) -> (r: Self)
        ensures
            r == *self,
    {
        StreamTelemetry {
            node_id: self.node_id.clone(),
            stream_id: self.stream_id,
            stream_id_text: self.stream_id_text.clone(),
            latest_local_part: self.latest_local_part,
            latest_local_part_bytes: self.latest_local_part_bytes,
            latest_local_part_duration_ms: self.latest_local_part_duration_ms,
            latest_local_part_age_ms: self.latest_local_part_age_ms,
            latest_mesh_part: self.latest_mesh_part,
            canonical_epoch: self.canonical_epoch,
            canonical_epoch_activation_delay_us: self.canonical_epoch_activation_delay_us,
            contiguous_object: self.contiguous_object,
            head_object: self.head_object,
            gap_count: self.gap_count,
            bytes_received: self.bytes_received,
            datagrams_received: self.datagrams_received,
            last_ingest_age_ms: self.last_ingest_age_ms,
            stale_threshold_ms: self.stale_threshold_ms,
            mesh_lag_parts: self.mesh_lag_parts,
        }
    }

    /// Whether anything of the stream is there.
    pub fn active(&self) -> (r: bool)
        ensures
            r == self@.is_active(),
    {
        self.latest_local_part.is_some() || self.latest_mesh_part.is_some()
            || self.head_object.is_some()
    }

    /// Whether the stream is there and has been without bytes for too long.
    pub fn stale(&self) -> (r: bool)
        ensures
            r == self@.is_stale(),
    {
        if !self.active() {
            return false;
        }
        match self.last_ingest_age_ms {
            Some(age_ms) => {
                let threshold: u64 = match self.stale_threshold_ms {
                    Some(threshold) => threshold,
                    None => MESH_MIN_STALE_INGEST_ALERT_MS,
                };
                age_ms > threshold
            },
            None => false,
        }
    }

    /// The object by which replicas compare.
    pub fn latest_comparable_object(&self) -> (r: Option<u64>)
        ensures
            r == self@.comparable(),
    {
        if self.contiguous_object.is_some() {
            self.contiguous_object
        } else {
            self.latest_mesh_part
        }
    }

    /// Whether the replica is too far behind.
    pub fn lagging(&self) -> (r: bool)
        ensures
            r == self@.is_lagging(),
    {
        match self.mesh_lag_parts {
            Some(lag) => lag > MESH_STREAM_LAG_WARN_PARTS,
            None => false,
        }
    }
}

/// Whether two accounts are of the same stream in the same source epoch.
pub open spec fn same_publication(a: TelemetryModel, b: TelemetryModel) -> bool {
    a.stream_id == b.stream_id && a.canonical_epoch == b.canonical_epoch
}

/// The furthest object among the replicas of a publication.
pub open spec fn head_of(list: Seq<TelemetryModel>, of: TelemetryModel) -> u64
    decreases list.len(),
{
    if list.len() == 0 {
        0
    } else {
        let front = head_of(list.drop_last(), of);
        let last = list.last();
        if same_publication(last, of) && last.comparable() is Some {
            larger(front, last.comparable()->0)
        } else {
            front
        }
    }
}

/// How far a replica is behind the furthest replica of the same stream and epoch; nothing
/// where it has no object to compare.
pub open spec fn lag_of(list: Seq<TelemetryModel>, of: TelemetryModel) -> Option<u64> {
    match of.comparable() {
        Some(part) => Some(saturating_diff(head_of(list, of), part)),
        None => None,
    }
}

/// The accounts with the lag of each replica.
pub open spec fn annotated(list: Seq<TelemetryModel>) -> Seq<TelemetryModel> {
    list.map_values(
        |s: TelemetryModel| TelemetryModel { mesh_lag_parts: lag_of(list, s), ..s },
    )
}

proof fn lemma_head_bounds(list: Seq<TelemetryModel>, of: TelemetryModel, i: int)
    requires
        0 <= i < list.len(),
        same_publication(list[i], of),
        list[i].comparable() is Some,
    ensures
        head_of(list, of) >= list[i].comparable()->0,
    decreases list.len(),
{
    if i < list.len() - 1 {
        assert(list.drop_last()[i] == list[i]);
        lemma_head_bounds(list.drop_last(), of, i);
    }
}

proof fn lemma_head_attained(list: Seq<TelemetryModel>, of: TelemetryModel)
    ensures
        head_of(list, of) == 0 || exists|i: int|
            0 <= i < list.len() && same_publication(#[trigger] list[i], of)
                && list[i].comparable() == Some(head_of(list, of)),
    decreases list.len(),
{
    if list.len() > 0 {
        let front = list.drop_last();
        lemma_head_attained(front, of);
        if head_of(list, of) != 0 {
            let last = list.last();
            if same_publication(last, of) && last.comparable() is Some && last.comparable()->0
                >= head_of(front, of) {
                assert(list[list.len() - 1] == last);
            } else {
                let i = choose|i: int|
                    0 <= i < front.len() && same_publication(#[trigger] front[i], of)
                        && front[i].comparable() == Some(head_of(front, of));
                assert(list[i] == front[i]);
            }
        }
    }
}

/// Lag is measured from the furthest replica of the same stream and epoch: no replica of a
/// publication is ahead of its head, one of them is at the head, and a replica without an
/// object to compare has no lag. Replicas of another epoch play no part.
pub proof fn lag_is_measured_within_a_publication(list: Seq<TelemetryModel>, i: int)
    requires
        0 <= i < list.len(),
    ensures
        annotated(list)[i].mesh_lag_parts is Some <==> list[i].comparable() is Some,
        list[i].comparable() is Some ==> list[i].comparable()->0
            + annotated(list)[i].mesh_lag_parts->0 == head_of(list, list[i]),
        list[i].comparable() is Some ==> exists|j: int|
            0 <= j < list.len() && same_publication(#[trigger] list[j], list[i])
                && list[j].comparable() == Some(head_of(list, list[i])),
        forall|other: TelemetryModel|
            !same_publication(other, list[i]) ==> #[trigger] head_of(list.push(other), list[i])
                == head_of(list, list[i]),
{
    if list[i].comparable() is Some {
        lemma_head_bounds(list, list[i], i);
        lemma_head_attained(list, list[i]);
        if head_of(list, list[i]) == 0 {
            assert(list[i].comparable() == Some(0u64));
        }
    }
    assert forall|other: TelemetryModel| !same_publication(other, list[i]) implies
        #[trigger] head_of(list.push(other), list[i]) == head_of(list, list[i]) by {
        assert(list.push(other).drop_last() =~= list);
    }
}

fn head_in(streams: &Vec<StreamTelemetry>, stream_id: u64, epoch: Option<u64>, of: Ghost<
    TelemetryModel,
>) -> (r: u64)
    requires
        of@.stream_id == stream_id,
        of@.canonical_epoch == epoch,
    ensures
        r == head_of(telemetry_views(streams@), of@),
{
    let ghost list = telemetry_views(streams@);
    let mut head: u64 = 0;
    let mut i: usize = 0;
    proof {
        assert(list.take(0) =~= Seq::<TelemetryModel>::empty());
    }
    while i < streams.len()
        invariant
            list == telemetry_views(streams@),
            i <= streams.len(),
            of@.stream_id == stream_id,
            of@.canonical_epoch == epoch,
            head == head_of(list.take(i as int), of@),
        decreases streams.len() - i,
    {
        proof {
            assert(list.take(i + 1).drop_last() =~= list.take(i as int));
            assert(list.take(i + 1).last() == streams@[i as int]@);
        }
        let stream = &streams[i];
        if stream.stream_id == stream_id && stream.canonical_epoch == epoch {
            match stream.latest_comparable_object() {
                Some(part) => {
                    head = larger_of(head, part);
                },
                None => {},
            }
        }
        i = i + 1;
    }
    proof {
        assert(list.take(i as int) =~= list);
    }
    head
}

/// Notes on every replica how far it is behind the head of its publication.
pub fn annotate_stream_lag(streams: &mut Vec<StreamTelemetry>)
    ensures
        telemetry_views(final(streams)@) == annotated(telemetry_views(old(streams)@)),
        final(streams)@.len() == old(streams)@.len(),
        forall|i: int|
            0 <= i < old(streams)@.len() ==> #[trigger] final(streams)@[i] == (StreamTelemetry {
                mesh_lag_parts: lag_of(telemetry_views(old(streams)@), old(streams)@[i]@),
                ..old(streams)@[i]
            }),
{
    let ghost before = streams@;
    let ghost list = telemetry_views(before);
    let mut lags: Vec<Option<u64>> = Vec::new();
    let mut i: usize = 0;
    while i < streams.len()
        invariant
            streams@ == before,
            list == telemetry_views(before),
            i <= streams.len(),
            lags@.len() == i,
            forall|j: int| 0 <= j < i ==> #[trigger] lags@[j] == lag_of(list, before[j]@),
        decreases streams.len() - i,
    {
        let lag: Option<u64> = match streams[i].latest_comparable_object() {
            Some(part) => {
                let head: u64 = head_in(
                    streams,
                    streams[i].stream_id,
                    streams[i].canonical_epoch,
                    Ghost(before[i as int]@),
                );
                Some(head.saturating_sub(part))
            },
            None => None,
        };
        lags.push(lag);
        i = i + 1;
    }
    i = 0;
    while i < streams.len()
        invariant
            streams@.len() == before.len(),
            lags@.len() == before.len(),
            i <= streams@.len(),
            forall|j: int|
                0 <= j < before.len() ==> #[trigger] lags@[j] == lag_of(list, before[j]@),
            forall|j: int|
                0 <= j < i ==> #[trigger] streams@[j] == (StreamTelemetry {
                    mesh_lag_parts: lag_of(list, before[j]@),
                    ..before[j]
                }),
            forall|j: int| i <= j < before.len() ==> #[trigger] streams@[j] == before[j],
        decreases streams@.len() - i,
    {
        let lag: Option<u64> = lags[i];
        streams[i].mesh_lag_parts = lag;
        i = i + 1;
    }
    proof {
        assert(telemetry_views(streams@) =~= annotated(list));
    }
}

/// Whether a stream is there in an epoch.
pub open spec fn has_epoch(list: Seq<TelemetryModel>, stream_id: u64, epoch: u64) -> bool {
    exists|i: int|
        0 <= i < list.len() && (#[trigger] list[i]).stream_id == stream_id
            && list[i].canonical_epoch == Some(epoch)
}

/// The number of source epochs that a stream is split across.
pub open spec fn epoch_count(list: Seq<TelemetryModel>, stream_id: u64) -> nat
    decreases list.len(),
{
    if list.len() == 0 {
        0
    } else {
        let front = list.drop_last();
        let last = list.last();
        epoch_count(front, stream_id) + if last.stream_id == stream_id && last.canonical_epoch
            is Some && !has_epoch(front, stream_id, last.canonical_epoch->0) {
            1nat
        } else {
            0nat
        }
    }
}

/// Whether a stream is there.
pub open spec fn has_stream(list: Seq<TelemetryModel>, stream_id: u64) -> bool {
    exists|i: int| 0 <= i < list.len() && (#[trigger] list[i]).stream_id == stream_id
}

/// The number of streams among the first `k` accounts that are split across epochs in the
/// whole list.
pub open spec fn divergent_count(list: Seq<TelemetryModel>, k: int) -> nat
    decreases k,
{
    if k <= 0 {
        0
    } else {
        let stream_id = list[k - 1].stream_id;
        divergent_count(list, k - 1) + if !has_stream(list.take(k - 1), stream_id) && epoch_count(
            list,
            stream_id,
        ) > 1 {
            1nat
        } else {
            0nat
        }
    }
}

fn find_epoch(streams: &Vec<StreamTelemetry>, upto: usize, stream_id: u64, epoch: u64) -> (r: bool)
    requires
        upto <= streams.len(),
    ensures
        r == has_epoch(telemetry_views(streams@).take(upto as int), stream_id, epoch),
{
    let ghost list = telemetry_views(streams@).take(upto as int);
    let mut i: usize = 0;
    while i < upto
        invariant
            i <= upto <= streams.len(),
            list == telemetry_views(streams@).take(upto as int),
            forall|j: int|
                0 <= j < i ==> !((#[trigger] list[j]).stream_id == stream_id
                    && list[j].canonical_epoch == Some(epoch)),
        decreases upto - i,
    {
        assert(list[i as int] == streams@[i as int]@);
        if streams[i].stream_id == stream_id {
            match streams[i].canonical_epoch {
                Some(e) => {
                    if e == epoch {
                        return true;
                    }
                },
                None => {},
            }
        }
        i = i + 1;
    }
    false
}

/// The number of source epochs that a stream is split across.
pub fn count_epochs(streams: &Vec<StreamTelemetry>, stream_id: u64) -> (r: usize)
    ensures
        r == epoch_count(telemetry_views(streams@), stream_id),
{
    let ghost list = telemetry_views(streams@);
    let mut count: usize = 0;
    let mut i: usize = 0;
    proof {
        assert(list.take(0) =~= Seq::<TelemetryModel>::empty());
    }
    while i < streams.len()
        invariant
            list == telemetry_views(streams@),
            i <= streams.len(),
            count <= i,
            count == epoch_count(list.take(i as int), stream_id),
        decreases streams.len() - i,
    {
        proof {
            assert(list.take(i + 1).drop_last() =~= list.take(i as int));
            assert(list.take(i + 1).last() == streams@[i as int]@);
        }
        if streams[i].stream_id == stream_id {
            match streams[i].canonical_epoch {
                Some(epoch) => {
                    if !find_epoch(streams, i, stream_id, epoch) {
                        count = count + 1;
                    }
                },
                None => {},
            }
        }
        i = i + 1;
    }
    proof {
        assert(list.take(i as int) =~= list);
    }
    count
}

fn find_stream(streams: &Vec<StreamTelemetry>, upto: usize, stream_id: u64) -> (r: bool)
    requires
        upto <= streams.len(),
    ensures
        r == has_stream(telemetry_views(streams@).take(upto as int), stream_id),
{
    let ghost list = telemetry_views(streams@).take(upto as int);
    let mut i: usize = 0;
    while i < upto
        invariant
            i <= upto <= streams.len(),
            list == telemetry_views(streams@).take(upto as int),
            forall|j: int| 0 <= j < i ==> (#[trigger] list[j]).stream_id != stream_id,
        decreases upto - i,
    {
        assert(list[i as int] == streams@[i as int]@);
        if streams[i].stream_id == stream_id {
            return true;
        }
        i = i + 1;
    }
    false
}

/// The number of streams that are split across source epochs.
pub fn canonical_epoch_divergent_stream_count(streams: &Vec<StreamTelemetry>) -> (r: usize)
    ensures
        r == divergent_count(telemetry_views(streams@), streams@.len() as int),
{
    let mut count: usize = 0;
    let mut i: usize = 0;
    while i < streams.len()
        invariant
            i <= streams.len(),
            count <= i,
            count == divergent_count(telemetry_views(streams@), i as int),
        decreases streams.len() - i,
    {
        let stream_id: u64 = streams[i].stream_id;
        assert(telemetry_views(streams@)[i as int].stream_id == stream_id);
        if !find_stream(streams, i, stream_id) && count_epochs(streams, stream_id) > 1 {
            count = count + 1;
        }
        i = i + 1;
    }
    count
}

/// The position of the first account of a stream that is split across epochs.
pub open spec fn first_divergent(list: Seq<TelemetryModel>, from: int) -> Option<int>
    decreases list.len() - from,
{
    if from < 0 || from >= list.len() {
        None
    } else if epoch_count(list, list[from].stream_id) > 1 {
        Some(from)
    } else {
        first_divergent(list, from + 1)
    }
}

/// The position of the first account of a stream that is split across epochs.
pub fn find_divergent(streams: &Vec<StreamTelemetry>) -> (r: Option<usize>)
    ensures
        match r {
            Some(i) => i < streams@.len() && first_divergent(telemetry_views(streams@), 0) == Some(
                i as int,
            ),
            None => first_divergent(telemetry_views(streams@), 0) is None,
        },
{
    let mut i: usize = 0;
    while i < streams.len()
        invariant
            i <= streams.len(),
            first_divergent(telemetry_views(streams@), 0) == first_divergent(
                telemetry_views(streams@),
                i as int,
            ),
        decreases streams.len() - i,
    {
        assert(telemetry_views(streams@)[i as int].stream_id == streams@[i as int].stream_id);
        if count_epochs(streams, streams[i].stream_id) > 1 {
            return Some(i);
        }
        i = i + 1;
    }
    None
}

/// The epochs in which a stream is told of.
pub open spec fn epochs_of(list: Seq<TelemetryModel>, stream_id: u64) -> Set<u64> {
    Set::new(
        |epoch: u64|
            exists|i: int|
                0 <= i < list.len() && (#[trigger] list[i]).stream_id == stream_id
                    && list[i].canonical_epoch == Some(epoch),
    )
}

/// Whether two accounts tell of a stream in two epochs.
pub open spec fn two_epochs(list: Seq<TelemetryModel>, stream_id: u64, a: int, b: int) -> bool {
    list[a].stream_id == stream_id && list[b].stream_id == stream_id && list[a].canonical_epoch
        is Some && list[b].canonical_epoch is Some && list[a].canonical_epoch->0
        != list[b].canonical_epoch->0
}

/// The epochs of a stream are counted once each, and there is more than one exactly where two
/// accounts differ.
pub proof fn epochs_are_counted(list: Seq<TelemetryModel>, stream_id: u64)
    ensures
        epochs_of(list, stream_id).finite(),
        epoch_count(list, stream_id) == epochs_of(list, stream_id).len(),
        epoch_count(list, stream_id) <= list.len(),
        epoch_count(list, stream_id) > 1 <==> exists|a: int, b: int|
            0 <= a < list.len() && 0 <= b < list.len() && #[trigger] two_epochs(
                list,
                stream_id,
                a,
                b,
            ),
{
    lemma_epochs(list, stream_id);
    lemma_two_epochs(list, stream_id);
}

proof fn lemma_epochs(list: Seq<TelemetryModel>, stream_id: u64)
    ensures
        epochs_of(list, stream_id).finite(),
        epoch_count(list, stream_id) == epochs_of(list, stream_id).len(),
        epoch_count(list, stream_id) <= list.len(),
    decreases list.len(),
{
    let all = epochs_of(list, stream_id);
    if list.len() == 0 {
        assert(all =~= Set::<u64>::empty());
    } else {
        let front = list.drop_last();
        let last = list.last();
        let n = list.len() - 1;
        lemma_epochs(front, stream_id);
        let before = epochs_of(front, stream_id);
        assert(last == list[n]);
        assert forall|i: int| 0 <= i < n implies front[i] == #[trigger] list[i] by {}
        assert forall|e: u64| #[trigger] all.contains(e) implies before.contains(e) || (
        last.stream_id == stream_id && last.canonical_epoch == Some(e)) by {
            let i = choose|i: int|
                0 <= i < list.len() && (#[trigger] list[i]).stream_id == stream_id
                    && list[i].canonical_epoch == Some(e);
            if i < n {
                assert(front[i] == list[i]);
            }
        }
        assert forall|e: u64| #[trigger] before.contains(e) implies all.contains(e) by {
            let i = choose|i: int|
                0 <= i < front.len() && (#[trigger] front[i]).stream_id == stream_id
                    && front[i].canonical_epoch == Some(e);
            assert(list[i] == front[i]);
        }
        if last.stream_id == stream_id && last.canonical_epoch is Some {
            let e = last.canonical_epoch->0;
            assert(all.contains(e)) by {
                assert(list[n].stream_id == stream_id);
            }
            assert(all =~= before.insert(e));
            assert(has_epoch(front, stream_id, e) == before.contains(e));
        } else {
            assert(all =~= before);
        }
    }
}

proof fn lemma_two_epochs(list: Seq<TelemetryModel>, stream_id: u64)
    ensures
        epoch_count(list, stream_id) == 0 <==> forall|e: u64|
            !#[trigger] has_epoch(list, stream_id, e),
        epoch_count(list, stream_id) > 1 <==> exists|a: int, b: int|
            0 <= a < list.len() && 0 <= b < list.len() && #[trigger] two_epochs(
                list,
                stream_id,
                a,
                b,
            ),
    decreases list.len(),
{
    if list.len() > 0 {
        let front = list.drop_last();
        let last = list.last();
        let n = list.len() - 1;
        lemma_two_epochs(front, stream_id);
        assert(last == list[n]);
        assert forall|i: int| 0 <= i < n implies front[i] == #[trigger] list[i] by {}
        assert forall|e: u64| #[trigger] has_epoch(front, stream_id, e) implies has_epoch(
            list,
            stream_id,
            e,
        ) by {
            let i = choose|i: int|
                0 <= i < front.len() && (#[trigger] front[i]).stream_id == stream_id
                    && front[i].canonical_epoch == Some(e);
            assert(list[i] == front[i]);
        }
        assert forall|e: u64| #[trigger] has_epoch(list, stream_id, e) implies has_epoch(
            front,
            stream_id,
            e,
        ) || (last.stream_id == stream_id && last.canonical_epoch == Some(e)) by {
            let i = choose|i: int|
                0 <= i < list.len() && (#[trigger] list[i]).stream_id == stream_id
                    && list[i].canonical_epoch == Some(e);
            if i < n {
                assert(front[i] == list[i]);
            }
        }
        if last.stream_id == stream_id && last.canonical_epoch is Some {
            let e = last.canonical_epoch->0;
            assert(has_epoch(list, stream_id, e));
        }
        if epoch_count(front, stream_id) > 1 {
            let (a, b) = choose|a: int, b: int|
                0 <= a < front.len() && 0 <= b < front.len() && #[trigger] two_epochs(
                    front,
                    stream_id,
                    a,
                    b,
                );
            assert(front[a] == list[a] && front[b] == list[b]);
            assert(two_epochs(list, stream_id, a, b));
        } else {
            assert forall|a: int, b: int|
                0 <= a < list.len() && 0 <= b < list.len() && #[trigger] two_epochs(
                    list,
                    stream_id,
                    a,
                    b,
                ) implies epoch_count(list, stream_id) > 1 by {
                if a < n && b < n {
                    assert(two_epochs(front, stream_id, a, b));
                } else {
                    let c = if a < n {
                        a
                    } else {
                        b
                    };
                    assert(front[c] == list[c]);
                    assert(has_epoch(front, stream_id, list[c].canonical_epoch->0));
                    let e = last.canonical_epoch->0;
                    if has_epoch(front, stream_id, e) {
                        let d = choose|d: int|
                            0 <= d < front.len() && (#[trigger] front[d]).stream_id == stream_id
                                && front[d].canonical_epoch == Some(e);
                        assert(two_epochs(front, stream_id, c, d));
                    }
                }
            }
            if epoch_count(list, stream_id) > 1 {
                let e = choose|e: u64| #[trigger] has_epoch(front, stream_id, e);
                let c = choose|c: int|
                    0 <= c < front.len() && (#[trigger] front[c]).stream_id == stream_id
                        && front[c].canonical_epoch == Some(e);
                assert(list[c] == front[c]);
                assert(two_epochs(list, stream_id, c, n));
            }
        }
    }
}

/// The part that a stream has reached: its last object without a gap, else its latest part in the
/// mesh.
pub open spec fn reached(s: TelemetryModel) -> Option<u64> {
    match s.contiguous_object {
        Some(object) => Some(object),
        None => s.latest_mesh_part,
    }
}

/// A stream lags by as many parts as the farthest account of the same stream and epoch is ahead of
/// it; accounts that have reached nothing lag by nothing known, and nothing else changes.
pub proof fn lag_is_the_distance_to_the_farthest(list: Seq<TelemetryModel>, i: int)
    requires
        0 <= i < list.len(),
    ensures
        annotated(list).len() == list.len(),
        annotated(list)[i] == (TelemetryModel {
            mesh_lag_parts: annotated(list)[i].mesh_lag_parts,
            ..list[i]
        }),
        annotated(list)[i].mesh_lag_parts is Some <==> reached(list[i]) is Some,
        reached(list[i]) is Some ==> exists|j: int|
            0 <= j < list.len() && (#[trigger] list[j]).stream_id == list[i].stream_id
                && list[j].canonical_epoch == list[i].canonical_epoch && reached(list[j]) is Some
                && reached(list[j])->0 == reached(list[i])->0 + annotated(list)[i].mesh_lag_parts->0,
        reached(list[i]) is Some ==> forall|j: int|
            0 <= j < list.len() && (#[trigger] list[j]).stream_id == list[i].stream_id
                && list[j].canonical_epoch == list[i].canonical_epoch && reached(list[j]) is Some
                ==> reached(list[j])->0 <= reached(list[i])->0
                + annotated(list)[i].mesh_lag_parts->0,
{
    lag_is_measured_within_a_publication(list, i);
    assert forall|j: int| 0 <= j < list.len() implies #[trigger] list[j].comparable() == reached(
        list[j],
    ) by {}
    if reached(list[i]) is Some {
        let j = choose|j: int|
            0 <= j < list.len() && same_publication(#[trigger] list[j], list[i])
                && list[j].comparable() == Some(head_of(list, list[i]));
        assert(reached(list[j])->0 == reached(list[i])->0 + annotated(list)[i].mesh_lag_parts->0);
        assert forall|j: int|
            0 <= j < list.len() && (#[trigger] list[j]).stream_id == list[i].stream_id
                && list[j].canonical_epoch == list[i].canonical_epoch && reached(list[j])
                is Some implies reached(list[j])->0 <= head_of(list, list[i]) by {
            lemma_head_bounds(list, list[i], j);
        }
    }
}

/// A stream is stale after its window, and never before five seconds.
pub proof fn staleness_waits_for_the_window(part_target_ms: u64, window_parts: usize)
    ensures
        stale_threshold(part_target_ms, window_parts) >= 5_000,
        part_target_ms * window_parts <= 5_000 ==> stale_threshold(part_target_ms, window_parts)
            == 5_000,
        5_000 <= part_target_ms * window_parts <= u64::MAX ==> stale_threshold(
            part_target_ms,
            window_parts,
        ) == part_target_ms * window_parts,
        part_target_ms * window_parts > u64::MAX ==> stale_threshold(part_target_ms, window_parts)
            == u64::MAX,
{
}

/// The telemetry of a stream tells what its account says, under the node's name.
pub proof fn telemetry_tells_the_account(node_id: Seq<char>, stats: StatsSnapshot)
    ensures
        ({
            let t = stats_telemetry(node_id, stats);
            &&& t.node_id == node_id && t.stream_id == stats.stream_id
            &&& t.latest_local_part == stats.latest_local_part
            &&& t.latest_local_part_bytes == stats.latest_local_part_bytes
            &&& t.latest_local_part_duration_ms == stats.latest_local_part_duration_ms
            &&& t.latest_local_part_age_ms == stats.latest_local_part_age_ms
            &&& t.latest_mesh_part == stats.latest_mesh_part
            &&& t.canonical_epoch == stats.canonical_epoch
            &&& t.canonical_epoch_activation_delay_us == stats.canonical_epoch_activation_delay_us
            &&& t.contiguous_object == stats.contiguous_object
            &&& t.head_object == stats.head_object && t.gap_count == stats.gap_count
            &&& t.bytes_received == stats.bytes_received
            &&& t.datagrams_received == stats.datagrams_received
            &&& t.last_ingest_age_ms == stats.last_ingest_age_ms
            &&& t.mesh_lag_parts is None
            &&& t.is_stale() ==> stats.last_ingest_age_ms is Some && stats.last_ingest_age_ms->0
                > 5_000 && stats.last_ingest_age_ms->0 > stats.part_target_ms * stats.window_parts
            &&& t.is_lagging() == false
        }),
{
}

/// The streams that are told of in two epochs.
pub open spec fn divergent_ids(list: Seq<TelemetryModel>) -> Set<u64> {
    Set::new(
        |id: u64|
            exists|a: int, b: int|
                0 <= a < list.len() && 0 <= b < list.len() && #[trigger] two_epochs(
                    list,
                    id,
                    a,
                    b,
                ),
    )
}

spec fn divergent_before(list: Seq<TelemetryModel>, k: int) -> Set<u64> {
    Set::new(
        |id: u64| divergent_ids(list).contains(id) && has_stream(list.take(k), id),
    )
}

/// Streams that diverge are counted once each, however many nodes tell of them.
pub proof fn divergent_streams_are_counted_once(list: Seq<TelemetryModel>)
    ensures
        divergent_ids(list).finite(),
        divergent_count(list, list.len() as int) == divergent_ids(list).len(),
{
    let n = list.len() as int;
    lemma_divergent(list, n);
    assert(list.take(n) =~= list);
    assert forall|id: u64| #[trigger] divergent_ids(list).contains(id) implies has_stream(
        list,
        id,
    ) by {
        let (a, b) = choose|a: int, b: int|
            0 <= a < list.len() && 0 <= b < list.len() && #[trigger] two_epochs(list, id, a, b);
        assert(list[a].stream_id == id);
    }
    assert(divergent_before(list, n) =~= divergent_ids(list));
}

proof fn lemma_divergent(list: Seq<TelemetryModel>, k: int)
    requires
        0 <= k <= list.len(),
    ensures
        divergent_before(list, k).finite(),
        divergent_count(list, k) == divergent_before(list, k).len(),
    decreases k,
{
    let all = divergent_before(list, k);
    if k == 0 {
        assert forall|id: u64| !#[trigger] all.contains(id) by {
            assert(list.take(0).len() == 0);
        }
        assert(all =~= Set::<u64>::empty());
    } else {
        lemma_divergent(list, k - 1);
        let before = divergent_before(list, k - 1);
        let id = list[k - 1].stream_id;
        epochs_are_counted(list, id);
        let front = list.take(k - 1);
        let whole = list.take(k);
        assert(whole[k - 1].stream_id == id);
        assert forall|x: u64| #[trigger] has_stream(whole, x) <==> has_stream(front, x) || x
            == id by {
            if has_stream(whole, x) {
                let i = choose|i: int|
                    0 <= i < whole.len() && (#[trigger] whole[i]).stream_id == x;
                if i < k - 1 {
                    assert(front[i] == whole[i]);
                }
            }
            if has_stream(front, x) {
                let i = choose|i: int|
                    0 <= i < front.len() && (#[trigger] front[i]).stream_id == x;
                assert(whole[i] == front[i]);
            }
            if x == id {
                assert(whole[k - 1].stream_id == x);
            }
        }
        if epoch_count(list, id) > 1 {
            assert(divergent_ids(list).contains(id));
            assert(all =~= before.insert(id));
        } else {
            assert(!divergent_ids(list).contains(id));
            assert(all =~= before);
        }
    }
}

} // verus!
