//! The live state of a node: what was ingested, committed and published, per stream.

use std::collections::HashMap;
use vstd::prelude::*;
use crate::bytes::{copy_bytes, extend_bytes};
use crate::media::LiveMediaKind;
use crate::table::{keep_from, numbers_of};

verus! {

/// What a node knows of one stream.
#[derive(Debug)]
pub struct StreamState {
    pub next_seq: Option<u64>,
    pub canonical_epoch: Option<u64>,
    pub canonical_epoch_activation_delay_us: Option<u64>,
    pub subscription_base_object: Option<u64>,
    pub latest_canonical_object: Option<u64>,
    pub last_ingest_unix_ms: Option<u64>,
    /// When each retained part became available, by sequence.
    pub part_available_unix_us: HashMap<u64, u64>,
    pub init: Option<Vec<u8>>,
    pub media_kind: Option<LiveMediaKind>,
}

/// What is known of one stream.
#[verifier::ext_equal]
pub struct StreamModel {
    pub next_seq: Option<u64>,
    pub canonical_epoch: Option<u64>,
    pub canonical_epoch_activation_delay_us: Option<u64>,
    pub subscription_base_object: Option<u64>,
    pub latest_canonical_object: Option<u64>,
    pub last_ingest_unix_ms: Option<u64>,
    pub part_available_unix_us: Map<u64, u64>,
    pub init: Option<Seq<u8>>,
    pub media_kind: Option<LiveMediaKind>,
}

impl View for StreamState {
    type V = StreamModel;

    open spec fn view(&self) -> StreamModel {
        StreamModel {
            next_seq: self.next_seq,
            canonical_epoch: self.canonical_epoch,
            canonical_epoch_activation_delay_us: self.canonical_epoch_activation_delay_us,
            subscription_base_object: self.subscription_base_object,
            latest_canonical_object: self.latest_canonical_object,
            last_ingest_unix_ms: self.last_ingest_unix_ms,
            part_available_unix_us: self.part_available_unix_us@,
            init: match self.init {
                Some(bytes) => Some(bytes@),
                None => None,
            },
            media_kind: self.media_kind,
        }
    }
}

/// The larger of two numbers.
pub open spec fn larger(a: u64, b: u64) -> u64 {
    if a >= b {
        a
    } else {
        b
    }
}

/// The larger of two numbers.
pub fn larger_of(a: u64, b: u64) -> (r: u64)
    ensures
        r == larger(a, b),
{
    if a >= b {
        a
    } else {
        b
    }
}

/// The sum of two numbers, or the largest number where it does not fit.
pub open spec fn saturating_sum(a: u64, b: u64) -> u64 {
    if a + b > u64::MAX {
        u64::MAX
    } else {
        (a + b) as u64
    }
}

/// The difference of two numbers, or zero where the second is larger.
pub open spec fn saturating_diff(a: u64, b: u64) -> u64 {
    if a >= b {
        (a - b) as u64
    } else {
        0
    }
}

/// The oldest sequence that a window of parts ending at `sequence` holds.
pub open spec fn oldest_in_window(sequence: u64, window_parts: usize) -> u64 {
    if window_parts == 0 {
        sequence
    } else {
        saturating_diff(sequence, (window_parts - 1) as u64)
    }
}

impl StreamModel {
    /// A stream of which nothing is known.
    pub open spec fn unknown() -> StreamModel {
        StreamModel {
            next_seq: None,
            canonical_epoch: None,
            canonical_epoch_activation_delay_us: None,
            subscription_base_object: None,
            latest_canonical_object: None,
            last_ingest_unix_ms: None,
            part_available_unix_us: Map::empty(),
            init: None,
            media_kind: None,
        }
    }

    /// The sequence that the next unnumbered payload gets.
    pub open spec fn next(self) -> u64 {
        match self.next_seq {
            Some(next) => next,
            None => 0,
        }
    }

    /// The stream after it has moved to another source epoch: all that belonged to the
    /// earlier epoch is forgotten.
    pub open spec fn activated(self, epoch: u64, delay_us: Option<u64>) -> StreamModel {
        StreamModel {
            canonical_epoch: Some(epoch),
            canonical_epoch_activation_delay_us: delay_us,
            last_ingest_unix_ms: self.last_ingest_unix_ms,
            ..StreamModel::unknown()
        }
    }

    /// The stream after a sequence was seen.
    pub open spec fn seen(self, sequence: u64) -> StreamModel {
        StreamModel {
            next_seq: Some(larger(self.next(), saturating_sum(sequence, 1))),
            ..self
        }
    }

    /// The stream after the next sequence was given out.
    pub open spec fn advanced(self) -> StreamModel {
        StreamModel { next_seq: Some(saturating_sum(self.next(), 1)), ..self }
    }

    /// The stream after a payload arrived.
    pub open spec fn ingested(
        self,
        now_ms: u64,
        kind: LiveMediaKind,
        init: Option<Seq<u8>>,
    ) -> StreamModel {
        StreamModel {
            last_ingest_unix_ms: Some(now_ms),
            media_kind: Some(kind),
            init: if init is Some {
                init
            } else {
                self.init
            },
            ..self
        }
    }

    /// The stream after a part became available; the first time counts, and what lies before
    /// the window is forgotten.
    pub open spec fn with_part(
        self,
        sequence: u64,
        available_unix_us: u64,
        window_parts: usize,
    ) -> StreamModel {
        let known = self.part_available_unix_us;
        StreamModel {
            part_available_unix_us: (if known.contains_key(sequence) {
                known
            } else {
                known.insert(sequence, available_unix_us)
            }).restrict(
                Set::new(|other: u64| other >= oldest_in_window(sequence, window_parts)),
            ),
            ..self
        }
    }

    /// The stream after a canonical media object was stored.
    pub open spec fn stored(self, sequence: u64) -> StreamModel {
        StreamModel {
            subscription_base_object: Some(
                match self.subscription_base_object {
                    Some(base) => base,
                    None => sequence,
                },
            ),
            latest_canonical_object: Some(
                match self.latest_canonical_object {
                    Some(head) => larger(head, sequence),
                    None => sequence,
                },
            ),
            ..self
        }
    }
}

impl StreamState {
    /// A stream of which nothing is known.
    pub fn unknown() -> (r: Self)
        ensures
            r@ == StreamModel::unknown(),
    {
        StreamState {
            next_seq: None,
            canonical_epoch: None,
            canonical_epoch_activation_delay_us: None,
            subscription_base_object: None,
            latest_canonical_object: None,
            last_ingest_unix_ms: None,
            part_available_unix_us: HashMap::new(),
            init: None,
            media_kind: None,
        }
    }

    fn next(&self) -> (r: u64)
        ensures
            r == self@.next(),
    {
        match self.next_seq {
            Some(next) => next,
            None => 0,
        }
    }

    fn record_part(&mut self, sequence: u64, available_unix_us: u64, window_parts: usize)
        ensures
            final(self)@ == old(self)@.with_part(sequence, available_unix_us, window_parts),
    {
        let known = self.part_available_unix_us.get(&sequence).is_some();
        if !known {
            self.part_available_unix_us.insert(sequence, available_unix_us);
        }
        let oldest: u64 = sequence.saturating_sub(window_parts.saturating_sub(1) as u64);
        keep_from(&mut self.part_available_unix_us, oldest);
        proof {
            assert(oldest == oldest_in_window(sequence, window_parts));
            assert(self.part_available_unix_us@ =~= old(self)@.with_part(
                sequence,
                available_unix_us,
                window_parts,
            ).part_available_unix_us);
        }
    }
}

/// The part under assembly from payloads without a stream of their own.
#[derive(Debug)]
pub struct PartAssembly {
    pub current: Vec<u8>,
    pub current_started_ns: u64,
    pub current_started_unix_ms: u64,
    pub next_seq: u64,
}

/// The totals of a node.
#[derive(Clone, Copy, Debug, PartialEq, Eq, Structural)]
pub struct LiveCounters {
    pub datagrams_received: u64,
    pub bytes_received: u64,
    pub last_ingest_unix_ms: Option<u64>,
    pub last_committed_seq: Option<u64>,
    pub last_committed_unix_ms: Option<u64>,
    pub last_committed_bytes: Option<usize>,
    pub last_committed_duration_ms: Option<u64>,
}

impl LiveCounters {
    /// The totals after a payload of `bytes` arrived.
    pub open spec fn counted(self, bytes: u64, now_ms: u64) -> LiveCounters {
        LiveCounters {
            datagrams_received: saturating_sum(self.datagrams_received, 1),
            bytes_received: saturating_sum(self.bytes_received, bytes),
            last_ingest_unix_ms: Some(now_ms),
            ..self
        }
    }

    /// The totals after a numbered part was stored.
    pub open spec fn stored(self, sequence: u64, now_ms: u64, media_bytes: usize) -> LiveCounters {
        LiveCounters {
            last_committed_seq: Some(
                match self.last_committed_seq {
                    Some(last) => larger(last, sequence),
                    None => sequence,
                },
            ),
            last_committed_unix_ms: Some(now_ms),
            last_committed_bytes: Some(media_bytes),
            last_committed_duration_ms: None,
            ..self
        }
    }

    /// The totals after the node's own stream moved to another epoch.
    pub open spec fn without_commit(self) -> LiveCounters {
        LiveCounters {
            last_committed_seq: None,
            last_committed_unix_ms: None,
            last_committed_bytes: None,
            last_committed_duration_ms: None,
            ..self
        }
    }
}

/// A part that is ready to be stored.
#[derive(Debug)]
pub struct PendingPart {
    pub seq: u64,
    pub data: Vec<u8>,
    pub bytes: usize,
    pub duration_ms: u64,
    pub committed_unix_ms: u64,
}

/// The live state of a node.
#[derive(Debug)]
pub struct LiveState {
    pub process_started_unix_us: u64,
    pub assembly: PartAssembly,
    pub counters: LiveCounters,
    pub streams: HashMap<u64, StreamState>,
}

/// The time between two instants in milliseconds, at least one.
pub open spec fn elapsed_ms(from_ns: u64, to_ns: u64) -> u64 {
    larger((saturating_diff(to_ns, from_ns) / 1_000_000) as u64, 1)
}

/// Whether a part that was taken holds what was gathered, from when it was begun until now.
pub open spec fn holds_gathered(
    part: PendingPart,
    gathered: Seq<u8>,
    seq: u64,
    started_ns: u64,
    now_ns: u64,
    now_ms: u64,
) -> bool {
    &&& part.seq == seq
    &&& part.data@ == gathered
    &&& part.bytes == gathered.len()
    &&& part.duration_ms == elapsed_ms(started_ns, now_ns)
    &&& part.committed_unix_ms == now_ms
}

/// How a payload changes the part under assembly: it is gathered behind what is there, and all of it
/// is taken where the time of the part is up or its size is reached.
pub open spec fn gathers(
    before: PartAssembly,
    after: PartAssembly,
    payload: Seq<u8>,
    part: Option<PendingPart>,
    now_ns: u64,
    now_ms: u64,
    part_target_ns: u64,
    max_part_bytes: usize,
) -> bool {
    let gathered = before.current@ + payload;
    let started_ns = if before.current@.len() == 0 {
        now_ns
    } else {
        before.current_started_ns
    };
    let due = saturating_diff(now_ns, started_ns) >= part_target_ns || gathered.len()
        >= max_part_bytes;
    match part {
        Some(part) => {
            &&& due && gathered.len() > 0
            &&& holds_gathered(part, gathered, before.next_seq, started_ns, now_ns, now_ms)
            &&& after.current@.len() == 0
            &&& after.next_seq == before.next_seq + 1
        },
        None => {
            &&& !due || gathered.len() == 0
            &&& after.current@ =~= gathered
            &&& after.next_seq == before.next_seq
        },
    }
}

/// How the part under assembly is taken where its time is up, or in any case with `force`.
pub open spec fn rotates(
    before: PartAssembly,
    after: PartAssembly,
    part: Option<PendingPart>,
    force: bool,
    now_ns: u64,
    now_ms: u64,
    part_target_ns: u64,
) -> bool {
    let due = force || saturating_diff(now_ns, before.current_started_ns) >= part_target_ns;
    match part {
        Some(part) => {
            &&& due && before.current@.len() > 0
            &&& holds_gathered(
                part,
                before.current@,
                before.next_seq,
                before.current_started_ns,
                now_ns,
                now_ms,
            )
            &&& after.current@.len() == 0
            &&& after.next_seq == before.next_seq + 1
        },
        None => {
            &&& !due || before.current@.len() == 0
            &&& after.current@ =~= before.current@
            &&& after.next_seq == before.next_seq
        },
    }
}

impl LiveState {
    /// What is known of a stream.
    pub open spec fn stream(self, id: u64) -> StreamModel {
        if self.streams@.contains_key(id) {
            self.streams@[id]@
        } else {
            StreamModel::unknown()
        }
    }

    /// Whether two states know the same of every stream but one.
    pub open spec fn same_streams_but(self, other: LiveState, id: u64) -> bool {
        forall|k: u64| k != id ==> #[trigger] self.stream(k) == other.stream(k)
    }

    /// Whether two states know the same of every stream.
    pub open spec fn same_streams(self, other: LiveState) -> bool {
        forall|k: u64| #[trigger] self.stream(k) == other.stream(k)
    }

    /// The state at the start of a process.
    pub fn new(process_started_unix_us: u64, now_ns: u64, now_ms: u64) -> (r: Self)
        ensures
            r.process_started_unix_us == process_started_unix_us,
            r.assembly.current@.len() == 0,
            r.assembly.current_started_ns == now_ns,
            r.assembly.current_started_unix_ms == now_ms,
            r.assembly.next_seq == 0,
            r.counters == (LiveCounters {
                datagrams_received: 0,
                bytes_received: 0,
                last_ingest_unix_ms: None,
                last_committed_seq: None,
                last_committed_unix_ms: None,
                last_committed_bytes: None,
                last_committed_duration_ms: None,
            }),
            forall|id: u64| #[trigger] r.stream(id) == StreamModel::unknown(),
    {
        LiveState {
            process_started_unix_us,
            assembly: PartAssembly {
                current: Vec::new(),
                current_started_ns: now_ns,
                current_started_unix_ms: now_ms,
                next_seq: 0,
            },
            counters: LiveCounters {
                datagrams_received: 0,
                bytes_received: 0,
                last_ingest_unix_ms: None,
                last_committed_seq: None,
                last_committed_unix_ms: None,
                last_committed_bytes: None,
                last_committed_duration_ms: None,
            },
            streams: HashMap::new(),
        }
    }

    fn take_stream(&mut self, id: u64) -> (r: StreamState)
        ensures
            r@ == old(self).stream(id),
            final(self).stream(id) == StreamModel::unknown(),
            final(self).same_streams_but(*old(self), id),
            final(self).process_started_unix_us == old(self).process_started_unix_us,
            final(self).assembly == old(self).assembly,
            final(self).counters == old(self).counters,
    {
        match self.streams.remove(&id) {
            Some(state) => state,
            None => StreamState::unknown(),
        }
    }

    fn put_stream(&mut self, id: u64, state: StreamState)
        ensures
            final(self).stream(id) == state@,
            final(self).same_streams_but(*old(self), id),
            final(self).process_started_unix_us == old(self).process_started_unix_us,
            final(self).assembly == old(self).assembly,
            final(self).counters == old(self).counters,
    {
        self.streams.insert(id, state);
    }

    /// Gives out the next sequence of a stream.
    pub fn next_stream_seq(&mut self, stream_id: u64) -> (r: u64)
        ensures
            r == old(self).stream(stream_id).next(),
            final(self).stream(stream_id) == old(self).stream(stream_id).advanced(),
            final(self).same_streams_but(*old(self), stream_id),
            final(self).process_started_unix_us == old(self).process_started_unix_us,
            final(self).assembly == old(self).assembly,
            final(self).counters == old(self).counters,
    {
        let mut stream = self.take_stream(stream_id);
        let seq: u64 = stream.next();
        stream.next_seq = Some(seq.saturating_add(1));
        self.put_stream(stream_id, stream);
        seq
    }

    /// Notes that a sequence of a stream was seen.
    pub fn observe_stream_seq(&mut self, stream_id: u64, sequence: u64)
        ensures
            final(self).stream(stream_id) == old(self).stream(stream_id).seen(sequence),
            final(self).same_streams_but(*old(self), stream_id),
            final(self).process_started_unix_us == old(self).process_started_unix_us,
            final(self).assembly == old(self).assembly,
            final(self).counters == old(self).counters,
    {
        let mut stream = self.take_stream(stream_id);
        stream.next_seq = Some(larger_of(stream.next(), sequence.saturating_add(1)));
        self.put_stream(stream_id, stream);
    }

    /// Notes that a part became available, and forgets those before the window.
    pub fn record_part_available(
        &mut self,
        stream_id: u64,
        sequence: u64,
        available_unix_us: u64,
        window_parts: usize,
    )
        ensures
            final(self).stream(stream_id) == old(self).stream(stream_id).with_part(
                sequence,
                available_unix_us,
                window_parts,
            ),
            final(self).same_streams_but(*old(self), stream_id),
            final(self).process_started_unix_us == old(self).process_started_unix_us,
            final(self).assembly == old(self).assembly,
            final(self).counters == old(self).counters,
    {
        let mut stream = self.take_stream(stream_id);
        stream.record_part(sequence, available_unix_us, window_parts);
        self.put_stream(stream_id, stream);
    }

    /// Forgets a stream, and nothing else.
    pub fn forget_stream(&mut self, stream_id: u64)
        ensures
            final(self).stream(stream_id) == StreamModel::unknown(),
            final(self).same_streams_but(*old(self), stream_id),
            final(self).process_started_unix_us == old(self).process_started_unix_us,
            final(self).assembly == old(self).assembly,
            final(self).counters == old(self).counters,
    {
        let _ = self.take_stream(stream_id);
    }

    /// Takes the part under assembly and starts the next one.
    ///
    /// Nothing is taken where no byte has arrived; the next part starts now either way.
    pub fn take_current(&mut self, now_ns: u64, now_ms: u64) -> (r: Option<PendingPart>)
        requires
            old(self).assembly.current@.len() == 0 || old(self).assembly.next_seq < u64::MAX,
        ensures
            final(self).streams == old(self).streams,
            final(self).counters == old(self).counters,
            final(self).process_started_unix_us == old(self).process_started_unix_us,
            final(self).assembly.current@.len() == 0,
            final(self).assembly.current_started_ns == now_ns,
            final(self).assembly.current_started_unix_ms == now_ms,
            r is Some <==> old(self).assembly.current@.len() > 0,
            match r {
                Some(part) => {
                    &&& part.seq == old(self).assembly.next_seq
                    &&& part.data@ == old(self).assembly.current@
                    &&& part.bytes == part.data@.len()
                    &&& part.duration_ms == elapsed_ms(
                        old(self).assembly.current_started_ns,
                        now_ns,
                    )
                    &&& part.committed_unix_ms == now_ms
                    &&& final(self).assembly.next_seq == old(self).assembly.next_seq + 1
                },
                None => final(self).assembly.next_seq == old(self).assembly.next_seq,
            },
    {
        let started_ns: u64 = self.assembly.current_started_ns;
        self.assembly.current_started_ns = now_ns;
        self.assembly.current_started_unix_ms = now_ms;
        if self.assembly.current.len() == 0 {
            return None;
        }
        let seq: u64 = self.assembly.next_seq;
        self.assembly.next_seq = seq + 1;
        let mut data: Vec<u8> = Vec::new();
        std::mem::swap(&mut data, &mut self.assembly.current);
        let bytes: usize = data.len();
        let duration_ms: u64 = larger_of(now_ns.saturating_sub(started_ns) / 1_000_000, 1);
        Some(PendingPart { seq, bytes, duration_ms, committed_unix_ms: now_ms, data })
    }

    /// Adds a payload to the part under assembly, and takes the part where it is due: its time
    /// is up, or it has grown to the largest size.
    pub fn push_payload(
        &mut self,
        payload: &[u8],
        now_ns: u64,
        now_ms: u64,
        part_target_ns: u64,
        max_part_bytes: usize,
    ) -> (r: Option<PendingPart>)
        requires
            old(self).assembly.next_seq < u64::MAX,
            old(self).counters.datagrams_received < u64::MAX,
            old(self).counters.bytes_received + payload@.len() <= u64::MAX,
            old(self).assembly.current@.len() + payload@.len() <= usize::MAX,
        ensures
            final(self).streams == old(self).streams,
            final(self).process_started_unix_us == old(self).process_started_unix_us,
            final(self).counters == (LiveCounters {
                datagrams_received: (old(self).counters.datagrams_received + 1) as u64,
                bytes_received: (old(self).counters.bytes_received + payload@.len()) as u64,
                last_ingest_unix_ms: Some(now_ms),
                ..old(self).counters
            }),
            ({
                let gathered = old(self).assembly.current@ + payload@;
                let fresh = old(self).assembly.current@.len() == 0;
                let started_ns = if fresh {
                    now_ns
                } else {
                    old(self).assembly.current_started_ns
                };
                let started_ms = if fresh {
                    now_ms
                } else {
                    old(self).assembly.current_started_unix_ms
                };
                let due = saturating_diff(now_ns, started_ns) >= part_target_ns || gathered.len()
                    >= max_part_bytes;
                if due {
                    &&& r is Some <==> gathered.len() > 0
                    &&& final(self).assembly.current@.len() == 0
                    &&& final(self).assembly.current_started_ns == now_ns
                    &&& final(self).assembly.current_started_unix_ms == now_ms
                    &&& match r {
                        Some(part) => {
                            &&& part.seq == old(self).assembly.next_seq
                            &&& part.data@ == gathered
                            &&& part.bytes == gathered.len()
                            &&& part.duration_ms == elapsed_ms(started_ns, now_ns)
                            &&& part.committed_unix_ms == now_ms
                            &&& final(self).assembly.next_seq == old(self).assembly.next_seq + 1
                        },
                        None => final(self).assembly.next_seq == old(self).assembly.next_seq,
                    }
                } else {
                    &&& r is None
                    &&& final(self).assembly.current@ == gathered
                    &&& final(self).assembly.current_started_ns == started_ns
                    &&& final(self).assembly.current_started_unix_ms == started_ms
                    &&& final(self).assembly.next_seq == old(self).assembly.next_seq
                }
            }),
            gathers(
                old(self).assembly,
                final(self).assembly,
                payload@,
                r,
                now_ns,
                now_ms,
                part_target_ns,
                max_part_bytes,
            ),
    {
        self.counters.datagrams_received = self.counters.datagrams_received + 1;
        self.counters.last_ingest_unix_ms = Some(now_ms);
        self.counters.bytes_received = self.counters.bytes_received + payload.len() as u64;
        if self.assembly.current.len() == 0 {
            self.assembly.current_started_ns = now_ns;
            self.assembly.current_started_unix_ms = now_ms;
        }
        extend_bytes(&mut self.assembly.current, payload);
        if now_ns.saturating_sub(self.assembly.current_started_ns) >= part_target_ns
            || self.assembly.current.len() >= max_part_bytes {
            self.take_current(now_ns, now_ms)
        } else {
            None
        }
    }

    /// Takes the part under assembly where its time is up, or in any case with `force`.
    pub fn rotate_if_due(&mut self, force: bool, now_ns: u64, now_ms: u64, part_target_ns: u64) -> (r:
        Option<PendingPart>)
        requires
            old(self).assembly.next_seq < u64::MAX,
        ensures
            final(self).streams == old(self).streams,
            final(self).counters == old(self).counters,
            final(self).process_started_unix_us == old(self).process_started_unix_us,
            ({
                let due = force || saturating_diff(now_ns, old(self).assembly.current_started_ns)
                    >= part_target_ns;
                if due {
                    &&& r is Some <==> old(self).assembly.current@.len() > 0
                    &&& final(self).assembly.current@.len() == 0
                    &&& final(self).assembly.current_started_ns == now_ns
                    &&& final(self).assembly.current_started_unix_ms == now_ms
                    &&& match r {
                        Some(part) => {
                            &&& part.seq == old(self).assembly.next_seq
                            &&& part.data@ == old(self).assembly.current@
                            &&& part.bytes == part.data@.len()
                            &&& part.duration_ms == elapsed_ms(
                                old(self).assembly.current_started_ns,
                                now_ns,
                            )
                            &&& part.committed_unix_ms == now_ms
                            &&& final(self).assembly.next_seq == old(self).assembly.next_seq + 1
                        },
                        None => final(self).assembly.next_seq == old(self).assembly.next_seq,
                    }
                } else {
                    r is None && final(self).assembly == old(self).assembly
                }
            }),
            rotates(
                old(self).assembly,
                final(self).assembly,
                r,
                force,
                now_ns,
                now_ms,
                part_target_ns,
            ),
    {
        if force || now_ns.saturating_sub(self.assembly.current_started_ns) >= part_target_ns {
            self.take_current(now_ns, now_ms)
        } else {
            None
        }
    }

    /// Notes that a part of the node's own stream was stored.
    pub fn commit_part(
        &mut self,
        stream_id: u64,
        part: &PendingPart,
        now_us: u64,
        window_parts: usize,
    )
        ensures
            final(self).process_started_unix_us == old(self).process_started_unix_us,
            final(self).assembly == old(self).assembly,
            final(self).counters == (LiveCounters {
                last_committed_seq: Some(part.seq),
                last_committed_unix_ms: Some(part.committed_unix_ms),
                last_committed_bytes: Some(part.bytes),
                last_committed_duration_ms: Some(part.duration_ms),
                ..old(self).counters
            }),
            final(self).stream(stream_id) == old(self).stream(stream_id).with_part(
                part.seq,
                now_us,
                window_parts,
            ),
            final(self).same_streams_but(*old(self), stream_id),
    {
        self.counters.last_committed_seq = Some(part.seq);
        self.counters.last_committed_unix_ms = Some(part.committed_unix_ms);
        self.counters.last_committed_bytes = Some(part.bytes);
        self.counters.last_committed_duration_ms = Some(part.duration_ms);
        assert(self.same_streams(*old(self)));
        self.record_part_available(stream_id, part.seq, now_us, window_parts);
    }

    /// Counts a media access unit that was stored.
    pub fn count_access_unit(&mut self, payload_bytes: u64, now_ms: u64)
        ensures
            final(self).streams == old(self).streams,
            final(self).process_started_unix_us == old(self).process_started_unix_us,
            final(self).assembly == old(self).assembly,
            final(self).counters == old(self).counters.counted(payload_bytes, now_ms),
    {
        self.counters.datagrams_received = self.counters.datagrams_received.saturating_add(1);
        self.counters.last_ingest_unix_ms = Some(now_ms);
        self.counters.bytes_received = self.counters.bytes_received.saturating_add(payload_bytes);
    }

    /// Moves a stream to another source epoch.
    pub(crate) fn activate_epoch(
        &mut self,
        stream_id: u64,
        epoch: u64,
        delay_us: Option<u64>,
        own_stream: bool,
    )
        ensures
            final(self).process_started_unix_us == old(self).process_started_unix_us,
            final(self).assembly == old(self).assembly,
            final(self).counters == (if own_stream {
                old(self).counters.without_commit()
            } else {
                old(self).counters
            }),
            final(self).stream(stream_id) == old(self).stream(stream_id).activated(epoch, delay_us),
            final(self).same_streams_but(*old(self), stream_id),
    {
        if own_stream {
            self.counters.last_committed_seq = None;
            self.counters.last_committed_unix_ms = None;
            self.counters.last_committed_bytes = None;
            self.counters.last_committed_duration_ms = None;
        }
        assert(self.same_streams(*old(self)));
        let before = self.take_stream(stream_id);
        let mut stream = StreamState::unknown();
        stream.canonical_epoch = Some(epoch);
        stream.canonical_epoch_activation_delay_us = delay_us;
        stream.last_ingest_unix_ms = before.last_ingest_unix_ms;
        proof {
            assert(stream@ =~= before@.activated(epoch, delay_us));
        }
        self.put_stream(stream_id, stream);
    }

    /// Counts a payload of a stream.
    pub(crate) fn ingest(
        &mut self,
        stream_id: u64,
        bytes: u64,
        now_ms: u64,
        kind: LiveMediaKind,
        init: Option<&Vec<u8>>,
    )
        ensures
            final(self).process_started_unix_us == old(self).process_started_unix_us,
            final(self).assembly == old(self).assembly,
            final(self).counters == old(self).counters.counted(bytes, now_ms),
            final(self).stream(stream_id) == old(self).stream(stream_id).ingested(
                now_ms,
                kind,
                match init {
                    Some(bytes) => Some(bytes@),
                    None => None,
                },
            ),
            final(self).same_streams_but(*old(self), stream_id),
    {
        self.count_access_unit(bytes, now_ms);
        assert(self.same_streams(*old(self)));
        let mut stream = self.take_stream(stream_id);
        stream.last_ingest_unix_ms = Some(now_ms);
        stream.media_kind = Some(kind);
        match init {
            Some(bytes) => {
                stream.init = Some(copy_bytes(bytes.as_slice()));
            },
            None => {},
        }
        self.put_stream(stream_id, stream);
    }

    /// Notes that a numbered part of a stream was stored; `canonical` tells whether the part
    /// carries its own number.
    pub(crate) fn store_part(
        &mut self,
        stream_id: u64,
        sequence: u64,
        canonical: bool,
        media_bytes: usize,
        now_ms: u64,
        now_us: u64,
        window_parts: usize,
    )
        ensures
            final(self).process_started_unix_us == old(self).process_started_unix_us,
            final(self).assembly == old(self).assembly,
            final(self).counters == old(self).counters.stored(sequence, now_ms, media_bytes),
            final(self).stream(stream_id) == (if canonical {
                old(self).stream(stream_id).stored(sequence)
            } else {
                old(self).stream(stream_id)
            }).with_part(sequence, now_us, window_parts),
            final(self).same_streams_but(*old(self), stream_id),
    {
        let last: u64 = match self.counters.last_committed_seq {
            Some(last) => larger_of(last, sequence),
            None => sequence,
        };
        self.counters.last_committed_seq = Some(last);
        self.counters.last_committed_unix_ms = Some(now_ms);
        self.counters.last_committed_bytes = Some(media_bytes);
        self.counters.last_committed_duration_ms = None;
        assert(self.same_streams(*old(self)));
        let mut stream = self.take_stream(stream_id);
        if canonical {
            let base: u64 = match stream.subscription_base_object {
                Some(base) => base,
                None => sequence,
            };
            let head: u64 = match stream.latest_canonical_object {
                Some(head) => larger_of(head, sequence),
                None => sequence,
            };
            stream.subscription_base_object = Some(base);
            stream.latest_canonical_object = Some(head);
        }
        stream.record_part(sequence, now_us, window_parts);
        self.put_stream(stream_id, stream);
    }

    /// Notes the container of a stream.
    pub fn remember_media_kind(&mut self, stream_id: u64, media_kind: LiveMediaKind)
        ensures
            final(self).process_started_unix_us == old(self).process_started_unix_us,
            final(self).assembly == old(self).assembly,
            final(self).counters == old(self).counters,
            final(self).stream(stream_id) == (StreamModel {
                media_kind: Some(media_kind),
                ..old(self).stream(stream_id)
            }),
            final(self).same_streams_but(*old(self), stream_id),
    {
        let mut stream = self.take_stream(stream_id);
        stream.media_kind = Some(media_kind);
        self.put_stream(stream_id, stream);
    }

    /// Notes the initialization of a stream.
    pub fn remember_stream_init(&mut self, stream_id: u64, init: &[u8])
        ensures
            final(self).process_started_unix_us == old(self).process_started_unix_us,
            final(self).assembly == old(self).assembly,
            final(self).counters == old(self).counters,
            final(self).stream(stream_id) == (StreamModel {
                init: Some(init@),
                ..old(self).stream(stream_id)
            }),
            final(self).same_streams_but(*old(self), stream_id),
    {
        let mut stream = self.take_stream(stream_id);
        stream.init = Some(copy_bytes(init));
        self.put_stream(stream_id, stream);
    }

    /// The container that a stream was last seen with.
    pub fn media_kind_hint(&self, stream_id: u64) -> (r: Option<LiveMediaKind>)
        ensures
            r == self.stream(stream_id).media_kind,
    {
        match self.streams.get(&stream_id) {
            Some(stream) => stream.media_kind,
            None => None,
        }
    }

    /// The initialization that a stream was last seen with.
    pub fn stream_init(&self, stream_id: u64) -> (r: Option<Vec<u8>>)
        ensures
            match r {
                Some(bytes) => self.stream(stream_id).init == Some(bytes@),
                None => self.stream(stream_id).init is None,
            },
    {
        match self.streams.get(&stream_id) {
            Some(stream) => match &stream.init {
                Some(bytes) => Some(copy_bytes(bytes.as_slice())),
                None => None,
            },
            None => None,
        }
    }

    /// When a retained part became available.
    pub fn part_available_unix_us(&self, stream_id: u64, seq: u64) -> (r: Option<u64>)
        ensures
            r == (if self.stream(stream_id).part_available_unix_us.contains_key(seq) {
                Some(self.stream(stream_id).part_available_unix_us[seq])
            } else {
                None
            }),
    {
        match self.streams.get(&stream_id) {
            Some(stream) => match stream.part_available_unix_us.get(&seq) {
                Some(time) => Some(*time),
                None => None,
            },
            None => None,
        }
    }

    /// Whether nothing has arrived for a stream after a time.
    pub open spec fn idle(self, stream_id: u64, cutoff_unix_ms: u64) -> bool {
        match self.stream(stream_id).last_ingest_unix_ms {
            Some(last) => last <= cutoff_unix_ms,
            None => false,
        }
    }

    /// Whether nothing has arrived for a stream after a time.
    pub fn is_idle(&self, stream_id: u64, cutoff_unix_ms: u64) -> (r: bool)
        ensures
            r == self.idle(stream_id, cutoff_unix_ms),
    {
        match self.streams.get(&stream_id) {
            Some(stream) => match stream.last_ingest_unix_ms {
                Some(last) => last <= cutoff_unix_ms,
                None => false,
            },
            None => false,
        }
    }

    /// The streams other than the node's own for which nothing has arrived after a time.
    pub fn idle_streams(&self, own_stream: u64, cutoff_unix_ms: u64) -> (r: Vec<u64>)
        ensures
            r@.no_duplicates(),
            forall|id: u64| #[trigger]
                r@.contains(id) <==> id != own_stream && self.idle(id, cutoff_unix_ms),
    {
        let ids = numbers_of(&self.streams);
        let mut out: Vec<u64> = Vec::new();
        let mut i: usize = 0;
        while i < ids.len()
            invariant
                i <= ids.len(),
                ids@.no_duplicates(),
                forall|id: u64| #[trigger] ids@.contains(id) <==> self.streams@.contains_key(id),
                out@.no_duplicates(),
                forall|id: u64| #[trigger]
                    out@.contains(id) <==> id != own_stream && self.idle(id, cutoff_unix_ms)
                        && ids@.take(i as int).contains(id),
            decreases ids.len() - i,
        {
            let id: u64 = ids[i];
            let ghost before = out@;
            let ghost seen = ids@.take(i as int);
            assert(ids@.contains(id));
            if id != own_stream && self.is_idle(id, cutoff_unix_ms) {
                out.push(id);
            }
            proof {
                assert(ids@.take(i + 1) =~= seen.push(id));
                lemma_push_contains(seen, id);
                lemma_push_contains(before, id);
                assert(!seen.contains(id));
                assert(!before.contains(id));
                assert(out@.no_duplicates()) by {
                    assert forall|a: int, b: int|
                        0 <= a < out@.len() && 0 <= b < out@.len() && a != b implies out@[a]
                        != out@[b] by {
                        if a == before.len() {
                            assert(before.contains(before[b]));
                        } else if b == before.len() {
                            assert(before.contains(before[a]));
                        } else {
                            assert(before[a] != before[b]);
                        }
                    }
                }
            }
            i = i + 1;
        }
        proof {
            assert(ids@.take(i as int) =~= ids@);
        }
        out
    }
}

/// What a list contains once a number was put behind it.
proof fn lemma_push_contains(list: Seq<u64>, number: u64)
    ensures
        forall|k: u64| #[trigger]
            list.push(number).contains(k) <==> k == number || list.contains(k),
{
    assert(list.push(number)[list.len() as int] == number);
    assert forall|k: u64| list.contains(k) implies #[trigger] list.push(number).contains(k) by {
        let p = choose|p: int| 0 <= p < list.len() && list[p] == k;
        assert(list.push(number)[p] == k);
    }
}

/// Sums stay at the largest number, differences at nothing, and the larger of two numbers is one of
/// them that is below neither.
pub proof fn numbers_stay_within_bounds(a: u64, b: u64)
    ensures
        saturating_sum(a, b) >= a && saturating_sum(a, b) >= b,
        saturating_sum(a, b) == a + b || (saturating_sum(a, b) == u64::MAX && a + b > u64::MAX),
        a >= b ==> saturating_diff(a, b) + b == a,
        a < b ==> saturating_diff(a, b) == 0,
        larger(a, b) >= a && larger(a, b) >= b && (larger(a, b) == a || larger(a, b) == b),
{
}

/// A sequence is given out once: the one behind it comes next, and one that was seen is never given
/// out again.
pub proof fn sequences_are_given_out_once(m: StreamModel, sequence: u64)
    ensures
        m.next() < u64::MAX ==> m.advanced().next() == m.next() + 1,
        sequence < u64::MAX ==> m.seen(sequence).next() > sequence,
        m.seen(sequence).next() >= m.next(),
        sequence < u64::MAX ==> m.seen(sequence).next() == m.next() || m.seen(sequence).next()
            == sequence + 1,
        sequence < m.next() ==> m.seen(sequence).next() == m.next(),
        m.advanced() == (StreamModel { next_seq: m.advanced().next_seq, ..m }),
        m.seen(sequence) == (StreamModel { next_seq: m.seen(sequence).next_seq, ..m }),
        StreamModel::unknown().next() == 0,
{
}

/// A new epoch starts a stream over: of what was known only the time of the last arrival stays.
pub proof fn epochs_start_streams_over(m: StreamModel, epoch: u64, delay_us: Option<u64>)
    ensures
        ({
            let after = m.activated(epoch, delay_us);
            &&& after.canonical_epoch == Some(epoch)
            &&& after.canonical_epoch_activation_delay_us == delay_us
            &&& after.last_ingest_unix_ms == m.last_ingest_unix_ms
            &&& after.next_seq is None && after.subscription_base_object is None
            &&& after.latest_canonical_object is None && after.init is None
            &&& after.media_kind is None
            &&& forall|p: u64| !#[trigger] after.part_available_unix_us.contains_key(p)
        }),
{
}

/// A payload dates its stream and tells its kind; its initialization replaces the one before it,
/// which stays where it brings none.
pub proof fn payloads_date_their_stream(
    m: StreamModel,
    now_ms: u64,
    kind: LiveMediaKind,
    init: Option<Seq<u8>>,
)
    ensures
        ({
            let after = m.ingested(now_ms, kind, init);
            &&& after.last_ingest_unix_ms == Some(now_ms)
            &&& after.media_kind == Some(kind)
            &&& init is Some ==> after.init == init
            &&& init is None ==> after.init == m.init
            &&& after == (StreamModel {
                last_ingest_unix_ms: after.last_ingest_unix_ms,
                media_kind: after.media_kind,
                init: after.init,
                ..m
            })
        }),
{
}

/// A part is dated by when it was first available. Parts that the window behind it still holds keep
/// their dates, and no others are kept.
pub proof fn parts_are_dated_while_the_window_holds_them(
    m: StreamModel,
    sequence: u64,
    available_unix_us: u64,
    window_parts: usize,
    other: u64,
)
    ensures
        ({
            let before = m.part_available_unix_us;
            let after = m.with_part(
                sequence,
                available_unix_us,
                window_parts,
            ).part_available_unix_us;
            &&& after.contains_key(sequence)
            &&& before.contains_key(sequence) ==> after[sequence] == before[sequence]
            &&& !before.contains_key(sequence) ==> after[sequence] == available_unix_us
            &&& other != sequence ==> (after.contains_key(other) <==> before.contains_key(other) && (
            other >= sequence || other + window_parts > sequence))
            &&& other != sequence && after.contains_key(other) ==> after[other] == before[other]
            &&& m.with_part(sequence, available_unix_us, window_parts) == (StreamModel {
                part_available_unix_us: after,
                ..m
            })
        }),
{
}

/// The first object that is stored is the base of its stream; the head is the farthest one.
pub proof fn the_first_object_is_the_base(m: StreamModel, sequence: u64)
    ensures
        ({
            let after = m.stored(sequence);
            &&& m.subscription_base_object is Some ==> after.subscription_base_object
                == m.subscription_base_object
            &&& m.subscription_base_object is None ==> after.subscription_base_object == Some(
                sequence,
            )
            &&& after.latest_canonical_object is Some
            &&& after.latest_canonical_object->0 >= sequence
            &&& m.latest_canonical_object is Some ==> after.latest_canonical_object->0
                >= m.latest_canonical_object->0
            &&& after.latest_canonical_object == Some(sequence) || after.latest_canonical_object
                == m.latest_canonical_object
            &&& after == (StreamModel {
                subscription_base_object: after.subscription_base_object,
                latest_canonical_object: after.latest_canonical_object,
                ..m
            })
        }),
{
}

/// The counters count each datagram and its bytes, and tell of the farthest part that was stored
/// until a new epoch takes that back.
pub proof fn counters_tell_of_datagrams_and_parts(
    c: LiveCounters,
    bytes: u64,
    now_ms: u64,
    sequence: u64,
    media_bytes: usize,
)
    ensures
        c.datagrams_received < u64::MAX ==> c.counted(bytes, now_ms).datagrams_received
            == c.datagrams_received + 1,
        c.bytes_received + bytes <= u64::MAX ==> c.counted(bytes, now_ms).bytes_received
            == c.bytes_received + bytes,
        c.counted(bytes, now_ms).last_ingest_unix_ms == Some(now_ms),
        c.counted(bytes, now_ms).last_committed_seq == c.last_committed_seq,
        c.counted(bytes, now_ms).last_committed_bytes == c.last_committed_bytes,
        ({
            let after = c.stored(sequence, now_ms, media_bytes);
            &&& after.last_committed_seq is Some && after.last_committed_seq->0 >= sequence
            &&& c.last_committed_seq is Some ==> after.last_committed_seq->0
                >= c.last_committed_seq->0
            &&& after.last_committed_seq == Some(sequence) || after.last_committed_seq
                == c.last_committed_seq
            &&& after.last_committed_unix_ms == Some(now_ms)
            &&& after.last_committed_bytes == Some(media_bytes)
            &&& after.last_committed_duration_ms is None
            &&& after.datagrams_received == c.datagrams_received && after.bytes_received
                == c.bytes_received && after.last_ingest_unix_ms == c.last_ingest_unix_ms
        }),
        c.without_commit().last_committed_seq is None,
        c.without_commit().last_committed_unix_ms is None,
        c.without_commit().last_committed_bytes is None,
        c.without_commit().last_committed_duration_ms is None,
        c.without_commit().datagrams_received == c.datagrams_received,
        c.without_commit().bytes_received == c.bytes_received,
        c.without_commit().last_ingest_unix_ms == c.last_ingest_unix_ms,
{
}

/// A part lasts the whole milliseconds between its first byte and its end, and one at least.
pub proof fn parts_last_a_millisecond_at_least(from_ns: u64, to_ns: u64)
    ensures
        elapsed_ms(from_ns, to_ns) >= 1,
        to_ns < from_ns + 2_000_000 ==> elapsed_ms(from_ns, to_ns) == 1,
        to_ns >= from_ns + 1_000_000 ==> elapsed_ms(from_ns, to_ns) * 1_000_000 <= to_ns - from_ns
            < (elapsed_ms(from_ns, to_ns) + 1) * 1_000_000,
{
}

/// The window that ends at a sequence begins so many parts before it, or at the start.
pub proof fn windows_hold_their_parts(sequence: u64, window_parts: usize)
    requires
        window_parts > 0,
    ensures
        oldest_in_window(sequence, window_parts) <= sequence,
        sequence + 1 >= window_parts ==> sequence + 1 - oldest_in_window(sequence, window_parts)
            == window_parts,
        sequence + 1 < window_parts ==> oldest_in_window(sequence, window_parts) == 0,
{
}

/// No byte of a payload is lost or repeated: what was under assembly and the payload behind it are
/// the part that is taken, if one is, and what is left under assembly. A part is taken as soon as it
/// is large enough or lasts long enough, and not before; parts are numbered one after the other.
pub proof fn payloads_are_neither_lost_nor_repeated(
    before: PartAssembly,
    after: PartAssembly,
    payload: Seq<u8>,
    part: Option<PendingPart>,
    now_ns: u64,
    now_ms: u64,
    part_target_ns: u64,
    max_part_bytes: usize,
)
    requires
        gathers(
            before,
            after,
            payload,
            part,
            now_ns,
            now_ms,
            part_target_ns,
            max_part_bytes,
        ),
        payload.len() > 0,
        part_target_ns > 0,
    ensures
        before.current@ + payload == match part {
            Some(part) => part.data@ + after.current@,
            None => after.current@,
        },
        part is Some ==> part->0.seq == before.next_seq && after.next_seq == before.next_seq + 1
            && part->0.bytes == part->0.data@.len() && part->0.committed_unix_ms == now_ms,
        part is None ==> after.next_seq == before.next_seq,
        before.current@.len() + payload.len() >= max_part_bytes ==> part is Some,
        before.current@.len() > 0 && now_ns >= before.current_started_ns + part_target_ns
            ==> part is Some,
        before.current@.len() + payload.len() < max_part_bytes && (before.current@.len() == 0
            || now_ns < before.current_started_ns + part_target_ns) ==> part is None,
        before.current@.len() == 0 && part is Some ==> part->0.duration_ms == 1,
{
    if part is Some {
        assert(part->0.data@ + after.current@ =~= part->0.data@);
    }
}

/// Nothing that is under assembly is lost when it is taken: it is taken whole where its time is up
/// or it must be, and else stays.
pub proof fn rotation_takes_all_or_nothing(
    before: PartAssembly,
    after: PartAssembly,
    part: Option<PendingPart>,
    force: bool,
    now_ns: u64,
    now_ms: u64,
    part_target_ns: u64,
)
    requires
        rotates(before, after, part, force, now_ns, now_ms, part_target_ns),
        part_target_ns > 0,
    ensures
        before.current@ == match part {
            Some(part) => part.data@ + after.current@,
            None => after.current@,
        },
        part is Some ==> part->0.seq == before.next_seq && after.next_seq == before.next_seq + 1,
        part is None ==> after.next_seq == before.next_seq,
        before.current@.len() > 0 && (force || now_ns >= before.current_started_ns + part_target_ns)
            <==> part is Some,
{
    if part is Some {
        assert(part->0.data@ + after.current@ =~= part->0.data@);
    }
}

/// A stream is idle where its last arrival is no later than a time; one that nothing ever arrived
/// for is not.
pub proof fn streams_are_idle_after_their_last_arrival(
    state: LiveState,
    stream_id: u64,
    cutoff_unix_ms: u64,
)
    ensures
        state.stream(stream_id).last_ingest_unix_ms is None ==> !state.idle(
            stream_id,
            cutoff_unix_ms,
        ),
        state.stream(stream_id).last_ingest_unix_ms is Some ==> (state.idle(
            stream_id,
            cutoff_unix_ms,
        ) <==> state.stream(stream_id).last_ingest_unix_ms->0 <= cutoff_unix_ms),
{
}

} // verus!
