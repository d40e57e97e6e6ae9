//! The commit of one payload of a stream, as a sequence of decisions between cache operations.
//!
//! A commit begins with a payload, asks for one cache operation at a time and is told what
//! became of it, until it is finished.

use vstd::prelude::*;
use vstd::string::*;
use crate::bytes::{ascii_bytes, copy_bytes};
use crate::live_state::{saturating_sum, LiveState, StreamModel};
use crate::media::{
    claims_canonical, decode_canonical_stream_object, decoded_media_object, is_fmp4_object,
    metadata_value, object_slot, slot_given, slot_init, slot_media, slot_media_kind, slot_of, CanonicalModel,
    CanonicalObject, LiveMediaKind, LiveSlotPayload, ObjectKind,
};
use crate::text::{decimal, decimal_reads_back, decimal_text, same_text};

verus! {

/// Why a commit failed.
#[derive(Debug)]
pub enum CommitError {
    InvalidEnvelope,
    StreamMismatch { object_stream: String, stream_id: u64 },
    StaleEpoch { epoch: u64, stream_id: u64, current: u64 },
    InitializationWrite { reason: String },
    SequenceTooLarge,
    BaseTooLarge,
    CanonicalWrite { reason: String },
    PlainWrite { reason: String },
    IdentityConflict { stream_id: u64, sequence: u64 },
}

impl CommitError {
    /// The message of an error, as text.
    pub open spec fn message_text(self) -> Seq<char> {
        match self {
            CommitError::InvalidEnvelope => "invalid canonical media-object envelope"@,
            CommitError::StreamMismatch { object_stream, stream_id } => {
                "canonical media-object stream "@ + object_stream@
                    + " does not match carrier stream "@ + decimal(stream_id as nat)
            },
            CommitError::StaleEpoch { epoch, stream_id, current } => {
                "stale canonical source epoch "@ + decimal(epoch as nat) + " for stream "@
                    + decimal(stream_id as nat) + "; current epoch is "@ + decimal(current as nat)
            },
            CommitError::InitializationWrite { reason } => {
                "stream initialization cache write failed: "@ + reason@
            },
            CommitError::SequenceTooLarge => "stream slot sequence too large"@,
            CommitError::BaseTooLarge => "stream subscription base object is too large"@,
            CommitError::CanonicalWrite { reason } => {
                "canonical stream cache write failed: "@ + reason@
            },
            CommitError::PlainWrite { reason } => {
                "stream-prefixed chunk cache write failed: "@ + reason@
            },
            CommitError::IdentityConflict { stream_id, sequence } => {
                "canonical media-object identity conflict for stream "@ + decimal(
                    stream_id as nat,
                ) + " sequence "@ + decimal(sequence as nat)
            },
        }
    }

    /// The message of an error.
    pub fn message(&self) -> (r: String)
        ensures
            r@ == self.message_text(),
    {
        match self {
            CommitError::InvalidEnvelope => "invalid canonical media-object envelope".to_owned(),
            CommitError::StreamMismatch { object_stream, stream_id } => {
                let mut out = "canonical media-object stream ".to_owned();
                out.append(object_stream.as_str());
                out.append(" does not match carrier stream ");
                out.append(decimal_text(*stream_id).as_str());
                out
            },
            CommitError::StaleEpoch { epoch, stream_id, current } => {
                let mut out = "stale canonical source epoch ".to_owned();
                out.append(decimal_text(*epoch).as_str());
                out.append(" for stream ");
                out.append(decimal_text(*stream_id).as_str());
                out.append("; current epoch is ");
                out.append(decimal_text(*current).as_str());
                out
            },
            CommitError::InitializationWrite { reason } => {
                let mut out = "stream initialization cache write failed: ".to_owned();
                out.append(reason.as_str());
                out
            },
            CommitError::SequenceTooLarge => "stream slot sequence too large".to_owned(),
            CommitError::BaseTooLarge => "stream subscription base object is too large".to_owned(),
            CommitError::CanonicalWrite { reason } => {
                let mut out = "canonical stream cache write failed: ".to_owned();
                out.append(reason.as_str());
                out
            },
            CommitError::PlainWrite { reason } => {
                let mut out = "stream-prefixed chunk cache write failed: ".to_owned();
                out.append(reason.as_str());
                out
            },
            CommitError::IdentityConflict { stream_id, sequence } => {
                let mut out =
                    "canonical media-object identity conflict for stream ".to_owned();
                out.append(decimal_text(*stream_id).as_str());
                out.append(" sequence ");
                out.append(decimal_text(*sequence).as_str());
                out
            },
        }
    }
}

/// The cache operation that a commit needs next, or its end.
#[derive(Debug)]
pub enum CommitAction {
    /// Drop everything that the cache holds of the stream.
    ZeroStream,
    /// Set the stream's initialization.
    SetInitialization(Vec<u8>),
    /// Store the payload in a vacant slot of a contiguous run that begins at `base`.
    PutIfAbsent { slot: usize, base: usize },
    /// Store the payload in a slot.
    Add { slot: usize },
    /// The commit is over, with the sequence of the payload.
    Finished(Result<u64, CommitError>),
}

/// What became of the write of a payload.
#[derive(Debug)]
pub enum WriteOutcome {
    /// The slot holds the payload.
    Stored,
    /// The slot holds something else.
    Conflict,
    /// The write failed.
    Failed(String),
}

/// What became of a cache operation.
#[derive(Debug)]
pub enum CommitEvent {
    Zeroed,
    Initialized(Result<(), String>),
    Written(WriteOutcome),
}

/// What a commit waits for.
#[derive(Clone, Copy, Debug, PartialEq, Eq, Structural)]
pub enum CommitStage {
    Zeroing,
    Initializing,
    Writing,
    Over,
}

/// A commit under way.
#[derive(Debug)]
pub struct StreamCommit {
    pub stream_id: u64,
    /// Whether the stream is the node's own.
    pub own_stream: bool,
    pub window_parts: usize,
    /// The size of the payload.
    pub bytes: u64,
    /// The epoch and the kind of a canonical object; nothing for another payload.
    pub canonical: Option<(u64, ObjectKind)>,
    pub sequence: u64,
    pub media_bytes: usize,
    pub media_kind: LiveMediaKind,
    pub init: Option<Vec<u8>>,
    pub ingested_ms: u64,
    pub stage: CommitStage,
}

/// The initialization that a commit stores.
pub open spec fn init_view(init: Option<Vec<u8>>) -> Option<Seq<u8>> {
    match init {
        Some(bytes) => Some(bytes@),
        None => None,
    }
}

/// Whether an object sets its stream's initialization.
pub open spec fn sets_initialization(kind: ObjectKind) -> bool {
    kind is Initialization || kind is CodecConfiguration
}

/// The delay between the start of a source epoch and its activation.
///
/// An epoch that a fresh process finds already active has none; nor has one that begins later
/// than now.
pub open spec fn activation_delay(
    previous: Option<u64>,
    epoch: u64,
    process_started_unix_us: u64,
    now_us: u64,
) -> Option<u64> {
    if (previous is Some || epoch >= process_started_unix_us) && now_us >= epoch {
        Some((now_us - epoch) as u64)
    } else {
        None
    }
}

/// Why an object of a stream is refused before anything changes.
pub enum Refusal {
    Mismatch,
    Stale { current: u64 },
}

/// The refusal of an object that arrives on a stream.
pub open spec fn refusal(
    object: CanonicalModel,
    stream_id: u64,
    current_epoch: Option<u64>,
) -> Option<Refusal> {
    if object.stream != decimal(stream_id as nat) {
        Some(Refusal::Mismatch)
    } else if current_epoch is Some && object.epoch < current_epoch->0 {
        Some(Refusal::Stale { current: current_epoch->0 })
    } else {
        None
    }
}

/// Whether two states differ in nothing that their contents show.
pub open spec fn unchanged(a: LiveState, b: LiveState) -> bool {
    &&& a.counters == b.counters
    &&& a.assembly == b.assembly
    &&& a.process_started_unix_us == b.process_started_unix_us
    &&& a.same_streams(b)
}

/// The action that asks for a payload's slot.
pub open spec fn write_action(
    action: CommitAction,
    canonical: Option<(u64, ObjectKind)>,
    sequence: u64,
    base: Option<u64>,
) -> bool {
    let first = match base {
        Some(base) => base,
        None => sequence,
    };
    match canonical {
        Some((_, kind)) => if kind != ObjectKind::Media {
            action == CommitAction::Finished(Ok(sequence))
        } else if sequence > usize::MAX {
            action == CommitAction::Finished(Err(CommitError::SequenceTooLarge))
        } else if first > usize::MAX {
            action == CommitAction::Finished(Err(CommitError::BaseTooLarge))
        } else {
            action == CommitAction::PutIfAbsent { slot: sequence as usize, base: first as usize }
        },
        None => if sequence > usize::MAX {
            action == CommitAction::Finished(Err(CommitError::SequenceTooLarge))
        } else {
            action == CommitAction::Add { slot: sequence as usize }
        },
    }
}

/// The stage that goes with an action.
pub open spec fn stage_of(action: CommitAction) -> CommitStage {
    match action {
        CommitAction::ZeroStream => CommitStage::Zeroing,
        CommitAction::SetInitialization(_) => CommitStage::Initializing,
        CommitAction::PutIfAbsent { .. } => CommitStage::Writing,
        CommitAction::Add { .. } => CommitStage::Writing,
        CommitAction::Finished(_) => CommitStage::Over,
    }
}

impl StreamCommit {
    /// Whether two commits are of the same payload.
    pub open spec fn same_payload(self, other: StreamCommit) -> bool {
        &&& self.stream_id == other.stream_id
        &&& self.own_stream == other.own_stream
        &&& self.window_parts == other.window_parts
        &&& self.bytes == other.bytes
        &&& self.canonical == other.canonical
        &&& self.sequence == other.sequence
        &&& self.media_bytes == other.media_bytes
        &&& self.media_kind == other.media_kind
        &&& init_view(self.init) == init_view(other.init)
    }

    /// Whether this is the commit of an object.
    pub open spec fn of_object(self, object: CanonicalModel) -> bool {
        &&& self.canonical == Some((object.epoch, object.kind))
        &&& self.sequence == object.object
        &&& self.media_bytes == object.payload.len()
        &&& self.media_kind == (if is_fmp4_object(object) {
            LiveMediaKind::Fmp4
        } else {
            LiveMediaKind::Ts
        })
        &&& init_view(self.init) == (if sets_initialization(object.kind) {
            Some(object.payload)
        } else {
            None
        })
    }

    /// The event that a commit waits for.
    pub open spec fn expects(self, event: CommitEvent) -> bool {
        match event {
            CommitEvent::Zeroed => self.stage is Zeroing && self.canonical is Some,
            CommitEvent::Initialized(_) => self.stage is Initializing,
            CommitEvent::Written(_) => self.stage is Writing,
        }
    }

    /// The stream after the payload of a commit was taken in.
    pub open spec fn taken_in(self, stream: StreamModel, now_ms: u64) -> StreamModel {
        match self.canonical {
            Some(_) => stream.ingested(now_ms, self.media_kind, init_view(self.init)).seen(
                self.sequence,
            ),
            None => stream.ingested(now_ms, self.media_kind, init_view(self.init)).advanced(),
        }
    }

    /// Whether an action follows the taking in of a commit's payload.
    pub open spec fn follows_intake(self, action: CommitAction, stream: StreamModel) -> bool {
        match init_view(self.init) {
            Some(init) => action is SetInitialization && action->SetInitialization_0@ == init,
            None => write_action(
                action,
                self.canonical,
                self.sequence,
                stream.subscription_base_object,
            ),
        }
    }

    /// The next action once the initialization is settled.
    fn ask_for_slot(&mut self, state: &LiveState) -> (r: CommitAction)
        ensures
            write_action(
                r,
                old(self).canonical,
                old(self).sequence,
                state.stream(old(self).stream_id).subscription_base_object,
            ),
            final(self).same_payload(*old(self)),
            final(self).ingested_ms == old(self).ingested_ms,
            final(self).stage == stage_of(r),
    {
        let action = match self.canonical {
            Some((_, kind)) => if kind != ObjectKind::Media {
                CommitAction::Finished(Ok(self.sequence))
            } else if self.sequence > usize::MAX as u64 {
                CommitAction::Finished(Err(CommitError::SequenceTooLarge))
            } else {
                let base: u64 = match state.streams.get(&self.stream_id) {
                    Some(stream) => match stream.subscription_base_object {
                        Some(base) => base,
                        None => self.sequence,
                    },
                    None => self.sequence,
                };
                if base > usize::MAX as u64 {
                    CommitAction::Finished(Err(CommitError::BaseTooLarge))
                } else {
                    CommitAction::PutIfAbsent { slot: self.sequence as usize, base: base as usize }
                }
            },
            None => if self.sequence > usize::MAX as u64 {
                CommitAction::Finished(Err(CommitError::SequenceTooLarge))
            } else {
                CommitAction::Add { slot: self.sequence as usize }
            },
        };
        self.stage = match &action {
            CommitAction::PutIfAbsent { .. } => CommitStage::Writing,
            CommitAction::Add { .. } => CommitStage::Writing,
            CommitAction::ZeroStream => CommitStage::Zeroing,
            CommitAction::SetInitialization(_) => CommitStage::Initializing,
            CommitAction::Finished(_) => CommitStage::Over,
        };
        action
    }

    /// Takes the payload in and goes on to the initialization or the slot.
    fn take_in(&mut self, state: &mut LiveState, now_ms: u64) -> (r: CommitAction)
        requires
            old(self).canonical is None ==> old(self).sequence == old(state).stream(
                old(self).stream_id,
            ).next(),
        ensures
            final(state).process_started_unix_us == old(state).process_started_unix_us,
            final(state).assembly == old(state).assembly,
            final(state).counters == old(state).counters.counted(old(self).bytes, now_ms),
            final(state).stream(old(self).stream_id) == old(self).taken_in(
                old(state).stream(old(self).stream_id),
                now_ms,
            ),
            final(state).same_streams_but(*old(state), old(self).stream_id),
            final(self).same_payload(*old(self)),
            final(self).ingested_ms == now_ms,
            final(self).follows_intake(r, old(state).stream(old(self).stream_id)),
            final(self).stage == stage_of(r),
    {
        let stream_id: u64 = self.stream_id;
        state.ingest(stream_id, self.bytes, now_ms, self.media_kind, self.init.as_ref());
        if self.canonical.is_some() {
            state.observe_stream_seq(stream_id, self.sequence);
        } else {
            let _ = state.next_stream_seq(stream_id);
        }
        self.ingested_ms = now_ms;
        match &self.init {
            Some(init) => {
                let bytes = copy_bytes(init.as_slice());
                self.stage = CommitStage::Initializing;
                CommitAction::SetInitialization(bytes)
            },
            None => self.ask_for_slot(state),
        }
    }

    /// Begins the commit of a canonical object that arrived on a stream.
    ///
    /// An object of another stream or of an earlier epoch is refused and changes nothing. One
    /// of another epoch first has the stream dropped from the cache.
    pub fn begin_object(
        state: &mut LiveState,
        own_stream_id: u64,
        window_parts: usize,
        stream_id: u64,
        bytes: u64,
        object: &CanonicalObject,
        now_ms: u64,
    ) -> (r: (StreamCommit, CommitAction))
        ensures
            r.0.stream_id == stream_id,
            r.0.own_stream == (stream_id == own_stream_id),
            r.0.window_parts == window_parts,
            r.0.bytes == bytes,
            r.0.of_object(object@),
            r.0.stage == stage_of(r.1),
            object_begins(*old(state), *final(state), r.0, r.1, object@, now_ms),
    {
        let init = match object.kind {
            ObjectKind::Initialization | ObjectKind::CodecConfiguration => Some(
                copy_bytes(object.payload.as_slice()),
            ),
            _ => None,
        };
        let media_kind = if object.is_fmp4() {
            LiveMediaKind::Fmp4
        } else {
            LiveMediaKind::Ts
        };
        let mut commit = StreamCommit {
            stream_id,
            own_stream: stream_id == own_stream_id,
            window_parts,
            bytes,
            canonical: Some((object.epoch, object.kind)),
            sequence: object.object,
            media_bytes: object.payload.len(),
            media_kind,
            init,
            ingested_ms: now_ms,
            stage: CommitStage::Over,
        };
        let expected = decimal_text(stream_id);
        if !same_text(object.stream.as_str(), expected.as_str()) {
            let object_stream = object.stream.clone();
            return (
                commit,
                CommitAction::Finished(Err(CommitError::StreamMismatch { object_stream, stream_id })),
            );
        }
        let current: Option<u64> = match state.streams.get(&stream_id) {
            Some(stream) => stream.canonical_epoch,
            None => None,
        };
        match current {
            Some(current) => {
                if object.epoch < current {
                    return (
                        commit,
                        CommitAction::Finished(
                            Err(
                                CommitError::StaleEpoch { epoch: object.epoch, stream_id, current },
                            ),
                        ),
                    );
                }
                if object.epoch != current {
                    commit.stage = CommitStage::Zeroing;
                    return (commit, CommitAction::ZeroStream);
                }
            },
            None => {
                commit.stage = CommitStage::Zeroing;
                return (commit, CommitAction::ZeroStream);
            },
        }
        let action = commit.take_in(state, now_ms);
        (commit, action)
    }

    /// Begins the commit of a payload that carries no number of its own.
    pub fn begin_plain(
        state: &mut LiveState,
        own_stream_id: u64,
        window_parts: usize,
        stream_id: u64,
        bytes: u64,
        slot: &LiveSlotPayload,
        now_ms: u64,
    ) -> (r: (StreamCommit, CommitAction))
        ensures
            r.0.stream_id == stream_id,
            r.0.own_stream == (stream_id == own_stream_id),
            r.0.window_parts == window_parts,
            r.0.bytes == bytes,
            r.0.canonical is None,
            r.0.sequence == old(state).stream(stream_id).next(),
            r.0.media_bytes == slot_media(slot@).len(),
            r.0.media_kind == slot_media_kind(slot@),
            init_view(r.0.init) == slot_init(slot@),
            r.0.stage == stage_of(r.1),
            intake(*old(state), *final(state), r.0, r.1, now_ms),
    {
        let sequence: u64 = match state.streams.get(&stream_id) {
            Some(stream) => match stream.next_seq {
                Some(next) => next,
                None => 0,
            },
            None => 0,
        };
        let media = slot.media();
        let mut commit = StreamCommit {
            stream_id,
            own_stream: stream_id == own_stream_id,
            window_parts,
            bytes,
            canonical: None,
            sequence,
            media_bytes: media.len(),
            media_kind: slot.media_kind(),
            init: slot.init(),
            ingested_ms: now_ms,
            stage: CommitStage::Over,
        };
        let action = commit.take_in(state, now_ms);
        (commit, action)
    }

    /// Begins the commit of a payload that arrived on a stream.
    pub fn begin(
        state: &mut LiveState,
        own_stream_id: u64,
        window_parts: usize,
        stream_id: u64,
        payload: &[u8],
        now_ms: u64,
    ) -> (r: Result<(StreamCommit, CommitAction), CommitError>)
        ensures
            r is Err <==> claims_canonical(payload@) && decoded_media_object(payload@) is None,
            match r {
                Err(error) => error is InvalidEnvelope && unchanged(*final(state), *old(state)),
                Ok((commit, action)) => {
                    &&& commit.stream_id == stream_id
                    &&& commit.own_stream == (stream_id == own_stream_id)
                    &&& commit.window_parts == window_parts
                    &&& commit.bytes == payload@.len()
                    &&& commit.stage == stage_of(action)
                    &&& if claims_canonical(payload@) {
                        &&& commit.of_object(decoded_media_object(payload@)->0)
                        &&& object_begins(
                            *old(state),
                            *final(state),
                            commit,
                            action,
                            decoded_media_object(payload@)->0,
                            now_ms,
                        )
                    } else {
                        let slot = slot_given(payload@, None, None);
                        &&& commit.canonical is None
                        &&& commit.sequence == old(state).stream(stream_id).next()
                        &&& commit.media_bytes == slot_media(slot).len()
                        &&& commit.media_kind == slot_media_kind(slot)
                        &&& init_view(commit.init) == slot_init(slot)
                        &&& intake(*old(state), *final(state), commit, action, now_ms)
                    }
                },
            },
    {
        let bytes: u64 = payload.len() as u64;
        match decode_canonical_stream_object(payload) {
            Err(_) => Err(CommitError::InvalidEnvelope),
            Ok(Some(object)) => Ok(
                StreamCommit::begin_object(
                    state,
                    own_stream_id,
                    window_parts,
                    stream_id,
                    bytes,
                    &object,
                    now_ms,
                ),
            ),
            Ok(None) => {
                let slot = LiveSlotPayload::decode(payload);
                Ok(
                    StreamCommit::begin_plain(
                        state,
                        own_stream_id,
                        window_parts,
                        stream_id,
                        bytes,
                        &slot,
                        now_ms,
                    ),
                )
            },
        }
    }

    /// Goes on with a commit after a cache operation.
    pub fn resume(
        &mut self,
        state: &mut LiveState,
        event: CommitEvent,
        now_ms: u64,
        now_us: u64,
    ) -> (r: CommitAction)
        requires
            old(self).expects(event),
        ensures
            final(self).same_payload(*old(self)),
            final(self).stage == stage_of(r),
            resumed(*old(state), *final(state), *old(self), *final(self), event, r, now_ms, now_us),
    {
        match event {
            CommitEvent::Zeroed => {
                let (epoch, _) = self.canonical.unwrap();
                let stream_id: u64 = self.stream_id;
                let previous: Option<u64> = match state.streams.get(&stream_id) {
                    Some(stream) => stream.canonical_epoch,
                    None => None,
                };
                let delay: Option<u64> = if (previous.is_some() || epoch
                    >= state.process_started_unix_us) && now_us >= epoch {
                    Some(now_us - epoch)
                } else {
                    None
                };
                state.activate_epoch(stream_id, epoch, delay, self.own_stream);
                self.take_in(state, now_ms)
            },
            CommitEvent::Initialized(result) => match result {
                Ok(_) => self.ask_for_slot(state),
                Err(reason) => {
                    self.stage = CommitStage::Over;
                    CommitAction::Finished(Err(CommitError::InitializationWrite { reason }))
                },
            },
            CommitEvent::Written(outcome) => {
                self.stage = CommitStage::Over;
                let canonical: bool = self.canonical.is_some();
                match outcome {
                    WriteOutcome::Failed(reason) => if canonical {
                        CommitAction::Finished(Err(CommitError::CanonicalWrite { reason }))
                    } else {
                        CommitAction::Finished(Err(CommitError::PlainWrite { reason }))
                    },
                    WriteOutcome::Conflict => CommitAction::Finished(
                        Err(
                            CommitError::IdentityConflict {
                                stream_id: self.stream_id,
                                sequence: self.sequence,
                            },
                        ),
                    ),
                    WriteOutcome::Stored => {
                        state.store_part(
                            self.stream_id,
                            self.sequence,
                            canonical,
                            self.media_bytes,
                            self.ingested_ms,
                            now_us,
                            self.window_parts,
                        );
                        CommitAction::Finished(Ok(self.sequence))
                    },
                }
            },
        }
    }
}

/// How the taking in of a payload changes the state, and what it asks for.
pub open spec fn intake(
    before: LiveState,
    after: LiveState,
    commit: StreamCommit,
    action: CommitAction,
    now_ms: u64,
) -> bool {
    &&& after.process_started_unix_us == before.process_started_unix_us
    &&& after.assembly == before.assembly
    &&& after.counters == before.counters.counted(commit.bytes, now_ms)
    &&& after.stream(commit.stream_id) == commit.taken_in(before.stream(commit.stream_id), now_ms)
    &&& after.same_streams_but(before, commit.stream_id)
    &&& commit.ingested_ms == now_ms
    &&& commit.follows_intake(action, before.stream(commit.stream_id))
}

/// How the commit of an object begins.
pub open spec fn object_begins(
    before: LiveState,
    after: LiveState,
    commit: StreamCommit,
    action: CommitAction,
    object: CanonicalModel,
    now_ms: u64,
) -> bool {
    let current = before.stream(commit.stream_id).canonical_epoch;
    match refusal(object, commit.stream_id, current) {
        Some(Refusal::Mismatch) => {
            &&& unchanged(after, before)
            &&& action matches CommitAction::Finished(Err(CommitError::StreamMismatch {
                object_stream,
                stream_id,
            })) && object_stream@ == object.stream && stream_id == commit.stream_id
        },
        Some(Refusal::Stale { current }) => {
            &&& unchanged(after, before)
            &&& action == CommitAction::Finished(
                Err(
                    CommitError::StaleEpoch {
                        epoch: object.epoch,
                        stream_id: commit.stream_id,
                        current,
                    },
                ),
            )
        },
        None => if current != Some(object.epoch) {
            unchanged(after, before) && action is ZeroStream
        } else {
            intake(before, after, commit, action, now_ms)
        },
    }
}

/// How a commit goes on after a cache operation.
pub open spec fn resumed(
    before: LiveState,
    after: LiveState,
    commit: StreamCommit,
    next: StreamCommit,
    event: CommitEvent,
    action: CommitAction,
    now_ms: u64,
    now_us: u64,
) -> bool {
    let id = commit.stream_id;
    match event {
        CommitEvent::Zeroed => {
            let epoch = (commit.canonical->0).0;
            let stream = before.stream(id).activated(
                epoch,
                activation_delay(
                    before.stream(id).canonical_epoch,
                    epoch,
                    before.process_started_unix_us,
                    now_us,
                ),
            );
            &&& after.process_started_unix_us == before.process_started_unix_us
            &&& after.assembly == before.assembly
            &&& after.counters == (if commit.own_stream {
                before.counters.without_commit()
            } else {
                before.counters
            }).counted(commit.bytes, now_ms)
            &&& after.stream(id) == commit.taken_in(stream, now_ms)
            &&& after.same_streams_but(before, id)
            &&& next.ingested_ms == now_ms
            &&& next.follows_intake(action, stream)
        },
        CommitEvent::Initialized(result) => {
            &&& unchanged(after, before)
            &&& next.ingested_ms == commit.ingested_ms
            &&& match result {
                Ok(_) => write_action(
                    action,
                    commit.canonical,
                    commit.sequence,
                    before.stream(id).subscription_base_object,
                ),
                Err(reason) => action == CommitAction::Finished(
                    Err(CommitError::InitializationWrite { reason }),
                ),
            }
        },
        CommitEvent::Written(outcome) => match outcome {
            WriteOutcome::Failed(reason) => {
                &&& unchanged(after, before)
                &&& action == CommitAction::Finished(
                    Err(
                        if commit.canonical is Some {
                            CommitError::CanonicalWrite { reason }
                        } else {
                            CommitError::PlainWrite { reason }
                        },
                    ),
                )
            },
            WriteOutcome::Conflict => {
                &&& unchanged(after, before)
                &&& action == CommitAction::Finished(
                    Err(
                        CommitError::IdentityConflict { stream_id: id, sequence: commit.sequence },
                    ),
                )
            },
            WriteOutcome::Stored => {
                &&& after.process_started_unix_us == before.process_started_unix_us
                &&& after.assembly == before.assembly
                &&& after.counters == before.counters.stored(
                    commit.sequence,
                    commit.ingested_ms,
                    commit.media_bytes,
                )
                &&& after.stream(id) == (if commit.canonical is Some {
                    before.stream(id).stored(commit.sequence)
                } else {
                    before.stream(id)
                }).with_part(commit.sequence, now_us, commit.window_parts)
                &&& after.same_streams_but(before, id)
                &&& action == CommitAction::Finished(Ok(commit.sequence))
            },
        },
    }
}

/// Whether an epoch is no earlier than another; none is the earliest.
pub open spec fn epoch_le(a: Option<u64>, b: Option<u64>) -> bool {
    match (a, b) {
        (None, _) => true,
        (Some(_), None) => false,
        (Some(x), Some(y)) => x <= y,
    }
}

/// Whether the bounds of a stream's objects are in order: both are known or neither is, the
/// first object is no later than the latest and has a slot, and the next number lies behind the
/// latest.
pub open spec fn bounds_hold(stream: StreamModel) -> bool {
    &&& stream.subscription_base_object is Some <==> stream.latest_canonical_object is Some
    &&& stream.subscription_base_object is Some ==> stream.subscription_base_object->0
        <= usize::MAX
    &&& stream.latest_canonical_object is Some ==> {
        &&& stream.subscription_base_object->0 <= stream.latest_canonical_object->0
        &&& stream.next() > stream.latest_canonical_object->0 || stream.next() == u64::MAX
    }
}

impl StreamCommit {
    /// Whether a commit under way fits a state: the stream of a canonical object is in no later
    /// epoch, and not in the object's own while it is still to be dropped; once the payload was
    /// taken in, the stream is in the object's own and the next number lies behind the payload's;
    /// once the payload is to be written, its number has a slot.
    pub open spec fn fits(self, state: LiveState) -> bool {
        let stream = state.stream(self.stream_id);
        match self.canonical {
            Some((epoch, _)) => {
                &&& epoch_le(stream.canonical_epoch, Some(epoch))
                &&& self.stage is Zeroing ==> stream.canonical_epoch != Some(epoch)
                &&& self.stage is Initializing || self.stage is Writing ==> {
                    &&& stream.canonical_epoch == Some(epoch)
                    &&& stream.next() > self.sequence || stream.next() == u64::MAX
                }
                &&& self.stage is Writing ==> self.sequence <= usize::MAX
            },
            None => true,
        }
    }
}

/// Whether a state counts an object among those that its stream has: the stream is in the
/// object's epoch, has come at least as far as the object, and the object has a slot.
pub open spec fn counts_object(state: LiveState, stream_id: u64, object: CanonicalModel) -> bool {
    let stream = state.stream(stream_id);
    &&& bounds_hold(stream)
    &&& stream.canonical_epoch == Some(object.epoch)
    &&& stream.latest_canonical_object is Some
    &&& stream.latest_canonical_object->0 >= object.object
    &&& object.object <= usize::MAX
}

/// An object of another stream or of an earlier epoch is refused, with the reason, and changes
/// nothing.
pub proof fn refused_objects_change_nothing(
    before: LiveState,
    after: LiveState,
    commit: StreamCommit,
    action: CommitAction,
    object: CanonicalModel,
    now_ms: u64,
)
    requires
        object_begins(before, after, commit, action, object, now_ms),
        refusal(
            object,
            commit.stream_id,
            before.stream(commit.stream_id).canonical_epoch,
        ) is Some,
    ensures
        unchanged(after, before),
        action is Finished && action->Finished_0 is Err,
{
}

/// A commit that begins leaves every stream in its epoch, touches no other stream, keeps the
/// bounds of the stream in order, and fits the state that it leaves. What counted among a
/// stream's objects goes on counting. Where the commit is over at once and succeeds, it gives
/// the number that the object names.
pub proof fn commits_begin_in_order(
    before: LiveState,
    after: LiveState,
    commit: StreamCommit,
    action: CommitAction,
    object: CanonicalModel,
    now_ms: u64,
)
    requires
        object_begins(before, after, commit, action, object, now_ms),
        commit.of_object(object),
        commit.stage == stage_of(action),
        bounds_hold(before.stream(commit.stream_id)),
    ensures
        forall|id: u64| #[trigger]
            after.stream(id).canonical_epoch == before.stream(id).canonical_epoch,
        after.same_streams_but(before, commit.stream_id),
        bounds_hold(after.stream(commit.stream_id)),
        !(commit.stage is Over) ==> commit.fits(after),
        action matches CommitAction::Finished(Ok(number)) ==> number == object.object,
        forall|id: u64, known: CanonicalModel| #[trigger]
            counts_object(before, id, known) ==> counts_object(after, id, known),
{
    assert forall|id: u64| #[trigger] after.stream(id).canonical_epoch == before.stream(
        id,
    ).canonical_epoch by {}
}

/// A payload without an envelope that is taken in leaves every stream in its epoch, touches no
/// other stream and keeps the bounds of the stream in order. What counted among a stream's
/// objects goes on counting.
pub proof fn plain_commits_begin_in_order(
    before: LiveState,
    after: LiveState,
    commit: StreamCommit,
    action: CommitAction,
    now_ms: u64,
)
    requires
        intake(before, after, commit, action, now_ms),
        commit.canonical is None,
        bounds_hold(before.stream(commit.stream_id)),
    ensures
        forall|id: u64| #[trigger]
            after.stream(id).canonical_epoch == before.stream(id).canonical_epoch,
        after.same_streams_but(before, commit.stream_id),
        bounds_hold(after.stream(commit.stream_id)),
        commit.fits(after),
        forall|id: u64, known: CanonicalModel| #[trigger]
            counts_object(before, id, known) ==> counts_object(after, id, known),
{
    assert forall|id: u64| #[trigger] after.stream(id).canonical_epoch == before.stream(
        id,
    ).canonical_epoch by {}
}

/// A commit that goes on never takes a stream back to an earlier epoch, touches no other
/// stream, keeps the bounds of the stream in order, and fits the state that it leaves. What
/// counted among a stream's objects goes on counting while the stream is in its epoch. Where the
/// commit succeeds, it gives the number that it began with.
pub proof fn commits_go_on_in_order(
    before: LiveState,
    after: LiveState,
    commit: StreamCommit,
    next: StreamCommit,
    event: CommitEvent,
    action: CommitAction,
    now_ms: u64,
    now_us: u64,
)
    requires
        resumed(before, after, commit, next, event, action, now_ms, now_us),
        commit.expects(event),
        next.same_payload(commit),
        next.stage == stage_of(action),
        commit.fits(before),
        bounds_hold(before.stream(commit.stream_id)),
    ensures
        epoch_le(
            before.stream(commit.stream_id).canonical_epoch,
            after.stream(commit.stream_id).canonical_epoch,
        ),
        after.same_streams_but(before, commit.stream_id),
        bounds_hold(after.stream(commit.stream_id)),
        !(next.stage is Over) ==> next.fits(after),
        action matches CommitAction::Finished(Ok(number)) ==> number == commit.sequence,
        forall|id: u64, known: CanonicalModel| #[trigger]
            counts_object(before, id, known) && after.stream(id).canonical_epoch == Some(known.epoch)
                ==> counts_object(after, id, known),
{
}

/// A canonical object that is stored leaves its stream in its epoch, with the object among
/// those that are there, and gives its own number; the first time at which it was there counts.
/// The stream's initialization stays, whatever leaves the window.
pub proof fn stored_objects_are_there(
    before: LiveState,
    after: LiveState,
    commit: StreamCommit,
    next: StreamCommit,
    action: CommitAction,
    now_ms: u64,
    now_us: u64,
)
    requires
        resumed(
            before,
            after,
            commit,
            next,
            CommitEvent::Written(WriteOutcome::Stored),
            action,
            now_ms,
            now_us,
        ),
        commit.canonical is Some,
        commit.stage is Writing,
        commit.fits(before),
        bounds_hold(before.stream(commit.stream_id)),
    ensures
        ({
            let then = before.stream(commit.stream_id);
            let now = after.stream(commit.stream_id);
            &&& action == CommitAction::Finished(Ok(commit.sequence))
            &&& forall|object: CanonicalModel| #[trigger]
                commit.of_object(object) ==> counts_object(after, commit.stream_id, object)
            &&& now.canonical_epoch == Some((commit.canonical->0).0)
            &&& now.init == then.init && now.media_kind == then.media_kind
            &&& now.latest_canonical_object is Some
            &&& now.latest_canonical_object->0 >= commit.sequence
            &&& now.part_available_unix_us.contains_key(commit.sequence)
            &&& now.part_available_unix_us[commit.sequence]
                == if then.part_available_unix_us.contains_key(commit.sequence) {
                then.part_available_unix_us[commit.sequence]
            } else {
                now_us
            }
            &&& forall|other: u64|
                other != commit.sequence && now.part_available_unix_us.contains_key(other)
                    ==> then.part_available_unix_us.contains_key(other)
                    && #[trigger] now.part_available_unix_us[other]
                    == then.part_available_unix_us[other]
        }),
{
}

/// What a slot holds after a payload was put into it where it was vacant: what it held before,
/// or else the payload.
pub open spec fn slot_after_put(held: Option<Seq<u8>>, payload: Seq<u8>) -> Seq<u8> {
    match held {
        Some(bytes) => bytes,
        None => payload,
    }
}

/// Whether an outcome is what the put of a payload comes to, by what its slot held: unless the
/// write fails, the payload is stored where the slot then holds it, and in conflict where the
/// slot holds something else.
pub open spec fn put_comes_to(
    outcome: WriteOutcome,
    held: Option<Seq<u8>>,
    payload: Seq<u8>,
) -> bool {
    match outcome {
        WriteOutcome::Stored => slot_after_put(held, payload) == payload,
        WriteOutcome::Conflict => slot_after_put(held, payload) != payload,
        WriteOutcome::Failed(_) => true,
    }
}

/// A media object that was committed is committed once. While its stream is in its epoch and
/// its slot holds its envelope, whatever else was committed in between:
///
/// - Any media object of the same stream, epoch and number asks the cache for one thing, to put
///   its envelope into that slot if the slot is vacant; the slot goes on holding what it held,
///   and is read as the first object.
/// - The same envelope gives the same number again, unless the write fails. The time at which
///   the object was there first stays, and so do the bounds of the stream's objects.
/// - Another envelope, such as one of another payload, is an error, and the state keeps all that
///   it has of the stream and of what was last committed: only the arrival is noted.
pub proof fn objects_are_committed_once(
    first: Seq<u8>,
    object: CanonicalModel,
    second: Seq<u8>,
    same: CanonicalModel,
    before: LiveState,
    begun: LiveState,
    after: LiveState,
    commit: StreamCommit,
    next: StreamCommit,
    action: CommitAction,
    outcome: WriteOutcome,
    end: CommitAction,
    now_ms: u64,
    later_ms: u64,
    now_us: u64,
)
    requires
        decoded_media_object(first) == Some(object),
        claims_canonical(first),
        object.kind == ObjectKind::Media,
        object.stream == decimal(commit.stream_id as nat),
        counts_object(before, commit.stream_id, object),
        decoded_media_object(second) == Some(same),
        same.stream == object.stream,
        same.epoch == object.epoch,
        same.object == object.object,
        same.kind == ObjectKind::Media,
        commit.of_object(same),
        object_begins(before, begun, commit, action, same, now_ms),
        put_comes_to(outcome, Some(first), second),
        resumed(
            begun,
            after,
            commit,
            next,
            CommitEvent::Written(outcome),
            end,
            later_ms,
            now_us,
        ),
    ensures
        ({
            let id = commit.stream_id;
            let then = before.stream(id);
            let noted = StreamModel {
                last_ingest_unix_ms: Some(now_ms),
                media_kind: Some(commit.media_kind),
                ..then
            };
            let counted = before.counters.counted(commit.bytes, now_ms);
            let slot = slot_after_put(Some(first), second);
            &&& action == CommitAction::PutIfAbsent {
                slot: object.object as usize,
                base: then.subscription_base_object->0 as usize,
            }
            &&& slot == first
            &&& slot_of(slot, Some(id)) == object_slot(object, Some(id))
            &&& second == first && !(outcome is Failed) ==> {
                &&& end == CommitAction::Finished(Ok(object.object))
                &&& after.stream(id) == noted.with_part(
                    object.object,
                    now_us,
                    commit.window_parts,
                )
                &&& then.part_available_unix_us.contains_key(object.object)
                    ==> after.stream(id).part_available_unix_us.contains_key(object.object)
                    && after.stream(id).part_available_unix_us[object.object]
                    == then.part_available_unix_us[object.object]
                &&& after.counters == counted.stored(object.object, now_ms, commit.media_bytes)
            }
            &&& second != first ==> {
                &&& end matches CommitAction::Finished(Err(error)) && (outcome is Conflict
                    ==> error == CommitError::IdentityConflict {
                    stream_id: id,
                    sequence: object.object,
                })
                &&& after.stream(id) == noted
                &&& after.counters == counted
            }
            &&& same.payload != object.payload ==> second != first
            &&& after.same_streams_but(before, id)
            &&& after.process_started_unix_us == before.process_started_unix_us
            &&& after.assembly == before.assembly
            &&& counts_object(after, id, object)
        }),
{
    let id = commit.stream_id;
    let then = before.stream(id);
    assert(then.next_seq is Some && then.next() >= saturating_sum(object.object, 1));
    assert(begun.stream(id) == StreamModel {
        last_ingest_unix_ms: Some(now_ms),
        media_kind: Some(commit.media_kind),
        ..then
    });
}

/// A payload without an envelope, once it is in its slot, is read as what was committed: the
/// same amount of media of the same kind, with the same initialization.
pub proof fn plain_payloads_read_back(commit: StreamCommit, payload: Seq<u8>)
    requires
        !claims_canonical(payload),
        commit.media_bytes == slot_media(slot_given(payload, None, None)).len(),
        commit.media_kind == slot_media_kind(slot_given(payload, None, None)),
        init_view(commit.init) == slot_init(slot_given(payload, None, None)),
    ensures
        ({
            let slot = slot_of(payload, Some(commit.stream_id));
            &&& commit.media_bytes == slot_media(slot).len()
            &&& commit.media_kind == slot_media_kind(slot)
            &&& init_view(commit.init) == slot_init(slot)
        }),
{
}

/// A media object that is committed to its stream is read from its slot as it was sent, and as
/// nothing on any other stream. (The media of a bundle are read as `media::bundle_reads_back`
/// says.)
pub proof fn media_objects_read_back(
    commit: StreamCommit,
    envelope: Seq<u8>,
    object: CanonicalModel,
    current_epoch: Option<u64>,
    other: u64,
)
    requires
        claims_canonical(envelope),
        decoded_media_object(envelope) == Some(object),
        commit.of_object(object),
        object.kind == ObjectKind::Media,
        metadata_value(object.metadata, "payload-format"@) != Some(ascii_bytes("fmp4-slot-v1"@)),
        refusal(object, commit.stream_id, current_epoch) is None,
    ensures
        slot_media(slot_of(envelope, Some(commit.stream_id))) == object.payload,
        slot_media(slot_of(envelope, Some(commit.stream_id))).len() == commit.media_bytes,
        slot_media_kind(slot_of(envelope, Some(commit.stream_id))) == commit.media_kind,
        other != commit.stream_id ==> slot_media(slot_of(envelope, Some(other))).len() == 0,
{
    if other != commit.stream_id {
        decimal_reads_back(other);
        decimal_reads_back(commit.stream_id);
    }
}

/// How long an epoch took to begin is told where the node was there when it began or knew one
/// before it, and where it does not lie ahead: from its start until now.
pub proof fn activation_is_timed_from_the_epoch(
    previous: Option<u64>,
    epoch: u64,
    process_started_unix_us: u64,
    now_us: u64,
)
    ensures
        match activation_delay(previous, epoch, process_started_unix_us, now_us) {
            Some(delay) => epoch + delay == now_us && (previous is Some || epoch
                >= process_started_unix_us),
            None => now_us < epoch || (previous is None && epoch < process_started_unix_us),
        },
{
}

/// An object is refused where it names another stream than carries it, or an epoch before the
/// current one, and nowhere else.
pub proof fn objects_of_other_streams_and_epochs_are_refused(
    object: CanonicalModel,
    stream_id: u64,
    current_epoch: Option<u64>,
)
    ensures
        refusal(object, stream_id, current_epoch) == Some(Refusal::Mismatch) <==> object.stream
            != decimal(stream_id as nat),
        refusal(object, stream_id, current_epoch) is None <==> object.stream == decimal(
            stream_id as nat,
        ) && (current_epoch is Some ==> object.epoch >= current_epoch->0),
        match refusal(object, stream_id, current_epoch) {
            Some(Refusal::Stale { current }) => current_epoch == Some(current) && object.epoch
                < current,
            _ => true,
        },
{
}

/// Media is written to the slot of its sequence, from the base of its stream or from itself where
/// it is the first; other objects are over without a slot.
pub proof fn media_go_to_the_slot_of_their_sequence(
    action: CommitAction,
    epoch: u64,
    sequence: u64,
    base: Option<u64>,
)
    requires
        sequence <= usize::MAX,
        base is Some ==> base->0 <= usize::MAX,
        write_action(action, Some((epoch, ObjectKind::Media)), sequence, base),
    ensures
        match action {
            CommitAction::PutIfAbsent { slot, base: first } => slot == sequence && (base is Some
                ==> first == base->0) && (base is None ==> first == sequence),
            _ => false,
        },
{
}

/// A payload without an envelope is added to the slot of its sequence.
pub proof fn plain_payloads_are_added(action: CommitAction, sequence: u64, base: Option<u64>)
    requires
        sequence <= usize::MAX,
        write_action(action, None, sequence, base),
    ensures
        match action {
            CommitAction::Add { slot } => slot == sequence,
            _ => false,
        },
{
}

/// An object takes its place in the sequence of its stream, which goes on behind it; a payload
/// without an envelope takes the next place.
pub proof fn intake_goes_on_behind_the_object(
    commit: StreamCommit,
    stream: StreamModel,
    now_ms: u64,
)
    requires
        commit.sequence < u64::MAX,
        stream.next() < u64::MAX,
    ensures
        ({
            let after = commit.taken_in(stream, now_ms);
            &&& after.last_ingest_unix_ms == Some(now_ms)
            &&& after.media_kind == Some(commit.media_kind)
            &&& commit.canonical is Some ==> after.next() > commit.sequence && after.next()
                >= stream.next()
            &&& commit.canonical is None ==> after.next() == stream.next() + 1
            &&& init_view(commit.init) is Some ==> after.init == init_view(commit.init)
            &&& init_view(commit.init) is None ==> after.init == stream.init
        }),
{
}

/// An object that initializes or configures its stream is kept as its initialization, whole; media
/// bring none. The kind of the media is what the object names, and its size that of its payload.
pub proof fn initializations_are_kept_whole(commit: StreamCommit, object: CanonicalModel)
    requires
        commit.of_object(object),
    ensures
        object.kind is Initialization || object.kind is CodecConfiguration ==> init_view(
            commit.init,
        ) == Some(object.payload),
        object.kind is Media || object.kind is Discontinuity ==> init_view(commit.init) is None,
        commit.sequence == object.object,
        commit.canonical == Some((object.epoch, object.kind)),
        commit.media_bytes == object.payload.len(),
        commit.media_kind is Fmp4 <==> metadata_value(object.metadata, "container"@) == Some(
            ascii_bytes("fmp4"@),
        ),
{
}

/// A failure of a commit is told in its own words, with what it is about: the two streams of an
/// object that went astray, the two epochs of one that came late, the place of one that conflicts.
pub proof fn failures_are_told_with_what_they_are_about(
    object_stream: String,
    reason: String,
    stream_id: u64,
    epoch: u64,
    current: u64,
    sequence: u64,
)
    ensures
        CommitError::InvalidEnvelope.message_text() == "invalid canonical media-object envelope"@,
        CommitError::SequenceTooLarge.message_text() == "stream slot sequence too large"@,
        CommitError::BaseTooLarge.message_text() == "stream subscription base object is too large"@,
        (CommitError::StreamMismatch { object_stream, stream_id }).message_text()
            == "canonical media-object stream "@ + object_stream@
            + " does not match carrier stream "@ + decimal(stream_id as nat),
        (CommitError::StaleEpoch { epoch, stream_id, current }).message_text()
            == "stale canonical source epoch "@ + decimal(epoch as nat) + " for stream "@ + decimal(
            stream_id as nat,
        ) + "; current epoch is "@ + decimal(current as nat),
        (CommitError::IdentityConflict { stream_id, sequence }).message_text()
            == "canonical media-object identity conflict for stream "@ + decimal(stream_id as nat)
            + " sequence "@ + decimal(sequence as nat),
        (CommitError::InitializationWrite { reason }).message_text()
            == "stream initialization cache write failed: "@ + reason@,
        (CommitError::CanonicalWrite { reason }).message_text()
            == "canonical stream cache write failed: "@ + reason@,
        (CommitError::PlainWrite { reason }).message_text()
            == "stream-prefixed chunk cache write failed: "@ + reason@,
{
}

} // verus!
