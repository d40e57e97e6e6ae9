//! What a node does with a datagram that arrives: audio is relayed, coded media goes on to the
//! decoders, and what the decoders make whole is forwarded and committed.

use vstd::prelude::*;
use crate::addr::SocketAddress;
use crate::audio::{
    is_multichannel_audio_transport_datagram, native_audio_message, wants, NativeAudioMessage,
    NativeAudioRelay, MULTICHANNEL_AUDIO_TRANSPORT_MAGIC,
};
use crate::bytes::{ascii_bytes, byte_range, has_byte_prefix};
use crate::failover::{RelayDatagramObservation, RelayIngressParentPath};
use crate::forwarder::{
    counted_offers, recipients, MediaDatagramRole, RelayDownstreamForwarder,
};
use crate::histogram::{
    publication_clock, publication_clock_of, RelayAvailabilityObservation,
    RelayAvailabilityTelemetry, RelayPublicationClock, Stage, StageTimestamp, TimedObject,
};
use crate::live_state::saturating_diff;
use crate::media::{claims_canonical, decoded_media_object, CanonicalModel, ObjectKind};
use crate::relay_snapshot::RelayRuntime;
use crate::table::{Expires, Table, TableKey};
use crate::text::{parse_u64, parsed_u64};
use crate::warm::{ObjectKey, WarmModel};

verus! {

/// How long the session of an audio block is remembered, in nanoseconds.
pub const AUDIO_BLOCK_TTL_NS: u64 = 15_000_000_000;

/// How long a canonical stream may be idle before it is retired, in milliseconds.
pub const CANONICAL_STREAM_IDLE_RETENTION_MS: u64 = 300_000;

/// What an audio datagram says of itself.
#[derive(Clone, Copy, Debug, PartialEq, Eq, Structural)]
pub struct AudioIdentity {
    pub block_id: u32,
    pub source_index: Option<u16>,
    pub session_id: Option<u64>,
}

/// What `inspect_multichannel_audio_datagram` of `raptorq_datagram_fec` reads from a coded
/// audio datagram: nothing where it refuses it.
pub uninterp spec fn audio_identity(datagram: Seq<u8>) -> Option<AudioIdentity>;

/// Calls `inspect_multichannel_audio_datagram` of `raptorq_datagram_fec`, which checks a coded
/// audio datagram and reads its block, its place among the sources and its session.
#[verifier::external_body]
fn inspect_audio(datagram: &[u8]) -> (r: Option<AudioIdentity>)
    ensures
        r == audio_identity(datagram@),
{
    let identity = raptorq_datagram_fec::inspect_multichannel_audio_datagram(datagram).ok()?;
    Some(AudioIdentity {
        block_id: identity.block_id,
        source_index: identity.source_index,
        session_id: identity.session_id,
    })
}

/// A block of audio, of one peer or of any.
#[derive(Clone, Copy, Debug, PartialEq, Eq, Structural)]
pub struct AudioBlock {
    pub peer: Option<SocketAddress>,
    pub block_id: u32,
}

impl TableKey for AudioBlock {
    fn same(self, other: Self) -> (r: bool) {
        self == other
    }
}

/// The session of a block, and how long it is remembered.
#[derive(Clone, Copy, Debug, PartialEq, Eq, Structural)]
pub struct BlockSession {
    pub session_id: u64,
    pub expires_at_ns: u64,
}

impl Expires for BlockSession {
    open spec fn deadline(&self) -> u64 {
        self.expires_at_ns
    }

    fn expires_at(&self) -> (r: u64) {
        self.expires_at_ns
    }
}

/// The sessions of the blocks that were seen lately.
#[derive(Debug)]
pub struct AudioBlockSessions {
    blocks: Table<AudioBlock, BlockSession>,
}

/// What is left of a memory at an instant.
pub open spec fn remembered(session: Option<BlockSession>, now_ns: u64) -> Option<BlockSession> {
    match session {
        Some(s) => if s.expires_at_ns > now_ns {
            Some(s)
        } else {
            None
        },
        None => None,
    }
}

impl AudioBlockSessions {
    /// Each block has one session.
    pub closed spec fn valid(self) -> bool {
        self.blocks.valid()
    }

    /// The session of a block.
    pub closed spec fn session(self, block: AudioBlock) -> Option<BlockSession> {
        if self.blocks.map().contains_key(block) {
            Some(self.blocks.map()[block])
        } else {
            None
        }
    }

    /// No sessions.
    pub fn new() -> (r: Self)
        ensures
            r.valid(),
            forall|block: AudioBlock| (#[trigger] r.session(block)) is None,
    {
        AudioBlockSessions { blocks: Table::new() }
    }

    /// Forgets what is over.
    fn expire(&mut self, now_ns: u64)
        requires
            old(self).valid(),
        ensures
            final(self).valid(),
            forall|block: AudioBlock| #[trigger]
                final(self).session(block) == remembered(old(self).session(block), now_ns),
    {
        self.blocks.expire(now_ns);
        proof {
            assert forall|block: AudioBlock| #[trigger] self.session(block) == remembered(
                old(self).session(block),
                now_ns,
            ) by {
                assert(self.blocks.map().contains_key(block) <==> old(
                    self,
                ).blocks.map().contains_key(block) && old(self).blocks.map()[block].deadline()
                    > now_ns);
            }
        }
    }

    /// The session of a block: the one that its datagram names, which is remembered from now
    /// on, or else the one that is remembered.
    pub fn settle(&mut self, block: AudioBlock, named: Option<u64>, now_ns: u64) -> (r: Option<u64>)
        requires
            old(self).valid(),
            now_ns + AUDIO_BLOCK_TTL_NS <= u64::MAX,
        ensures
            final(self).valid(),
            settled(*old(self), *final(self), block, named, r, now_ns),
    {
        self.expire(now_ns);
        let ghost mid = *self;
        let session = match named {
            Some(session_id) => {
                self.blocks.insert(
                    block,
                    BlockSession { session_id, expires_at_ns: now_ns + AUDIO_BLOCK_TTL_NS },
                );
                Some(session_id)
            },
            None => match self.blocks.get(block) {
                Some(session) => Some(session.session_id),
                None => None,
            },
        };
        proof {
            assert forall|other: AudioBlock| other != block implies #[trigger] self.session(other)
                == remembered(old(self).session(other), now_ns) by {
                assert(mid.session(other) == remembered(old(self).session(other), now_ns));
            }
            assert(mid.session(block) == remembered(old(self).session(block), now_ns));
        }
        session
    }

    /// Takes a relayed audio datagram whose identity was read.
    pub fn relay_identified(&mut self, identity: Option<AudioIdentity>, now_ns: u64) -> (r: AudioStep)
        requires
            old(self).valid(),
            now_ns + AUDIO_BLOCK_TTL_NS <= u64::MAX,
        ensures
            final(self).valid(),
            audio_relayed(*old(self), *final(self), identity, r, now_ns),
    {
        match identity {
            None => {
                self.expire(now_ns);
                AudioStep::Invalid
            },
            Some(identity) => {
                let session_id = self.settle(
                    AudioBlock { peer: None, block_id: identity.block_id },
                    identity.session_id,
                    now_ns,
                );
                let role = if identity.source_index.is_some() {
                    MediaDatagramRole::Source
                } else {
                    MediaDatagramRole::Repair
                };
                AudioStep::Relay { session_id, role }
            },
        }
    }
}

/// How the session of a block is settled.
pub open spec fn settled(
    before: AudioBlockSessions,
    after: AudioBlockSessions,
    block: AudioBlock,
    named: Option<u64>,
    session: Option<u64>,
    now_ns: u64,
) -> bool {
    &&& forall|other: AudioBlock|
        other != block ==> #[trigger] after.session(other) == remembered(
            before.session(other),
            now_ns,
        )
    &&& match named {
        Some(id) => {
            &&& session == Some(id)
            &&& after.session(block) == Some(
                BlockSession {
                    session_id: id,
                    expires_at_ns: (now_ns + AUDIO_BLOCK_TTL_NS) as u64,
                },
            )
        },
        None => {
            &&& after.session(block) == remembered(before.session(block), now_ns)
            &&& session == (match remembered(before.session(block), now_ns) {
                Some(s) => Some(s.session_id),
                None => None,
            })
        },
    }
}

/// What becomes of a relayed datagram that may be audio.
#[derive(Clone, Copy, Debug, PartialEq, Eq, Structural)]
pub enum AudioStep {
    /// It is none.
    NotAudio,
    /// It claims to be, and is not.
    Invalid,
    /// It goes to the listeners of a session, to the downstream children by its role, and to
    /// the subscribers of the edge.
    Relay { session_id: Option<u64>, role: MediaDatagramRole },
}

/// How an audio datagram with an identity is relayed.
pub open spec fn audio_relayed(
    before: AudioBlockSessions,
    after: AudioBlockSessions,
    identity: Option<AudioIdentity>,
    step: AudioStep,
    now_ns: u64,
) -> bool {
    match identity {
        None => {
            &&& step is Invalid
            &&& forall|block: AudioBlock| #[trigger]
                after.session(block) == remembered(before.session(block), now_ns)
        },
        Some(identity) => {
            &&& step is Relay
            &&& step->role == (if identity.source_index is Some {
                MediaDatagramRole::Source
            } else {
                MediaDatagramRole::Repair
            })
            &&& settled(
                before,
                after,
                AudioBlock { peer: None, block_id: identity.block_id },
                identity.session_id,
                step->session_id,
                now_ns,
            )
        },
    }
}

/// Whether a datagram claims to carry audio.
pub open spec fn claims_audio(datagram: Seq<u8>) -> bool {
    has_byte_prefix(datagram, ascii_bytes(MULTICHANNEL_AUDIO_TRANSPORT_MAGIC@))
}

/// Takes a datagram of a relay socket that may be audio.
pub fn process_relay_audio_epoch_datagram(
    sessions: &mut AudioBlockSessions,
    datagram: &[u8],
    now_ns: u64,
) -> (r: AudioStep)
    requires
        old(sessions).valid(),
        now_ns + AUDIO_BLOCK_TTL_NS <= u64::MAX,
    ensures
        final(sessions).valid(),
        if claims_audio(datagram@) {
            audio_relayed(
                *old(sessions),
                *final(sessions),
                audio_identity(datagram@.skip(4)),
                r,
                now_ns,
            )
        } else {
            r is NotAudio && *final(sessions) == *old(sessions)
        },
{
    if !is_multichannel_audio_transport_datagram(datagram) {
        return AudioStep::NotAudio;
    }
    proof {
        reveal_strlit("AEP1");
    }
    let coded = byte_range(datagram, 4, datagram.len());
    assert(coded@ =~= datagram@.skip(4));
    let identity = inspect_audio(coded.as_slice());
    sessions.relay_identified(identity, now_ns)
}

/// What becomes of a datagram of a relay socket.
#[derive(Debug)]
pub enum RelayDatagramStep {
    /// It was a message to the native audio relay, perhaps with an acknowledgement.
    Control { reply: Option<Vec<u8>> },
    /// It claims to be audio, and is not.
    InvalidAudio,
    /// It is audio: it goes to these listeners, to the children by its role, and to the edge.
    Audio { listeners: Vec<SocketAddress>, session_id: Option<u64>, role: MediaDatagramRole },
    /// It goes on to the decoders.
    Coded,
}

/// Takes a datagram of a relay socket. Messages to the native audio relay are understood on
/// the primary socket alone.
pub fn receive_relay_datagram(
    path: RelayIngressParentPath,
    native: &mut NativeAudioRelay,
    sessions: &mut AudioBlockSessions,
    peer: SocketAddress,
    datagram: &[u8],
    now_ns: u64,
) -> (r: RelayDatagramStep)
    requires
        old(native).valid(),
        old(sessions).valid(),
        now_ns + AUDIO_BLOCK_TTL_NS <= u64::MAX,
    ensures
        final(native).valid(),
        final(sessions).valid(),
        ({
            let control = path is Primary && !(native_audio_message(datagram@) is Other);
            &&& r is Control <==> control
            &&& !control ==> *final(native) == *old(native)
            &&& control ==> *final(sessions) == *old(sessions)
            &&& !control && !claims_audio(datagram@) ==> r is Coded && *final(sessions) == *old(
                sessions,
            )
            &&& !control && claims_audio(datagram@) ==> {
                &&& r is InvalidAudio || r is Audio
                &&& audio_relayed(
                    *old(sessions),
                    *final(sessions),
                    audio_identity(datagram@.skip(4)),
                    match r {
                        RelayDatagramStep::Audio { session_id, role, .. } => AudioStep::Relay {
                            session_id,
                            role,
                        },
                        _ => AudioStep::Invalid,
                    },
                    now_ns,
                )
            }
            &&& r matches RelayDatagramStep::Audio { listeners, session_id, .. } ==> {
                &&& listeners@.no_duplicates()
                &&& forall|listener: SocketAddress| #[trigger]
                    listeners@.contains(listener) <==> final(native).subscription(listener) is Some
                        && wants(final(native).subscription(listener)->0, session_id)
            }
            &&& control ==> control_taken(
                *old(native),
                *final(native),
                peer,
                datagram@,
                match r {
                    RelayDatagramStep::Control { reply } => reply,
                    _ => None,
                },
                now_ns,
            )
        }),
{
    if path == RelayIngressParentPath::Primary {
        let control = native.handle_control(peer, datagram, now_ns);
        if control.handled {
            return RelayDatagramStep::Control { reply: control.reply };
        }
    }
    match process_relay_audio_epoch_datagram(sessions, datagram, now_ns) {
        AudioStep::NotAudio => RelayDatagramStep::Coded,
        AudioStep::Invalid => RelayDatagramStep::InvalidAudio,
        AudioStep::Relay { session_id, role } => RelayDatagramStep::Audio {
            listeners: native.forward(session_id),
            session_id,
            role,
        },
    }
}

/// What the native audio relay makes of a message of its own.
pub open spec fn control_taken(
    before: NativeAudioRelay,
    after: NativeAudioRelay,
    peer: SocketAddress,
    payload: Seq<u8>,
    reply: Option<Vec<u8>>,
    now_ns: u64,
) -> bool {
    &&& forall|other: SocketAddress|
        other != peer ==> #[trigger] after.subscription(other) == before.subscription(other)
    &&& match native_audio_message(payload) {
        NativeAudioMessage::Subscribe { session_id } => {
            &&& after.subscription(peer) == Some(
                crate::audio::NativeAudioSubscription {
                    session_id,
                    expires_at_ns: (now_ns + crate::audio::NATIVE_AUDIO_SUBSCRIPTION_TTL_NS) as u64,
                },
            )
            &&& reply is Some
            &&& reply->0@ == (match session_id {
                Some(session) => crate::audio::session_ack(session),
                None => ascii_bytes(crate::audio::NATIVE_AUDIO_SUBSCRIBE_ACK@),
            })
        },
        NativeAudioMessage::Unsubscribe { session_id } => {
            &&& reply is None
            &&& after.subscription(peer) == (match before.subscription(peer) {
                Some(s) => if session_id is None || s.session_id == session_id {
                    None
                } else {
                    Some(s)
                },
                None => None,
            })
        },
        _ => reply is None && after == before,
    }
}

/// What becomes of a datagram of the media socket.
#[derive(Debug)]
pub enum MediaDatagramStep {
    /// It was a message to the native audio relay, perhaps with an acknowledgement.
    Control { reply: Option<Vec<u8>> },
    /// It is audio: it goes to these listeners and to the edge.
    Audio { listeners: Vec<SocketAddress>, session_id: Option<u64> },
    /// It goes on to the decoder.
    Coded,
}

/// Takes an audio datagram of the media socket whose identity was read. One that cannot be
/// read belongs to no session, but is passed on.
pub fn settle_media_audio(
    sessions: &mut AudioBlockSessions,
    peer: SocketAddress,
    identity: Option<AudioIdentity>,
    now_ns: u64,
) -> (r: Option<u64>)
    requires
        old(sessions).valid(),
        now_ns + AUDIO_BLOCK_TTL_NS <= u64::MAX,
    ensures
        final(sessions).valid(),
        media_audio_settled(*old(sessions), *final(sessions), peer, identity, r, now_ns),
{
    match identity {
        Some(identity) => sessions.settle(
            AudioBlock { peer: Some(peer), block_id: identity.block_id },
            identity.session_id,
            now_ns,
        ),
        None => {
            sessions.expire(now_ns);
            None
        },
    }
}

/// How the session of an audio datagram of the media socket is settled.
pub open spec fn media_audio_settled(
    before: AudioBlockSessions,
    after: AudioBlockSessions,
    peer: SocketAddress,
    identity: Option<AudioIdentity>,
    session: Option<u64>,
    now_ns: u64,
) -> bool {
    match identity {
        Some(identity) => settled(
            before,
            after,
            AudioBlock { peer: Some(peer), block_id: identity.block_id },
            identity.session_id,
            session,
            now_ns,
        ),
        None => {
            &&& session is None
            &&& forall|block: AudioBlock| #[trigger]
                after.session(block) == remembered(before.session(block), now_ns)
        },
    }
}

/// The listeners that are left once what has expired is dropped.
pub open spec fn listeners_expired(
    before: NativeAudioRelay,
    after: NativeAudioRelay,
    now_ns: u64,
) -> bool {
    forall|peer: SocketAddress| #[trigger]
        after.subscription(peer) == (match before.subscription(peer) {
            Some(s) => if s.expires_at_ns > now_ns {
                Some(s)
            } else {
                None
            },
            None => None,
        })
}

/// Takes a datagram of the media socket, after the listeners whose time is over were dropped.
pub fn receive_media_datagram(
    native: &mut NativeAudioRelay,
    sessions: &mut AudioBlockSessions,
    peer: SocketAddress,
    datagram: &[u8],
    now_ns: u64,
) -> (r: MediaDatagramStep)
    requires
        old(native).valid(),
        old(sessions).valid(),
        now_ns + AUDIO_BLOCK_TTL_NS <= u64::MAX,
    ensures
        final(native).valid(),
        final(sessions).valid(),
        ({
            let control = !(native_audio_message(datagram@) is Other);
            let audio = !control && claims_audio(datagram@);
            &&& r is Control <==> control
            &&& r is Audio <==> audio
            &&& !audio ==> *final(sessions) == *old(sessions)
            &&& !control ==> listeners_expired(*old(native), *final(native), now_ns)
            &&& r matches MediaDatagramStep::Control { reply } ==> exists|live: NativeAudioRelay|
                #[trigger] listeners_expired(*old(native), live, now_ns) && control_taken(
                    live,
                    *final(native),
                    peer,
                    datagram@,
                    reply,
                    now_ns,
                )
            &&& r matches MediaDatagramStep::Audio { listeners, session_id } ==> {
                &&& media_audio_settled(
                    *old(sessions),
                    *final(sessions),
                    peer,
                    audio_identity(datagram@.skip(4)),
                    session_id,
                    now_ns,
                )
                &&& listeners@.no_duplicates()
                &&& forall|listener: SocketAddress| #[trigger]
                    listeners@.contains(listener) <==> final(native).subscription(listener) is Some
                        && wants(final(native).subscription(listener)->0, session_id)
            }
        }),
{
    native.expire(now_ns);
    let ghost live = *native;
    let control = native.handle_control(peer, datagram, now_ns);
    if control.handled {
        assert(listeners_expired(*old(native), live, now_ns));
        assert(control_taken(live, *native, peer, datagram@, control.reply, now_ns));
        return MediaDatagramStep::Control { reply: control.reply };
    }
    if !is_multichannel_audio_transport_datagram(datagram) {
        return MediaDatagramStep::Coded;
    }
    proof {
        reveal_strlit("AEP1");
    }
    let coded = byte_range(datagram, 4, datagram.len());
    assert(coded@ =~= datagram@.skip(4));
    let identity = inspect_audio(coded.as_slice());
    let session_id = settle_media_audio(sessions, peer, identity, now_ns);
    MediaDatagramStep::Audio { listeners: native.forward(session_id), session_id }
}

/// What the relay receiver made of a datagram.
#[derive(Debug)]
pub enum RelayIngestOutcome {
    /// It is not one of a relay session.
    Legacy,
    /// It was refused.
    Rejected,
    /// It was kept until its object is whole.
    Buffered { key: ObjectKey, role: MediaDatagramRole, expires_at_us: u64 },
    /// It was seen before.
    Duplicate { key: ObjectKey, role: MediaDatagramRole, expires_at_us: u64 },
    /// It made its object whole.
    Decoded { key: ObjectKey, role: MediaDatagramRole, expires_at_us: u64 },
}

/// What is left to do after a datagram of a relay session.
#[derive(Clone, Copy, Debug, PartialEq, Eq, Structural)]
pub enum RelayIngestStep {
    /// Give it to the older decoder.
    PassOn,
    /// Nothing.
    Dropped,
    /// Tell the failover controller.
    Seen(RelayDatagramObservation),
    /// Commit the object, then tell the failover controller.
    Commit { role: MediaDatagramRole },
}

/// What an outcome leaves to do.
pub open spec fn step_after(outcome: RelayIngestOutcome) -> RelayIngestStep {
    match outcome {
        RelayIngestOutcome::Legacy => RelayIngestStep::PassOn,
        RelayIngestOutcome::Rejected => RelayIngestStep::Dropped,
        RelayIngestOutcome::Buffered { role, .. } => RelayIngestStep::Seen(
            RelayDatagramObservation { role, decoded: false },
        ),
        RelayIngestOutcome::Duplicate { role, .. } => RelayIngestStep::Seen(
            RelayDatagramObservation { role, decoded: false },
        ),
        RelayIngestOutcome::Decoded { role, .. } => RelayIngestStep::Commit { role },
    }
}

/// What an outcome leaves to do.
pub fn relay_ingest_step(outcome: &RelayIngestOutcome) -> (r: RelayIngestStep)
    ensures
        r == step_after(*outcome),
{
    match outcome {
        RelayIngestOutcome::Legacy => RelayIngestStep::PassOn,
        RelayIngestOutcome::Rejected => RelayIngestStep::Dropped,
        RelayIngestOutcome::Buffered { role, .. } => RelayIngestStep::Seen(
            RelayDatagramObservation { role: *role, decoded: false },
        ),
        RelayIngestOutcome::Duplicate { role, .. } => RelayIngestStep::Seen(
            RelayDatagramObservation { role: *role, decoded: false },
        ),
        RelayIngestOutcome::Decoded { role, .. } => RelayIngestStep::Commit { role: *role },
    }
}

/// What a datagram of a relay session is forwarded as: its role, object and deadline. One that
/// was refused, or that is of no session, is not forwarded.
pub open spec fn forwarded_as(outcome: RelayIngestOutcome) -> Option<
    (MediaDatagramRole, crate::warm::KeyModel, u64),
> {
    match outcome {
        RelayIngestOutcome::Buffered { key, role, expires_at_us } => Some(
            (role, key@, expires_at_us),
        ),
        RelayIngestOutcome::Duplicate { key, role, expires_at_us } => Some(
            (role, key@, expires_at_us),
        ),
        RelayIngestOutcome::Decoded { key, role, expires_at_us } => Some(
            (role, key@, expires_at_us),
        ),
        _ => None,
    }
}

impl RelayDownstreamForwarder {
    /// Forwards a datagram that the relay receiver admitted, whatever it made of it.
    pub fn forward_outcome(&mut self, datagram: &[u8], outcome: &RelayIngestOutcome, now_us: u64) -> (r:
        Vec<usize>)
        requires
            old(self).valid(),
        ensures
            final(self).valid(),
            match forwarded_as(*outcome) {
                Some((role, key, expires_at_us)) => {
                    let warm = Some(WarmModel { object_key: key, expires_at_us, wire: datagram@ });
                    let before = old(self).children();
                    &&& r@ == recipients(before, role)
                    &&& final(self).children().len() == before.len()
                    &&& forall|i: int|
                        0 <= i < before.len() ==> #[trigger] final(self).children()[i]
                            == before[i].offered(role, warm, now_us)
                    &&& final(self).counters == counted_offers(
                        old(self).counters,
                        before,
                        role,
                        warm,
                        now_us,
                    )
                },
                None => r@.len() == 0 && *final(self) == *old(self),
            },
    {
        match outcome {
            RelayIngestOutcome::Buffered { key, role, expires_at_us } => self.forward(
                datagram,
                *role,
                Some(key),
                Some(*expires_at_us),
                now_us,
            ),
            RelayIngestOutcome::Duplicate { key, role, expires_at_us } => self.forward(
                datagram,
                *role,
                Some(key),
                Some(*expires_at_us),
                now_us,
            ),
            RelayIngestOutcome::Decoded { key, role, expires_at_us } => self.forward(
                datagram,
                *role,
                Some(key),
                Some(*expires_at_us),
                now_us,
            ),
            RelayIngestOutcome::Legacy => Vec::new(),
            RelayIngestOutcome::Rejected => Vec::new(),
        }
    }
}

impl RelayRuntime {
    /// Takes the result of the commit of a relayed object: its delay is counted where it was
    /// committed and its publication has a clock.
    pub fn relay_object_committed(
        &mut self,
        role: MediaDatagramRole,
        committed: bool,
        clock: Option<RelayPublicationClock>,
        now_us: u64,
    ) -> (r: RelayDatagramObservation)
        ensures
            r == (RelayDatagramObservation { role, decoded: committed }),
            *final(self) == (RelayRuntime {
                relay_availability: final(self).relay_availability,
                ..*old(self)
            }),
            if committed && clock is Some {
                match (clock->0).observed(now_us) {
                    RelayAvailabilityObservation::Measured { duration_us, clock_error_us } => {
                        &&& final(self).relay_availability.duration.counted(
                            old(self).relay_availability.duration,
                            duration_us,
                        )
                        &&& final(self).relay_availability.clock_error_max_us == (
                        if clock_error_us > old(self).relay_availability.clock_error_max_us {
                            clock_error_us
                        } else {
                            old(self).relay_availability.clock_error_max_us
                        })
                        &&& final(self).relay_availability.unusable_clock_objects == old(
                            self,
                        ).relay_availability.unusable_clock_objects
                    },
                    RelayAvailabilityObservation::UnusableClock => {
                        final(self).relay_availability == (RelayAvailabilityTelemetry {
                            unusable_clock_objects: crate::histogram::wrapped_sum(
                                old(self).relay_availability.unusable_clock_objects,
                                1,
                            ),
                            ..old(self).relay_availability
                        })
                    },
                }
            } else {
                final(self).relay_availability == old(self).relay_availability
            },
    {
        if committed {
            match clock {
                Some(clock) => {
                    self.record_relay_availability(clock.observe(now_us));
                },
                None => {},
            }
        }
        RelayDatagramObservation { role, decoded: committed }
    }
}

/// What the older decoder made of a datagram.
#[derive(Debug)]
pub enum UdpFecOutcome {
    Decoded { stream_id: Option<u64>, payload: Vec<u8> },
    Buffered,
    Duplicate,
    Rejected,
}

/// Where a payload of the older decoder goes.
#[derive(Clone, Copy, Debug, PartialEq, Eq, Structural)]
pub enum UdpFecStep {
    /// It is committed to its stream.
    Commit { stream_id: u64 },
    /// It joins the part under assembly.
    Assemble,
    /// There is none.
    Nothing,
}

/// Where a payload of the older decoder goes.
pub fn udp_fec_step(outcome: &UdpFecOutcome) -> (r: UdpFecStep)
    ensures
        r == (match outcome {
            UdpFecOutcome::Decoded { stream_id, .. } => match stream_id {
                Some(stream_id) => UdpFecStep::Commit { stream_id: *stream_id },
                None => UdpFecStep::Assemble,
            },
            _ => UdpFecStep::Nothing,
        }),
{
    match outcome {
        UdpFecOutcome::Decoded { stream_id, .. } => match stream_id {
            Some(stream_id) => UdpFecStep::Commit { stream_id: *stream_id },
            None => UdpFecStep::Assemble,
        },
        UdpFecOutcome::Buffered => UdpFecStep::Nothing,
        UdpFecOutcome::Duplicate => UdpFecStep::Nothing,
        UdpFecOutcome::Rejected => UdpFecStep::Nothing,
    }
}

/// The time since which an idle stream must have had something to be kept.
pub fn idle_cutoff_ms(now_ms: u64) -> (r: u64)
    ensures
        r == saturating_diff(now_ms, CANONICAL_STREAM_IDLE_RETENTION_MS),
{
    now_ms.saturating_sub(CANONICAL_STREAM_IDLE_RETENTION_MS)
}

/// A canonical media object.
#[verifier::external_type_specification]
#[verifier::external_body]
pub struct ExMediaObject(media_object::MediaObject);

/// What an object holds, as far as the mesh reads it.
pub uninterp spec fn object_parts(object: media_object::MediaObject) -> CanonicalModel;

/// The stages of an object's way, in the object's order.
pub uninterp spec fn object_stages(object: media_object::MediaObject) -> Seq<StageTimestamp>;

/// The envelope that `media_object::encode` writes for an object.
pub uninterp spec fn object_envelope(object: media_object::MediaObject) -> Seq<u8>;

/// Calls `MediaObject::key` and `ObjectKey::stream` of `media_object`: the name of the object's
/// stream.
#[verifier::external_body]
fn stream_of(object: &media_object::MediaObject) -> (r: String)
    ensures
        r@ == object_parts(*object).stream,
{
    object.key().stream().to_string()
}

/// Calls `media_object::encode`. It writes an envelope for every object, since an object is only
/// ever built within the limits that it checks again. The envelope follows from the object
/// alone, begins with its marker and is decoded to the same object.
#[verifier::external_body]
fn encode_media_object(object: &media_object::MediaObject) -> (r: Option<Vec<u8>>)
    ensures
        r is Some,
        r->0@ == object_envelope(*object),
        claims_canonical(r->0@),
        decoded_media_object(r->0@) == Some(object_parts(*object)),
{
    media_object::encode(object).ok()
}

/// Calls `MediaObject::kind` of `media_object`: the kind of the object.
#[verifier::external_body]
fn kind_of(object: &media_object::MediaObject) -> (r: ObjectKind)
    ensures
        r == object_parts(*object).kind,
{
    match object.kind() {
        media_object::ObjectKind::Media => ObjectKind::Media,
        media_object::ObjectKind::Initialization => ObjectKind::Initialization,
        media_object::ObjectKind::CodecConfiguration => ObjectKind::CodecConfiguration,
        media_object::ObjectKind::Discontinuity => ObjectKind::Discontinuity,
    }
}

/// Calls `MediaObject::stage_timestamps` of `media_object`: the stages with the time, in
/// nanoseconds, and the largest error, where one is stated, of their clocks.
#[verifier::external_body]
fn stages_of(object: &media_object::MediaObject) -> (r: Vec<StageTimestamp>)
    ensures
        r@ == object_stages(*object),
{
    object.stage_timestamps().iter().map(|stamp| StageTimestamp {
        stage: match stamp.stage() {
            media_object::Stage::IngressReceived => Stage::IngressReceived,
            media_object::Stage::Normalized => Stage::Normalized,
            media_object::Stage::Packaged => Stage::Packaged,
            media_object::Stage::Published => Stage::Published,
            media_object::Stage::RelayReceived => Stage::RelayReceived,
            media_object::Stage::RelayForwarded => Stage::RelayForwarded,
            media_object::Stage::EdgeAvailable => Stage::EdgeAvailable,
            media_object::Stage::PlayerPresented => Stage::PlayerPresented,
        },
        unix_time_ns: stamp.timestamp().unix_time_ns(),
        maximum_error_ns: stamp.timestamp().confidence().maximum_error_ns(),
    }).collect()
}

/// Why a relayed object cannot be committed.
#[derive(Clone, Copy, Debug, PartialEq, Eq, Structural)]
pub enum RelayCommitError {
    /// Its stream has no number.
    StreamNotNumeric,
    /// It has no envelope, which no object comes to.
    Encode,
}

/// The stream of a relayed object, and the envelope to commit to it. The envelope stands for
/// the object that was relayed.
pub fn commit_relay_object(object: &media_object::MediaObject) -> (r: Result<
    (u64, Vec<u8>),
    RelayCommitError,
>)
    ensures
        match r {
            Ok((stream_id, envelope)) => {
                &&& parsed_u64(object_parts(*object).stream) == Some(stream_id)
                &&& envelope@ == object_envelope(*object)
                &&& claims_canonical(envelope@)
                &&& decoded_media_object(envelope@) == Some(object_parts(*object))
            },
            Err(error) => error == RelayCommitError::StreamNotNumeric && parsed_u64(
                object_parts(*object).stream,
            ) is None,
        },
{
    let stream = stream_of(object);
    match parse_u64(stream.as_str()) {
        None => Err(RelayCommitError::StreamNotNumeric),
        Some(stream_id) => match encode_media_object(object) {
            Some(envelope) => Ok((stream_id, envelope)),
            None => Err(RelayCommitError::Encode),
        },
    }
}

/// The clock of an object's publication; only media objects have one.
pub fn relay_publication_clock(object: &media_object::MediaObject) -> (r: Option<
    RelayPublicationClock,
>)
    ensures
        r == (if object_parts(*object).kind == ObjectKind::Media {
            Some(publication_clock(object_stages(*object)))
        } else {
            None
        }),
{
    let timed = TimedObject { kind: kind_of(object), stage_timestamps: stages_of(object) };
    publication_clock_of(&timed)
}

/// The time from the publication of an object to its availability.
pub fn relay_availability_observation(
    object: &media_object::MediaObject,
    available_at_us: u64,
) -> (r: Option<RelayAvailabilityObservation>)
    ensures
        r == (if object_parts(*object).kind == ObjectKind::Media {
            Some(publication_clock(object_stages(*object)).observed(available_at_us))
        } else {
            None
        }),
{
    match relay_publication_clock(object) {
        Some(clock) => Some(clock.observe(available_at_us)),
        None => None,
    }
}

/// A block that was named keeps its session for fifteen seconds: a datagram of it that names none
/// within that time belongs to the same session, and one after it to none.
pub proof fn blocks_keep_their_session_for_a_while(
    before: AudioBlockSessions,
    named: AudioBlockSessions,
    after: AudioBlockSessions,
    block: AudioBlock,
    id: u64,
    first: Option<u64>,
    second: Option<u64>,
    at_ns: u64,
    later_ns: u64,
)
    requires
        at_ns + 15_000_000_000 <= u64::MAX,
        settled(before, named, block, Some(id), first, at_ns),
        settled(named, after, block, None, second, later_ns),
    ensures
        first == Some(id),
        later_ns < at_ns + 15_000_000_000 ==> second == Some(id),
        later_ns >= at_ns + 15_000_000_000 ==> second is None,
{
}

/// A datagram of one block leaves the sessions of the others as they were, but for those that have
/// expired.
pub proof fn blocks_keep_apart(
    before: AudioBlockSessions,
    after: AudioBlockSessions,
    block: AudioBlock,
    other: AudioBlock,
    named: Option<u64>,
    session: Option<u64>,
    now_ns: u64,
)
    requires
        settled(before, after, block, named, session, now_ns),
        other != block,
    ensures
        before.session(other) is Some && before.session(other)->0.expires_at_ns > now_ns
            ==> after.session(other) == before.session(other),
        before.session(other) is Some && before.session(other)->0.expires_at_ns <= now_ns
            ==> after.session(other) is None,
        before.session(other) is None ==> after.session(other) is None,
{
}

/// Audio is relayed as source where it tells its place among the sources, else as repair, and in
/// the session of its block.
pub proof fn audio_is_relayed_by_its_role(
    before: AudioBlockSessions,
    after: AudioBlockSessions,
    identity: AudioIdentity,
    step: AudioStep,
    now_ns: u64,
)
    requires
        audio_relayed(before, after, Some(identity), step, now_ns),
    ensures
        step is Relay,
        step->role == MediaDatagramRole::Source <==> identity.source_index is Some,
        step->role == MediaDatagramRole::Repair <==> identity.source_index is None,
        identity.session_id is Some ==> step->session_id == identity.session_id,
{
}

/// What is done with a datagram follows what the receiver made of it: a completed object is
/// committed, a legacy datagram is passed on, a rejected one is dropped and any other only seen,
/// each in its role. All that were admitted are forwarded, and no others.
pub proof fn steps_follow_the_receiver(outcome: RelayIngestOutcome)
    ensures
        step_after(outcome) is Commit <==> outcome is Decoded,
        step_after(outcome) is PassOn <==> outcome is Legacy,
        step_after(outcome) is Dropped <==> outcome is Rejected,
        step_after(outcome) is Seen <==> outcome is Buffered || outcome is Duplicate,
        step_after(outcome) is Seen ==> !step_after(outcome)->Seen_0.decoded,
        forwarded_as(outcome) is Some <==> outcome is Buffered || outcome is Duplicate || outcome
            is Decoded,
        match forwarded_as(outcome) {
            Some((role, _, _)) => (outcome is Decoded ==> role == step_after(outcome)->role) && (
            !(outcome is Decoded) ==> role == step_after(outcome)->Seen_0.role),
            None => true,
        },
{
}

/// A listener that subscribes wants its session for fifteen seconds from then and is answered; one
/// that unsubscribes from all, or from the session it has, wants nothing more. Other listeners are
/// left alone, and so are all by a message that is malformed.
pub proof fn listeners_are_subscribed_by_their_messages(
    before: NativeAudioRelay,
    after: NativeAudioRelay,
    peer: SocketAddress,
    other: SocketAddress,
    payload: Seq<u8>,
    reply: Option<Vec<u8>>,
    now_ns: u64,
)
    requires
        control_taken(before, after, peer, payload, reply, now_ns),
        now_ns + 15_000_000_000 <= u64::MAX,
    ensures
        other != peer ==> after.subscription(other) == before.subscription(other),
        reply is Some <==> native_audio_message(payload) is Subscribe,
        match native_audio_message(payload) {
            NativeAudioMessage::Subscribe { session_id } => {
                &&& after.subscription(peer) is Some
                &&& after.subscription(peer)->0.session_id == session_id
                &&& after.subscription(peer)->0.expires_at_ns == now_ns + 15_000_000_000
            },
            NativeAudioMessage::Unsubscribe { session_id } => {
                &&& session_id is None ==> after.subscription(peer) is None
                &&& before.subscription(peer) is Some && before.subscription(peer)->0.session_id
                    == session_id ==> after.subscription(peer) is None
                &&& before.subscription(peer) is Some && session_id is Some && before.subscription(
                    peer,
                )->0.session_id != session_id ==> after.subscription(peer)
                    == before.subscription(peer)
            },
            _ => after.subscription(peer) == before.subscription(peer),
        },
{
}

/// Subscriptions are kept until they expire, and no longer.
pub proof fn subscriptions_are_kept_until_they_expire(
    before: NativeAudioRelay,
    after: NativeAudioRelay,
    peer: SocketAddress,
    now_ns: u64,
)
    requires
        listeners_expired(before, after, now_ns),
    ensures
        before.subscription(peer) is None ==> after.subscription(peer) is None,
        before.subscription(peer) is Some && before.subscription(peer)->0.expires_at_ns > now_ns
            ==> after.subscription(peer) == before.subscription(peer),
        before.subscription(peer) is Some && before.subscription(peer)->0.expires_at_ns <= now_ns
            ==> after.subscription(peer) is None,
{
}

/// Audio of a peer belongs to the session of its block at that peer; audio that tells nothing of
/// itself belongs to none and changes no session but those that have expired.
pub proof fn audio_belongs_to_the_block_of_its_peer(
    before: AudioBlockSessions,
    after: AudioBlockSessions,
    peer: SocketAddress,
    identity: Option<AudioIdentity>,
    session: Option<u64>,
    now_ns: u64,
)
    requires
        media_audio_settled(before, after, peer, identity, session, now_ns),
    ensures
        identity is None ==> session is None,
        identity is Some && identity->0.session_id is Some ==> session == identity->0.session_id,
        forall|block: AudioBlock|
            identity is None || block.peer != Some(peer) || block.block_id != identity->0.block_id
                ==> match before.session(block) {
                Some(s) => s.expires_at_ns > now_ns ==> #[trigger] after.session(block) == Some(s),
                None => after.session(block) is None,
            },
{
}

/// A datagram that was admitted is forwarded in its role, with its object and its deadline, whatever
/// the receiver made of it.
pub proof fn admitted_datagrams_are_forwarded_as_they_came(outcome: RelayIngestOutcome)
    ensures
        match (outcome, forwarded_as(outcome)) {
            (
                RelayIngestOutcome::Buffered { key, role, expires_at_us },
                Some((r, k, e)),
            ) => r == role && k == key@ && e == expires_at_us,
            (
                RelayIngestOutcome::Duplicate { key, role, expires_at_us },
                Some((r, k, e)),
            ) => r == role && k == key@ && e == expires_at_us,
            (
                RelayIngestOutcome::Decoded { key, role, expires_at_us },
                Some((r, k, e)),
            ) => r == role && k == key@ && e == expires_at_us,
            (RelayIngestOutcome::Legacy, None) => true,
            (RelayIngestOutcome::Rejected, None) => true,
            _ => false,
        },
{
}

} // verus!
