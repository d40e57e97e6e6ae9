//! Audio subscriptions: the wire messages of subscribers and the table of native listeners.

use vstd::prelude::*;
use crate::addr::SocketAddress;
use crate::table::{Expires, Table};
use crate::bytes::{
    ascii_bytes, bytes_of, decimal_bytes, decimal_bytes_read_back, has_byte_prefix,
    parse_byte_digits, parsed_byte_digits, prefixes_stand_in_front, push_decimal_bytes, same_bytes,
    starts_with_bytes,
};

verus! {

pub const AUDIO_EPOCH_SUBSCRIPTION: &'static str = "WAVEY-AUDIO-EPOCH/1";

pub const AUDIO_EPOCH_SUBSCRIPTION_V2_PREFIX: &'static str = "WAVEY-AUDIO-EPOCH/2 ";

pub const AUDIO_EPOCH_BROADCAST_CAPACITY: usize = 2048;

pub const NATIVE_AUDIO_SUBSCRIBE: &'static str = "WAVEY-DAW-SUBSCRIBE/1";

pub const NATIVE_AUDIO_SUBSCRIBE_ACK: &'static str = "WAVEY-DAW-SUBSCRIBED/1";

pub const NATIVE_AUDIO_SUBSCRIBE_V2_PREFIX: &'static str = "WAVEY-DAW-SUBSCRIBE/2 ";

pub const NATIVE_AUDIO_SUBSCRIBE_ACK_V2_PREFIX: &'static str = "WAVEY-DAW-SUBSCRIBED/2 ";

pub const NATIVE_AUDIO_UNSUBSCRIBE: &'static str = "WAVEY-DAW-UNSUBSCRIBE/1";

pub const NATIVE_AUDIO_UNSUBSCRIBE_V2_PREFIX: &'static str = "WAVEY-DAW-UNSUBSCRIBE/2 ";

/// How long a native subscription lives without a renewal, in nanoseconds.
pub const NATIVE_AUDIO_SUBSCRIPTION_TTL_NS: u64 = 15_000_000_000;

pub const MULTICHANNEL_AUDIO_TRANSPORT_MAGIC: &'static str = "AEP1";

/// One audio datagram on its way to the subscribers of an edge.
#[derive(Clone, Debug, PartialEq, Eq)]
pub struct AudioEpochDatagram {
    pub session_id: Option<u64>,
    pub bytes: Vec<u8>,
}

/// The session that a message names after a prefix.
pub open spec fn session_after(payload: Seq<u8>, prefix: Seq<u8>) -> Option<u64> {
    if has_byte_prefix(payload, prefix) {
        parsed_byte_digits(payload.skip(prefix.len() as int))
    } else {
        None
    }
}

/// What an edge subscription asks for: every session, or one.
pub open spec fn audio_epoch_subscription(payload: Seq<u8>) -> Option<Option<u64>> {
    if payload == ascii_bytes(AUDIO_EPOCH_SUBSCRIPTION@) {
        Some(None)
    } else {
        match session_after(payload, ascii_bytes(AUDIO_EPOCH_SUBSCRIPTION_V2_PREFIX@)) {
            Some(session) => Some(Some(session)),
            None => None,
        }
    }
}

/// Reads an edge subscription.
pub fn parse_audio_epoch_subscription(payload: &[u8]) -> (r: Option<Option<u64>>)
    ensures
        r == audio_epoch_subscription(payload@),
{
    let plain = bytes_of(AUDIO_EPOCH_SUBSCRIPTION);
    if same_bytes(payload, plain.as_slice()) {
        return Some(None);
    }
    let prefix = bytes_of(AUDIO_EPOCH_SUBSCRIPTION_V2_PREFIX);
    match parse_native_audio_session_message(payload, prefix.as_slice()) {
        Some(session) => Some(Some(session)),
        None => None,
    }
}

/// Reads the session that a message names after a prefix.
pub fn parse_native_audio_session_message(payload: &[u8], prefix: &[u8]) -> (r: Option<u64>)
    ensures
        r == session_after(payload@, prefix@),
{
    if !starts_with_bytes(payload, prefix) {
        return None;
    }
    parse_byte_digits(payload, prefix.len())
}

/// Whether a datagram carries multichannel audio.
pub fn is_multichannel_audio_transport_datagram(datagram: &[u8]) -> (r: bool)
    ensures
        r == has_byte_prefix(datagram@, ascii_bytes(MULTICHANNEL_AUDIO_TRANSPORT_MAGIC@)),
{
    let magic = bytes_of(MULTICHANNEL_AUDIO_TRANSPORT_MAGIC);
    starts_with_bytes(datagram, magic.as_slice())
}

/// What one listener asked for, and until when.
#[derive(Clone, Copy, Debug, PartialEq, Eq, Structural)]
pub struct NativeAudioSubscription {
    pub session_id: Option<u64>,
    pub expires_at_ns: u64,
}

impl Expires for NativeAudioSubscription {
    open spec fn deadline(&self) -> u64 {
        self.expires_at_ns
    }

    fn expires_at(&self) -> (r: u64) {
        self.expires_at_ns
    }
}

/// The listeners of a node's native audio relay.
#[derive(Debug)]
pub struct NativeAudioRelay {
    subscriptions: Table<SocketAddress, NativeAudioSubscription>,
}

/// What became of a message to the native audio relay.
#[derive(Debug)]
pub struct NativeAudioControl {
    /// Whether the message was one of the relay's own.
    pub handled: bool,
    /// The acknowledgement that the sender is owed.
    pub reply: Option<Vec<u8>>,
}

/// The acknowledgement of a subscription to one session.
pub open spec fn session_ack(session: u64) -> Seq<u8> {
    ascii_bytes(NATIVE_AUDIO_SUBSCRIBE_ACK_V2_PREFIX@) + decimal_bytes(session as nat)
}

/// A message to the native audio relay.
pub enum NativeAudioMessage {
    Subscribe { session_id: Option<u64> },
    Unsubscribe { session_id: Option<u64> },
    Malformed,
    Other,
}

/// The meaning of a message to the native audio relay.
pub open spec fn native_audio_message(payload: Seq<u8>) -> NativeAudioMessage {
    let subscribe = ascii_bytes(NATIVE_AUDIO_SUBSCRIBE_V2_PREFIX@);
    let unsubscribe = ascii_bytes(NATIVE_AUDIO_UNSUBSCRIBE_V2_PREFIX@);
    if payload == ascii_bytes(NATIVE_AUDIO_SUBSCRIBE@) {
        NativeAudioMessage::Subscribe { session_id: None }
    } else if session_after(payload, subscribe) is Some {
        NativeAudioMessage::Subscribe { session_id: session_after(payload, subscribe) }
    } else if has_byte_prefix(payload, subscribe) {
        NativeAudioMessage::Malformed
    } else if payload == ascii_bytes(NATIVE_AUDIO_UNSUBSCRIBE@) {
        NativeAudioMessage::Unsubscribe { session_id: None }
    } else if session_after(payload, unsubscribe) is Some {
        NativeAudioMessage::Unsubscribe { session_id: session_after(payload, unsubscribe) }
    } else if has_byte_prefix(payload, unsubscribe) {
        NativeAudioMessage::Malformed
    } else {
        NativeAudioMessage::Other
    }
}

/// Reads a message to the native audio relay.
pub fn read_native_audio_message(payload: &[u8]) -> (r: NativeAudioMessage)
    ensures
        r == native_audio_message(payload@),
{
    let subscribe = bytes_of(NATIVE_AUDIO_SUBSCRIBE_V2_PREFIX);
    let unsubscribe = bytes_of(NATIVE_AUDIO_UNSUBSCRIBE_V2_PREFIX);
    let plain_subscribe = bytes_of(NATIVE_AUDIO_SUBSCRIBE);
    let plain_unsubscribe = bytes_of(NATIVE_AUDIO_UNSUBSCRIBE);
    if same_bytes(payload, plain_subscribe.as_slice()) {
        return NativeAudioMessage::Subscribe { session_id: None };
    }
    let session = parse_native_audio_session_message(payload, subscribe.as_slice());
    if session.is_some() {
        return NativeAudioMessage::Subscribe { session_id: session };
    }
    if starts_with_bytes(payload, subscribe.as_slice()) {
        return NativeAudioMessage::Malformed;
    }
    if same_bytes(payload, plain_unsubscribe.as_slice()) {
        return NativeAudioMessage::Unsubscribe { session_id: None };
    }
    let session = parse_native_audio_session_message(payload, unsubscribe.as_slice());
    if session.is_some() {
        return NativeAudioMessage::Unsubscribe { session_id: session };
    }
    if starts_with_bytes(payload, unsubscribe.as_slice()) {
        return NativeAudioMessage::Malformed;
    }
    NativeAudioMessage::Other
}

/// Whether a listener is owed a datagram of a session.
pub open spec fn wants(subscription: NativeAudioSubscription, session: Option<u64>) -> bool {
    subscription.session_id is None || subscription.session_id == session
}

impl NativeAudioRelay {
    /// No peer has two subscriptions.
    pub closed spec fn valid(self) -> bool {
        self.subscriptions.valid()
    }

    /// The subscription of a peer.
    pub closed spec fn subscription(self, peer: SocketAddress) -> Option<NativeAudioSubscription> {
        if self.subscriptions.map().contains_key(peer) {
            Some(self.subscriptions.map()[peer])
        } else {
            None
        }
    }

    /// A relay without listeners.
    pub fn new() -> (r: Self)
        ensures
            r.valid(),
            forall|peer: SocketAddress| (#[trigger] r.subscription(peer)) is None,
    {
        NativeAudioRelay { subscriptions: Table::new() }
    }

    /// What a peer asked for, and until when.
    pub fn get(&self, peer: SocketAddress) -> (r: Option<NativeAudioSubscription>)
        requires
            self.valid(),
        ensures
            r == self.subscription(peer),
    {
        match self.subscriptions.get(peer) {
            Some(subscription) => Some(*subscription),
            None => None,
        }
    }

    /// Forgets every subscription that does not live beyond `now_ns`, and no other.
    pub fn expire(&mut self, now_ns: u64)
        requires
            old(self).valid(),
        ensures
            final(self).valid(),
            forall|peer: SocketAddress|
                #[trigger] final(self).subscription(peer) == (match old(self).subscription(peer) {
                    Some(s) => if s.expires_at_ns > now_ns {
                        Some(s)
                    } else {
                        None
                    },
                    None => None,
                }),
    {
        self.subscriptions.expire(now_ns);
        proof {
            assert forall|peer: SocketAddress|
                #[trigger] self.subscription(peer) == (match old(self).subscription(peer) {
                    Some(s) => if s.expires_at_ns > now_ns {
                        Some(s)
                    } else {
                        None
                    },
                    None => None,
                }) by {
                assert(self.subscriptions.map().contains_key(peer) <==> old(
                    self,
                ).subscriptions.map().contains_key(peer) && old(
                    self,
                ).subscriptions.map()[peer].deadline() > now_ns);
            }
        }
    }

    /// Takes a message of a peer that arrived at `now_ns`.
    ///
    /// A subscription replaces the peer's earlier one and is acknowledged; an unsubscription
    /// from one session leaves a subscription to anything else in place.
    pub fn handle_control(&mut self, peer: SocketAddress, payload: &[u8], now_ns: u64) -> (r:
        NativeAudioControl)
        requires
            old(self).valid(),
            now_ns + NATIVE_AUDIO_SUBSCRIPTION_TTL_NS <= u64::MAX,
        ensures
            final(self).valid(),
            r.handled == !(native_audio_message(payload@) is Other),
            forall|other: SocketAddress|
                other != peer ==> #[trigger] final(self).subscription(other) == old(
                    self,
                ).subscription(other),
            match native_audio_message(payload@) {
                NativeAudioMessage::Subscribe { session_id } => {
                    &&& final(self).subscription(peer) == Some(
                        NativeAudioSubscription {
                            session_id,
                            expires_at_ns: (now_ns + NATIVE_AUDIO_SUBSCRIPTION_TTL_NS) as u64,
                        },
                    )
                    &&& r.reply is Some
                    &&& r.reply->0@ == (match session_id {
                        Some(session) => session_ack(session),
                        None => ascii_bytes(NATIVE_AUDIO_SUBSCRIBE_ACK@),
                    })
                },
                NativeAudioMessage::Unsubscribe { session_id } => {
                    &&& r.reply is None
                    &&& final(self).subscription(peer) == (match old(self).subscription(peer) {
                        Some(s) => if session_id is None || s.session_id == session_id {
                            None
                        } else {
                            Some(s)
                        },
                        None => None,
                    })
                },
                _ => r.reply is None && *final(self) == *old(self),
            },
    {
        match read_native_audio_message(payload) {
            NativeAudioMessage::Subscribe { session_id } => {
                let expires_at_ns: u64 = now_ns + NATIVE_AUDIO_SUBSCRIPTION_TTL_NS;
                self.subscriptions.insert(
                    peer,
                    NativeAudioSubscription { session_id, expires_at_ns },
                );
                let reply = match session_id {
                    Some(session) => {
                        let mut ack = bytes_of(NATIVE_AUDIO_SUBSCRIBE_ACK_V2_PREFIX);
                        push_decimal_bytes(&mut ack, session);
                        ack
                    },
                    None => bytes_of(NATIVE_AUDIO_SUBSCRIBE_ACK),
                };
                NativeAudioControl { handled: true, reply: Some(reply) }
            },
            NativeAudioMessage::Unsubscribe { session_id } => {
                match session_id {
                    None => {
                        let _ = self.subscriptions.take(peer);
                    },
                    Some(_) => {
                        let current = self.get(peer);
                        match current {
                            Some(s) => {
                                if s.session_id == session_id {
                                    let _ = self.subscriptions.take(peer);
                                }
                            },
                            None => {},
                        }
                    },
                }
                NativeAudioControl { handled: true, reply: None }
            },
            NativeAudioMessage::Malformed => NativeAudioControl { handled: true, reply: None },
            NativeAudioMessage::Other => NativeAudioControl { handled: false, reply: None },
        }
    }

    /// The listeners that are owed a datagram of a session, each once.
    pub fn forward(&self, session_id: Option<u64>) -> (r: Vec<SocketAddress>)
        requires
            self.valid(),
        ensures
            r@.no_duplicates(),
            forall|peer: SocketAddress|
                #[trigger] r@.contains(peer) <==> self.subscription(peer) is Some && wants(
                    self.subscription(peer)->0,
                    session_id,
                ),
    {
        let ghost map = self.subscriptions.map();
        let mut out: Vec<SocketAddress> = Vec::new();
        let mut i: usize = 0;
        proof {
            self.subscriptions.positions();
        }
        while i < self.subscriptions.len()
            invariant
                self.valid(),
                map == self.subscriptions.map(),
                i <= self.subscriptions.size(),
                out@.no_duplicates(),
                forall|k: int|
                    #![trigger out@[k]]
                    0 <= k < out@.len() ==> map.contains_key(out@[k]) && wants(
                        map[out@[k]],
                        session_id,
                    ) && exists|j: int|
                        0 <= j < i && #[trigger] self.subscriptions.key_at(j) == out@[k],
                forall|j: int|
                    0 <= j < i && wants(map[self.subscriptions.key_at(j)], session_id)
                        ==> out@.contains(#[trigger] self.subscriptions.key_at(j)),
            decreases self.subscriptions.size() - i,
        {
            let entry = self.subscriptions.entry(i);
            let ghost before = out@;
            let ghost key = self.subscriptions.key_at(i as int);
            if entry.1.session_id.is_none() || entry.1.session_id == session_id {
                out.push(entry.0);
                proof {
                    self.subscriptions.positions();
                    assert(!before.contains(key)) by {
                        if before.contains(key) {
                            let k = choose|k: int| 0 <= k < before.len() && before[k] == key;
                            let j = choose|j: int|
                                0 <= j < i && #[trigger] self.subscriptions.key_at(j) == before[k];
                            assert(self.subscriptions.key_at(j) != self.subscriptions.key_at(
                                i as int,
                            ));
                        }
                    }
                    assert forall|a: int, b: int|
                        0 <= a < out@.len() && 0 <= b < out@.len() && a != b implies out@[a]
                        != out@[b] by {
                        if a == before.len() {
                            assert(before.contains(before[b]));
                        } else if b == before.len() {
                            assert(before.contains(before[a]));
                        } else {
                            assert(before[a] != before[b]);
                        }
                    }
                    assert forall|j: int|
                        0 <= j < i + 1 && wants(
                            map[self.subscriptions.key_at(j)],
                            session_id,
                        ) implies out@.contains(#[trigger] self.subscriptions.key_at(j)) by {
                        if j < i {
                            let k = choose|k: int|
                                0 <= k < before.len() && before[k] == self.subscriptions.key_at(j);
                            assert(out@[k] == self.subscriptions.key_at(j));
                        } else {
                            assert(out@[before.len() as int] == key);
                        }
                    }
                }
            }
            proof {
                assert forall|k: int|
                    #![trigger out@[k]]
                    0 <= k < out@.len() implies map.contains_key(out@[k]) && wants(
                    map[out@[k]],
                    session_id,
                ) && exists|j: int|
                    0 <= j < i + 1 && #[trigger] self.subscriptions.key_at(j) == out@[k] by {
                    if k < before.len() {
                        assert(out@[k] == before[k]);
                        let j = choose|j: int|
                            0 <= j < i && #[trigger] self.subscriptions.key_at(j) == before[k];
                        assert(self.subscriptions.key_at(j) == out@[k]);
                    } else {
                        assert(self.subscriptions.key_at(i as int) == out@[k]);
                    }
                }
            }
            i = i + 1;
        }
        proof {
            self.subscriptions.positions();
            assert forall|peer: SocketAddress|
                #[trigger] out@.contains(peer) <==> self.subscription(peer) is Some && wants(
                    self.subscription(peer)->0,
                    session_id,
                ) by {
                if map.contains_key(peer) && wants(map[peer], session_id) {
                    let j = choose|j: int|
                        0 <= j < self.subscriptions.size() && #[trigger] self.subscriptions.key_at(
                            j,
                        ) == peer;
                    assert(out@.contains(self.subscriptions.key_at(j)));
                }
            }
        }
        out
    }
}

/// A subscription message that names a session is understood as naming it, and so is the
/// acknowledgement that answers it.
pub proof fn session_is_echoed(session: u64)
    ensures
        session_after(
            ascii_bytes(NATIVE_AUDIO_SUBSCRIBE_V2_PREFIX@) + decimal_bytes(session as nat),
            ascii_bytes(NATIVE_AUDIO_SUBSCRIBE_V2_PREFIX@),
        ) == Some(session),
        session_after(
            session_ack(session),
            ascii_bytes(NATIVE_AUDIO_SUBSCRIBE_ACK_V2_PREFIX@),
        ) == Some(session),
{
    decimal_bytes_read_back(session);
    let p = ascii_bytes(NATIVE_AUDIO_SUBSCRIBE_V2_PREFIX@);
    let q = ascii_bytes(NATIVE_AUDIO_SUBSCRIBE_ACK_V2_PREFIX@);
    let d = decimal_bytes(session as nat);
    assert((p + d).take(p.len() as int) =~= p);
    assert((p + d).skip(p.len() as int) =~= d);
    assert((q + d).take(q.len() as int) =~= q);
    assert((q + d).skip(q.len() as int) =~= d);
}

/// A subscription that names no session wants all audio; one that names a session wants that one
/// alone.
pub proof fn subscriptions_want_their_session(
    subscription: NativeAudioSubscription,
    session: Option<u64>,
)
    ensures
        subscription.session_id is None ==> wants(subscription, session),
        subscription.session_id is Some ==> (wants(subscription, session) <==> session is Some
            && session->0 == subscription.session_id->0),
{
}

/// The messages of audio listeners are read as what they say: to subscribe or to unsubscribe, to
/// one session or to all.
pub proof fn listener_messages_are_read_back(session: u64)
    ensures
        native_audio_message(ascii_bytes("WAVEY-DAW-SUBSCRIBE/1"@)) == (
        NativeAudioMessage::Subscribe { session_id: None }),
        native_audio_message(
            ascii_bytes("WAVEY-DAW-SUBSCRIBE/2 "@) + decimal_bytes(session as nat),
        ) == (NativeAudioMessage::Subscribe { session_id: Some(session) }),
        native_audio_message(ascii_bytes("WAVEY-DAW-UNSUBSCRIBE/1"@)) == (
        NativeAudioMessage::Unsubscribe { session_id: None }),
        native_audio_message(
            ascii_bytes("WAVEY-DAW-UNSUBSCRIBE/2 "@) + decimal_bytes(session as nat),
        ) == (NativeAudioMessage::Unsubscribe { session_id: Some(session) }),
        audio_epoch_subscription(ascii_bytes("WAVEY-AUDIO-EPOCH/1"@)) == Some(None::<u64>),
        audio_epoch_subscription(
            ascii_bytes("WAVEY-AUDIO-EPOCH/2 "@) + decimal_bytes(session as nat),
        ) == Some(Some(session)),
{
    reveal_strlit("WAVEY-DAW-SUBSCRIBE/1");
    reveal_strlit("WAVEY-DAW-SUBSCRIBE/2 ");
    reveal_strlit("WAVEY-DAW-UNSUBSCRIBE/1");
    reveal_strlit("WAVEY-DAW-UNSUBSCRIBE/2 ");
    reveal_strlit("WAVEY-AUDIO-EPOCH/1");
    reveal_strlit("WAVEY-AUDIO-EPOCH/2 ");
    let digits = decimal_bytes(session as nat);
    decimal_bytes_read_back(session);
    let one = ascii_bytes("WAVEY-DAW-SUBSCRIBE/1"@);
    let two = ascii_bytes("WAVEY-DAW-SUBSCRIBE/2 "@);
    let off = ascii_bytes("WAVEY-DAW-UNSUBSCRIBE/1"@);
    let out = ascii_bytes("WAVEY-DAW-UNSUBSCRIBE/2 "@);
    let epoch = ascii_bytes("WAVEY-AUDIO-EPOCH/1"@);
    let named = ascii_bytes("WAVEY-AUDIO-EPOCH/2 "@);
    prefixes_stand_in_front(two, two, digits);
    prefixes_stand_in_front(out, out, digits);
    prefixes_stand_in_front(named, named, digits);
    assert((two + digits)[20] == 50u8 && one[20] == 49u8);
    assert((named + digits)[18] == 50u8 && epoch[18] == 49u8);
    assert(two[10] == 83u8 && one[10] == 83u8);
    assert(off[10] == 85u8 && out[10] == 85u8 && (out + digits)[10] == 85u8);
    assert((out + digits)[22] == 50u8 && off[22] == 49u8);
    assert(!has_byte_prefix(off, two)) by {
        if has_byte_prefix(off, two) {
            assert(off.take(two.len() as int)[10] == off[10]);
        }
    }
    assert(!has_byte_prefix(out + digits, two)) by {
        if has_byte_prefix(out + digits, two) {
            assert((out + digits).take(two.len() as int)[10] == (out + digits)[10]);
        }
    }
}

/// A message that begins as one of a session but does not end in its number is malformed; one that
/// begins as none of the listeners' messages is none.
pub proof fn other_messages_are_left_alone(payload: Seq<u8>, rest: Seq<u8>)
    ensures
        parsed_byte_digits(rest) is None ==> native_audio_message(
            ascii_bytes("WAVEY-DAW-SUBSCRIBE/2 "@) + rest,
        ) is Malformed,
        parsed_byte_digits(rest) is None ==> native_audio_message(
            ascii_bytes("WAVEY-DAW-UNSUBSCRIBE/2 "@) + rest,
        ) is Malformed,
        payload.len() == 0 || payload[0] != 87 ==> native_audio_message(payload) is Other,
        payload.len() == 0 || payload[0] != 87 ==> audio_epoch_subscription(payload) is None,
{
    reveal_strlit("WAVEY-DAW-SUBSCRIBE/1");
    reveal_strlit("WAVEY-DAW-SUBSCRIBE/2 ");
    reveal_strlit("WAVEY-DAW-UNSUBSCRIBE/1");
    reveal_strlit("WAVEY-DAW-UNSUBSCRIBE/2 ");
    reveal_strlit("WAVEY-AUDIO-EPOCH/1");
    reveal_strlit("WAVEY-AUDIO-EPOCH/2 ");
    let one = ascii_bytes("WAVEY-DAW-SUBSCRIBE/1"@);
    let two = ascii_bytes("WAVEY-DAW-SUBSCRIBE/2 "@);
    let off = ascii_bytes("WAVEY-DAW-UNSUBSCRIBE/1"@);
    let out = ascii_bytes("WAVEY-DAW-UNSUBSCRIBE/2 "@);
    let epoch = ascii_bytes("WAVEY-AUDIO-EPOCH/1"@);
    let named = ascii_bytes("WAVEY-AUDIO-EPOCH/2 "@);
    prefixes_stand_in_front(two, two, rest);
    prefixes_stand_in_front(out, out, rest);
    assert((two + rest)[20] == 50u8 && one[20] == 49u8);
    assert((out + rest)[10] == 85u8 && two[10] == 83u8 && one[10] == 83u8);
    assert((out + rest)[22] == 50u8 && off[22] == 49u8);
    assert(!has_byte_prefix(out + rest, two)) by {
        if has_byte_prefix(out + rest, two) {
            assert((out + rest).take(two.len() as int)[10] == (out + rest)[10]);
        }
    }
    assert(one[0] == 87 && two[0] == 87 && off[0] == 87 && out[0] == 87 && epoch[0] == 87
        && named[0] == 87);
    if payload.len() == 0 || payload[0] != 87 {
        lemma_other_front(payload, two);
        lemma_other_front(payload, out);
        lemma_other_front(payload, named);
    }
}

proof fn lemma_other_front(payload: Seq<u8>, prefix: Seq<u8>)
    requires
        prefix.len() > 0,
        payload.len() == 0 || payload[0] != prefix[0],
    ensures
        !has_byte_prefix(payload, prefix),
{
    if has_byte_prefix(payload, prefix) {
        assert(payload.take(prefix.len() as int)[0] == payload[0]);
    }
}

} // verus!
