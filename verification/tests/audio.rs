use av_mesh_node::addr::{parse_socket_address, SocketAddress};
use av_mesh_node::audio::{
    is_multichannel_audio_transport_datagram, parse_audio_epoch_subscription,
    parse_native_audio_session_message, NativeAudioRelay, AUDIO_EPOCH_SUBSCRIPTION,
    NATIVE_AUDIO_SUBSCRIBE_V2_PREFIX, NATIVE_AUDIO_SUBSCRIPTION_TTL_NS,
};
use av_mesh_node::failover::RelayIngressParentPath;
use av_mesh_node::ingest::{
    receive_media_datagram, receive_relay_datagram, AudioBlockSessions, MediaDatagramStep,
    RelayDatagramStep,
};
use av_mesh_node::protocol::wants_audio;

fn address(text: &str) -> SocketAddress {
    parse_socket_address(text).unwrap()
}

#[test]
fn webtransport_audio_subscription_supports_session_filtering() {
    assert_eq!(
        parse_audio_epoch_subscription(AUDIO_EPOCH_SUBSCRIPTION.as_bytes()),
        Some(None)
    );
    assert_eq!(
        parse_audio_epoch_subscription(b"WAVEY-AUDIO-EPOCH/2 91"),
        Some(Some(91))
    );
    assert_eq!(
        parse_audio_epoch_subscription(b"WAVEY-AUDIO-EPOCH/2 all"),
        None
    );
    assert_eq!(
        parse_native_audio_session_message(
            b"WAVEY-DAW-SUBSCRIBE/2 91",
            NATIVE_AUDIO_SUBSCRIBE_V2_PREFIX.as_bytes(),
        ),
        Some(91)
    );
    assert_eq!(
        parse_native_audio_session_message(
            b"WAVEY-DAW-SUBSCRIBE/2 all",
            NATIVE_AUDIO_SUBSCRIBE_V2_PREFIX.as_bytes(),
        ),
        None
    );
}

#[test]
fn subscribers_hear_their_session_until_they_leave() {
    let peer = address("127.0.0.1:9000");
    let other = address("127.0.0.1:9001");
    let mut relay = NativeAudioRelay::new();
    let ack = relay.handle_control(peer, b"WAVEY-DAW-SUBSCRIBE/2 91", 1_000);
    assert!(ack.handled);
    assert_eq!(ack.reply.as_deref(), Some(&b"WAVEY-DAW-SUBSCRIBED/2 91"[..]));
    let all = relay.handle_control(other, b"WAVEY-DAW-SUBSCRIBE/1", 1_000);
    assert_eq!(all.reply.as_deref(), Some(&b"WAVEY-DAW-SUBSCRIBED/1"[..]));

    let mut listeners = relay.forward(Some(91));
    listeners.sort_by_key(|listener| listener.port);
    assert_eq!(listeners, vec![peer, other]);
    assert_eq!(relay.forward(Some(92)), vec![other]);
    assert_eq!(relay.forward(None), vec![other]);

    let kept = relay.handle_control(peer, b"WAVEY-DAW-UNSUBSCRIBE/2 92", 1_000);
    assert!(kept.handled && kept.reply.is_none());
    assert!(relay.get(peer).is_some());
    relay.handle_control(peer, b"WAVEY-DAW-UNSUBSCRIBE/2 91", 1_000);
    assert!(relay.get(peer).is_none());
    relay.expire(1_000 + NATIVE_AUDIO_SUBSCRIPTION_TTL_NS - 1);
    assert!(relay.get(other).is_some());
    relay.expire(1_000 + NATIVE_AUDIO_SUBSCRIPTION_TTL_NS);
    assert!(relay.get(other).is_none());
    assert!(!relay.handle_control(other, b"media", 1_000).handled);
}

#[test]
fn audio_is_told_apart_by_its_magic() {
    assert!(is_multichannel_audio_transport_datagram(b"AEP1rest"));
    assert!(!is_multichannel_audio_transport_datagram(b"RQD2rest"));
    assert!(wants_audio(None, Some(91)));
    assert!(wants_audio(Some(91), Some(91)));
    assert!(!wants_audio(Some(91), Some(92)));
    assert!(!wants_audio(Some(91), None));
}

#[test]
fn media_sockets_pass_unreadable_audio_on_and_relays_drop_it() {
    let peer = address("127.0.0.1:9000");
    let mut relay = NativeAudioRelay::new();
    let mut sessions = AudioBlockSessions::new();
    match receive_media_datagram(&mut relay, &mut sessions, peer, b"AEP1?", 1_000) {
        MediaDatagramStep::Audio { listeners, session_id } => {
            assert!(listeners.is_empty());
            assert_eq!(session_id, None);
        }
        other => panic!("{other:?}"),
    }
    assert!(matches!(
        receive_relay_datagram(
            RelayIngressParentPath::Primary,
            &mut relay,
            &mut sessions,
            peer,
            b"AEP1?",
            1_000
        ),
        RelayDatagramStep::InvalidAudio
    ));
    assert!(matches!(
        receive_media_datagram(&mut relay, &mut sessions, peer, b"RQD2", 1_000),
        MediaDatagramStep::Coded
    ));
    match receive_relay_datagram(
        RelayIngressParentPath::Primary,
        &mut relay,
        &mut sessions,
        peer,
        b"WAVEY-DAW-SUBSCRIBE/1",
        1_000,
    ) {
        RelayDatagramStep::Control { reply } => {
            assert_eq!(reply.as_deref(), Some(&b"WAVEY-DAW-SUBSCRIBED/1"[..]))
        }
        other => panic!("{other:?}"),
    }
}
