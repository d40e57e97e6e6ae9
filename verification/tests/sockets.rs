use std::collections::{BTreeMap, HashSet};

use av_mesh_node::access_unit::{
    classify_binary_request, read_access_unit, serialize_access_unit, BinaryRequest,
    CachedMediaAccessUnit, MediaAccessUnitResponse, MediaCodec, MediaUnitDecoder,
};
use av_mesh_node::addr::{parse_socket_address, SocketAddress};
use av_mesh_node::audio::{is_multichannel_audio_transport_datagram, NativeAudioRelay};
use av_mesh_node::failover::RelayIngressParentPath;
use av_mesh_node::forwarder::{
    MediaDatagramRole, RelayDownstreamForwarder, RelayForwardEndpoint, RelayForwardRole,
};
use av_mesh_node::ingest::{
    process_relay_audio_epoch_datagram, receive_media_datagram, receive_relay_datagram,
    AudioBlockSessions, AudioIdentity, AudioStep, MediaDatagramStep, RelayDatagramStep, AUDIO_BLOCK_TTL_NS,
};
use raptorq_datagram_fec::{
    AudioPayloadKind, AudioSampleFormat, DatagramFecHeader, EncodedMediaFrame, MediaFecEncoder,
    MediaFrame, MediaFrameFlags, MediaFrameMetadata, MultichannelAudioEpoch,
    MultichannelAudioFecConfig, MultichannelAudioFecEncoder, MultichannelAudioGroup,
    NetworkMetrics,
};
use raptorq_fec_transport::MultichannelAudioTransportAdapter;

const HEADER_LEN: usize = 44;

fn address(text: &str) -> SocketAddress {
    parse_socket_address(text).unwrap()
}

/// A source and a repair datagram of an epoch of a session.
fn audio_datagrams(session_id: u64, repair_symbols: u32, pcm: &[u8]) -> (Vec<u8>, Vec<u8>) {
    let transport = MultichannelAudioTransportAdapter::udp(1_200);
    let mut encoder = MultichannelAudioFecEncoder::new(transport.prepare_fec_config(
        MultichannelAudioFecConfig {
            repair_symbols,
            ..MultichannelAudioFecConfig::default()
        },
    ));
    let groups = [MultichannelAudioGroup {
        group_id: 3,
        channel_start: 48,
        channel_count: 2,
        payload_kind: AudioPayloadKind::Pcm,
        sample_format: AudioSampleFormat::S24Le,
        flags: 0,
        payload: pcm,
    }];
    let encoded = encoder
        .encode_epoch(MultichannelAudioEpoch {
            session_id,
            config_generation: 2,
            epoch_id: 8,
            pts_samples: 1_920,
            sample_rate: 48_000,
            frame_count: 240,
            groups: &groups,
        })
        .unwrap();
    let wrapped = transport.wrap_epoch(encoded).unwrap();
    let source = wrapped.source_datagrams().next().unwrap().payload.to_vec();
    let repair = wrapped.repair_datagrams().next().unwrap().payload.to_vec();
    (source, repair)
}

#[test]
fn relay_fabric_forwards_exact_aep1_source_and_repair_to_the_edge() {
    let endpoint = |port: u16, role: RelayForwardRole| RelayForwardEndpoint {
        bind: address("127.0.0.1:0"),
        target: address(&format!("127.0.0.1:{port}")),
        role,
    };
    let mut forwarder = RelayDownstreamForwarder::new(&vec![
        endpoint(26001, RelayForwardRole::Source),
        endpoint(26002, RelayForwardRole::Repair),
    ])
    .unwrap();
    let mut sessions = AudioBlockSessions::new();
    let (source, repair) = audio_datagrams(444, 2, &[9_u8; 2_400]);

    match process_relay_audio_epoch_datagram(&mut sessions, &source, 1_000) {
        AudioStep::Relay { session_id, role } => {
            assert_eq!(session_id, Some(444));
            assert_eq!(role, MediaDatagramRole::Source);
            assert_eq!(forwarder.forward(&source, role, None, None, 1), vec![0]);
        }
        other => panic!("{other:?}"),
    }
    match process_relay_audio_epoch_datagram(&mut sessions, &repair, 1_000) {
        AudioStep::Relay { session_id, role } => {
            assert_eq!(session_id, Some(444));
            assert_eq!(role, MediaDatagramRole::Repair);
            assert_eq!(forwarder.forward(&repair, role, None, None, 1), vec![1]);
        }
        other => panic!("{other:?}"),
    }
}

#[test]
fn sessions_of_audio_blocks_are_forgotten_with_time() {
    let named = AudioIdentity { block_id: 5, source_index: Some(0), session_id: Some(444) };
    let unnamed = AudioIdentity { block_id: 5, source_index: None, session_id: None };
    let other = AudioIdentity { block_id: 6, source_index: None, session_id: None };
    let repair = |session_id| AudioStep::Relay { session_id, role: MediaDatagramRole::Repair };
    let mut sessions = AudioBlockSessions::new();
    assert_eq!(sessions.relay_identified(Some(unnamed), 1_000), repair(None));
    assert_eq!(
        sessions.relay_identified(Some(named), 1_000),
        AudioStep::Relay { session_id: Some(444), role: MediaDatagramRole::Source }
    );
    let last = 1_000 + AUDIO_BLOCK_TTL_NS - 1;
    assert_eq!(sessions.relay_identified(Some(unnamed), last), repair(Some(444)));
    assert_eq!(sessions.relay_identified(Some(other), last), repair(None));
    assert_eq!(sessions.relay_identified(Some(unnamed), last + 1), repair(None));
    assert_eq!(sessions.relay_identified(None, last + 1), AudioStep::Invalid);
}

#[test]
fn media_udp_fec_ingest_broadcasts_audio_epoch_datagrams() {
    let subscriber = address("127.0.0.1:27001");
    let sender = address("127.0.0.1:27002");
    let mut native = NativeAudioRelay::new();
    let mut sessions = AudioBlockSessions::new();
    match receive_media_datagram(
        &mut native,
        &mut sessions,
        subscriber,
        b"WAVEY-DAW-SUBSCRIBE/2 55",
        1_000,
    ) {
        MediaDatagramStep::Control { reply } => {
            assert_eq!(reply.unwrap(), b"WAVEY-DAW-SUBSCRIBED/2 55")
        }
        other => panic!("{other:?}"),
    }

    let transport = MultichannelAudioTransportAdapter::udp(1_200);
    let mut encoder = MultichannelAudioFecEncoder::new(
        transport.prepare_fec_config(MultichannelAudioFecConfig::default()),
    );
    let pcm = vec![5_u8; 240 * 2 * 2];
    let groups = [MultichannelAudioGroup {
        group_id: 0,
        channel_start: 0,
        channel_count: 2,
        payload_kind: AudioPayloadKind::Pcm,
        sample_format: AudioSampleFormat::S16Le,
        flags: 0,
        payload: &pcm,
    }];
    let encoded = encoder
        .encode_epoch(MultichannelAudioEpoch {
            session_id: 55,
            config_generation: 1,
            epoch_id: 0,
            pts_samples: 0,
            sample_rate: 48_000,
            frame_count: 240,
            groups: &groups,
        })
        .unwrap();
    let epoch_datagram = transport.wrap_epoch(encoded).unwrap().datagrams[0]
        .payload
        .to_vec();
    assert!(is_multichannel_audio_transport_datagram(&epoch_datagram));

    match receive_media_datagram(&mut native, &mut sessions, sender, &epoch_datagram, 2_000) {
        MediaDatagramStep::Audio { listeners, session_id } => {
            assert_eq!(listeners, vec![subscriber]);
            assert_eq!(session_id, Some(55));
        }
        other => panic!("{other:?}"),
    }
    match receive_relay_datagram(
        RelayIngressParentPath::Secondary,
        &mut native,
        &mut sessions,
        sender,
        &epoch_datagram,
        2_000,
    ) {
        RelayDatagramStep::Audio { listeners, session_id, role } => {
            assert_eq!(listeners, vec![subscriber]);
            assert_eq!(session_id, Some(55));
            assert_eq!(role, MediaDatagramRole::Source);
        }
        other => panic!("{other:?}"),
    }
}

/// Stores what a socket's decoder makes whole, and reads it back from its slot.
fn ingest_units(datagrams: &[Vec<u8>]) -> BTreeMap<u64, CachedMediaAccessUnit> {
    let mut decoder = MediaUnitDecoder::new();
    let mut units = BTreeMap::new();
    for datagram in datagrams {
        if let Some(frame) = decoder.push_datagram(datagram).unwrap() {
            let (stream_id, sequence) = (frame.metadata.stream_id, frame.metadata.sequence);
            let stored = serialize_access_unit(frame.metadata, &frame.payload).unwrap();
            let unit = read_access_unit(stored, 7, stream_id, sequence).unwrap();
            units.insert(sequence, unit);
        }
    }
    units
}

fn frame_metadata(sequence: u64, pts_ms: u64, flags: MediaFrameFlags) -> MediaFrameMetadata {
    let mut metadata = MediaFrameMetadata::new(
        66,
        sequence,
        pts_ms,
        raptorq_datagram_fec::MediaCodec::H264,
    );
    metadata.duration_ms = 16;
    metadata.flags = flags;
    metadata
}

fn lossy_encoder() -> MediaFecEncoder {
    let mut encoder = MediaFecEncoder::default();
    encoder
        .controller_mut()
        .update_network_metrics(NetworkMetrics {
            loss_fraction: 0.08,
            rtt_ms: 70.0,
            jitter_ms: 25.0,
            queue_delay_ms: 20.0,
            available_bitrate_bps: Some(8_000_000),
        });
    encoder
}

fn deterministic_video_payload(len: usize) -> Vec<u8> {
    (0..len)
        .map(|index| {
            let mixed = (index as u32)
                .wrapping_mul(1_103_515_245)
                .wrapping_add(12_345);
            (mixed >> 16) as u8
        })
        .collect()
}

#[test]
fn media_udp_fec_ingest_writes_access_unit_stream() {
    let mut metadata = frame_metadata(3, 777, MediaFrameFlags::keyframe());
    metadata.duration_ms = 33;
    let encoded = MediaFecEncoder::default()
        .encode_frame(MediaFrame { metadata, payload: b"fec-h264-access-unit" })
        .unwrap();
    let units = ingest_units(&encoded.datagrams);
    let unit = &units[&3];
    assert_eq!(unit.metadata.codec, MediaCodec::H264);
    assert!(MediaFrameFlags::new(unit.metadata.flags).is_keyframe());
    assert_eq!(unit.metadata.pts_ms, 777);
    assert_eq!(unit.metadata.duration_ms, 33);
    assert_eq!(&unit.serialized[HEADER_LEN..], b"fec-h264-access-unit");
}

struct LossyFrame {
    sequence: u64,
    pts_ms: u64,
    payload_len: usize,
    flags: MediaFrameFlags,
    dropped_indexes: &'static [usize],
}

#[test]
fn media_udp_fec_ingest_recovers_video_access_units_with_lost_datagrams() {
    let frames = [
        LossyFrame {
            sequence: 10,
            pts_ms: 1_000,
            payload_len: 40_000,
            flags: MediaFrameFlags::keyframe(),
            dropped_indexes: &[3, 4, 5, 6, 7, 8, 9, 10],
        },
        LossyFrame {
            sequence: 11,
            pts_ms: 1_016,
            payload_len: 18_000,
            flags: MediaFrameFlags::default(),
            dropped_indexes: &[2, 8, 12],
        },
        LossyFrame {
            sequence: 12,
            pts_ms: 1_032,
            payload_len: 18_000,
            flags: MediaFrameFlags::default(),
            dropped_indexes: &[1, 5],
        },
    ];
    let mut encoder = lossy_encoder();
    let mut sent = Vec::new();
    for frame in &frames {
        let payload = deterministic_video_payload(frame.payload_len);
        let encoded = encoder
            .encode_frame(MediaFrame {
                metadata: frame_metadata(frame.sequence, frame.pts_ms, frame.flags),
                payload: &payload,
            })
            .unwrap();
        assert!(
            encoded.decision.config.repair_symbols as usize >= frame.dropped_indexes.len(),
            "test loss must stay inside the repair budget for sequence {}",
            frame.sequence
        );
        for (index, datagram) in encoded.datagrams.iter().enumerate() {
            if !frame.dropped_indexes.contains(&index) {
                sent.push(datagram.clone());
            }
        }
    }
    let units = ingest_units(&sent);
    for frame in &frames {
        let unit = &units[&frame.sequence];
        assert_eq!(unit.metadata.codec, MediaCodec::H264);
        assert_eq!(unit.metadata.sequence, frame.sequence);
        assert_eq!(unit.metadata.pts_ms, frame.pts_ms);
        assert_eq!(unit.metadata.duration_ms, 16);
        assert_eq!(
            &unit.serialized[HEADER_LEN..],
            deterministic_video_payload(frame.payload_len).as_slice()
        );
    }
}

struct StreamFrame {
    sequence: u64,
    pts_ms: u64,
    payload_len: usize,
    flags: MediaFrameFlags,
    max_loss_per_block: usize,
}

fn bounded_source_loss(encoded: &EncodedMediaFrame, max_loss_per_block: usize) -> HashSet<usize> {
    let mut blocks = BTreeMap::<u32, (u16, Vec<usize>, usize)>::new();
    for (datagram_index, datagram) in encoded.datagrams.iter().enumerate() {
        let header = DatagramFecHeader::decode(datagram).expect("decode FEC datagram header");
        let entry = blocks
            .entry(header.block_id)
            .or_insert((header.source_symbols, Vec::new(), 0));
        assert_eq!(entry.0, header.source_symbols);
        if entry.2 < usize::from(header.source_symbols) {
            entry.1.push(datagram_index);
        }
        entry.2 += 1;
    }

    let mut dropped = HashSet::new();
    assert_eq!(blocks.len(), usize::from(encoded.fragment_count));
    for (_block_id, (source_symbols, source_indices, datagram_count)) in blocks {
        let repair_symbols = datagram_count.saturating_sub(usize::from(source_symbols));
        let drop_count = repair_symbols.min(max_loss_per_block);
        assert!(drop_count > 0, "test frame should have repair symbols");
        dropped.extend(source_indices.into_iter().take(drop_count));
    }
    dropped
}

fn reorder_delay_ms(ordinal: usize) -> u64 {
    match ordinal % 11 {
        0 => 8,
        3 => 5,
        7 => 2,
        _ => 0,
    }
}

#[test]
fn media_udp_fec_ingest_recovers_multiblock_video_stream_with_reordered_loss() {
    let frames = [
        StreamFrame {
            sequence: 100,
            pts_ms: 2_000,
            payload_len: 96_000,
            flags: MediaFrameFlags::keyframe(),
            max_loss_per_block: 4,
        },
        StreamFrame {
            sequence: 101,
            pts_ms: 2_016,
            payload_len: 18_000,
            flags: MediaFrameFlags::default(),
            max_loss_per_block: 2,
        },
        StreamFrame {
            sequence: 102,
            pts_ms: 2_032,
            payload_len: 40_000,
            flags: MediaFrameFlags::keyframe(),
            max_loss_per_block: 3,
        },
        StreamFrame {
            sequence: 103,
            pts_ms: 2_048,
            payload_len: 9_000,
            flags: MediaFrameFlags::default(),
            max_loss_per_block: 1,
        },
    ];
    let mut encoder = lossy_encoder();
    let mut expected_payloads = BTreeMap::new();
    let mut scheduled = Vec::new();
    let mut ordinal = 0usize;
    let mut dropped_datagrams = 0usize;

    for frame in &frames {
        let payload = deterministic_video_payload(frame.payload_len);
        let encoded = encoder
            .encode_frame(MediaFrame {
                metadata: frame_metadata(frame.sequence, frame.pts_ms, frame.flags),
                payload: &payload,
            })
            .unwrap();
        assert!(
            encoded.fragment_count > 1 || frame.payload_len < 64_000,
            "large access units should exercise multi-block frame reconstruction"
        );
        let dropped = bounded_source_loss(&encoded, frame.max_loss_per_block);
        dropped_datagrams += dropped.len();
        for (index, datagram) in encoded.datagrams.into_iter().enumerate() {
            if dropped.contains(&index) {
                continue;
            }
            scheduled.push((reorder_delay_ms(ordinal), ordinal, datagram));
            ordinal += 1;
        }
        expected_payloads.insert(frame.sequence, payload);
    }

    assert!(dropped_datagrams >= 8, "test should exercise repeated datagram loss");
    scheduled.sort_by_key(|datagram| (datagram.0, datagram.1));
    let sent: Vec<Vec<u8>> = scheduled.into_iter().map(|datagram| datagram.2).collect();
    let units = ingest_units(&sent);
    for frame in &frames {
        let unit = &units[&frame.sequence];
        assert_eq!(unit.metadata.codec, MediaCodec::H264);
        assert_eq!(unit.metadata.sequence, frame.sequence);
        assert_eq!(unit.metadata.pts_ms, frame.pts_ms);
        assert_eq!(unit.metadata.duration_ms, 16);
        assert_eq!(
            &unit.serialized[HEADER_LEN..],
            expected_payloads[&frame.sequence].as_slice()
        );
    }
}

#[test]
fn websocket_binary_media_request_ingests_access_unit() {
    let mut metadata = MediaFrameMetadata::new(92, 3, 600, raptorq_datagram_fec::MediaCodec::Opus);
    metadata.duration_ms = 33;
    metadata.flags = MediaFrameFlags::keyframe();
    let header = raptorq_datagram_fec::MediaFragmentHeader {
        metadata,
        fragment_index: 0,
        fragment_count: 1,
        access_unit_len: b"websocket-opus-frame".len() as u32,
        fragment_offset: 0,
    };
    let mut request = vec![0; HEADER_LEN];
    header.encode(&mut request[..]).unwrap();
    request.extend_from_slice(b"websocket-opus-frame");

    let frame = match classify_binary_request(&request).unwrap() {
        BinaryRequest::AccessUnit(frame) => frame,
        other => panic!("{other:?}"),
    };
    let stored = serialize_access_unit(frame.metadata, &frame.payload).unwrap();
    let unit = read_access_unit(stored, 1, 92, 3).unwrap();
    assert_eq!(unit.metadata.codec, MediaCodec::Opus);
    assert_eq!(&unit.serialized[HEADER_LEN..], b"websocket-opus-frame");
    let response = MediaAccessUnitResponse::from_cached(&unit);
    assert_eq!(response.stream_id, 92);
    assert_eq!(response.sequence, 3);
}

#[test]
fn relay_forwarder_preserves_exact_raptorq_wire_datagram_and_role_metrics() {
    let mut forwarder = RelayDownstreamForwarder::new(&vec![RelayForwardEndpoint {
        bind: address("127.0.0.1:0"),
        target: address("127.0.0.1:26001"),
        role: RelayForwardRole::Repair,
    }])
    .unwrap();
    let expected = b"RLS1-exact-canonical-symbol";
    let filtered = forwarder.forward(
        b"RLS1-warm-source-state",
        MediaDatagramRole::Source,
        None,
        None,
        1,
    );
    assert!(filtered.is_empty());
    let sent = forwarder.forward(expected, MediaDatagramRole::Repair, None, None, 1);
    assert_eq!(sent, vec![0]);
    forwarder.record_forward_success(MediaDatagramRole::Repair, expected.len(), 1_000);
    let snapshot = forwarder.snapshot();
    assert_eq!(snapshot.downstream_children, 1);
    assert_eq!(snapshot.source_datagrams, 0);
    assert_eq!(snapshot.repair_datagrams, 1);
    assert_eq!(snapshot.bytes, expected.len() as u64);
    assert_eq!(snapshot.errors, 0);
    assert_eq!(snapshot.filtered_datagrams, 1);
    assert_eq!(snapshot.duration_count, 1);
}
