use av_mesh_node::access_unit::{
    classify_binary_request, read_access_unit, serialize_access_unit, AccessUnitError,
    BinaryRequest, FrameMetadata, MediaAccessUnitResponse, MediaCodec, MediaUnitDecoder,
    WebTransportMediaDecoder,
};
use av_mesh_node::clock::{now_unix_ms, now_unix_us, unix_units};
use av_mesh_node::control::ControlKind;
use av_mesh_node::protocol::{
    deserialize_optional_u64_from_any, handle_mesh_protocol_request, mesh_sse_event,
    parse_mesh_protocol_request, payload_kind, read_control_request, take_session_datagram,
    JsonValue, MeshProtocolRequest, MeshProtocolResponse, PayloadKind, RequestText, SessionStep,
    CONTROL_TAG, TELEMETRY_TAG,
};

fn metadata() -> FrameMetadata {
    FrameMetadata {
        stream_id: 77,
        sequence: 9,
        pts_ms: 1200,
        dts_ms: Some(1190),
        duration_ms: 33,
        codec: MediaCodec::H264,
        flags: 1,
    }
}

fn encoded_datagrams(prefixed: bool) -> Vec<Vec<u8>> {
    let mut metadata = raptorq_datagram_fec::MediaFrameMetadata::new(
        77,
        9,
        1200,
        raptorq_datagram_fec::MediaCodec::H264,
    );
    metadata.duration_ms = 33;
    metadata.flags = raptorq_datagram_fec::MediaFrameFlags::keyframe();
    let mut encoder = raptorq_datagram_fec::MediaFecEncoder::default();
    let frame = raptorq_datagram_fec::MediaFrame {
        metadata,
        payload: b"prefixed-h264-access-unit",
    };
    let transport = raptorq_fec_transport::FecDatagramEncoder::webtransport_with_stream_prefix(77);
    transport
        .encode_media_frame(&mut encoder, frame)
        .unwrap()
        .datagrams
        .into_iter()
        .map(|datagram| datagram[if prefixed { 0 } else { 8 }..].to_vec())
        .collect()
}

#[test]
fn webtransport_media_decoder_accepts_stream_prefixed_raptorq_datagrams() {
    let encoded = encoded_datagrams(true);

    let mut decoder = WebTransportMediaDecoder::new();
    assert!(decoder
        .push_datagram(&raptorq_fec_transport::webtransport_subscription_datagram(77))
        .unwrap()
        .is_none());

    let mut decoded = None;
    for datagram in encoded {
        if let Some(frame) = decoder.push_datagram(&datagram).unwrap() {
            decoded = Some(frame);
        }
    }

    let frame = decoded.unwrap();
    assert_eq!(frame.metadata.stream_id, 77);
    assert_eq!(frame.metadata.sequence, 9);
    assert_eq!(frame.metadata.codec, MediaCodec::H264);
    assert!(raptorq_datagram_fec::MediaFrameFlags::new(frame.metadata.flags).is_keyframe());
    assert_eq!(frame.payload, b"prefixed-h264-access-unit");
}

#[test]
fn media_sockets_decode_bare_datagrams() {
    let mut decoder = MediaUnitDecoder::new();
    let mut decoded = None;
    for datagram in encoded_datagrams(false) {
        if let Some(frame) = decoder.push_datagram(&datagram).unwrap() {
            decoded = Some(frame);
        }
    }
    assert_eq!(decoded.unwrap().payload, b"prefixed-h264-access-unit");
    assert!(decoder.push_datagram(b"not a datagram").is_err());
}

#[test]
fn sessions_subscribe_store_wait_or_refuse() {
    let mut decoder = WebTransportMediaDecoder::new();
    assert!(matches!(
        take_session_datagram(&mut decoder, b"WAVEY-AUDIO-EPOCH/2 91"),
        SessionStep::Subscribe { session_id: Some(91) }
    ));
    assert!(matches!(
        take_session_datagram(
            &mut decoder,
            &raptorq_fec_transport::webtransport_subscription_datagram(77)
        ),
        SessionStep::Wait
    ));
    let mut stored = None;
    for datagram in encoded_datagrams(true) {
        if let SessionStep::Store { frame } = take_session_datagram(&mut decoder, &datagram) {
            stored = Some(frame);
        }
    }
    assert_eq!(stored.unwrap().metadata.sequence, 9);
    match take_session_datagram(&mut decoder, b"not a datagram") {
        SessionStep::Refuse { reply } => {
            assert!(!reply.ok);
            assert!(reply
                .error
                .unwrap()
                .starts_with("WebTransport media datagram decode failed: "));
        }
        other => panic!("{other:?}"),
    }
    let mut wrong = encoded_datagrams(true);
    let mut decoder = WebTransportMediaDecoder::new();
    let mut refused = false;
    for datagram in wrong.iter_mut() {
        datagram[7] = 78;
        if let SessionStep::Refuse { reply } = take_session_datagram(&mut decoder, datagram) {
            refused = true;
            assert!(reply.error.unwrap().ends_with(
                "WebTransport stream prefix 78 does not match media stream id 77"
            ));
        }
    }
    assert!(refused);
}

#[test]
fn access_units_are_stored_and_read_back() {
    let serialized = serialize_access_unit(metadata(), b"unit").unwrap();
    assert_eq!(serialized.len(), 48);
    let unit = read_access_unit(serialized.clone(), 5, 77, 9).unwrap();
    assert_eq!(unit.metadata, metadata());
    assert_eq!(unit.payload_bytes, 4);
    assert!(read_access_unit(serialized.clone(), 5, 77, 8).is_none());
    assert!(read_access_unit(serialized.clone(), 5, 78, 9).is_none());
    assert!(read_access_unit(serialized[..47].to_vec(), 5, 77, 9).is_none());
    let response = MediaAccessUnitResponse::from_cached(&unit);
    assert_eq!(response.codec, "h264");
    assert_eq!(response.stream_id_text, "77");
    assert_eq!(response.stored_bytes, 48);
    match classify_binary_request(&serialized).unwrap() {
        BinaryRequest::AccessUnit(frame) => {
            assert_eq!(frame.metadata, metadata());
            assert_eq!(frame.payload, b"unit");
        }
        other => panic!("{other:?}"),
    }
    assert!(matches!(classify_binary_request(b""), Ok(BinaryRequest::Snapshot)));
    assert!(matches!(
        classify_binary_request(b"snapshot"),
        Ok(BinaryRequest::Protocol)
    ));
    assert_eq!(
        classify_binary_request(&serialized[..47]).unwrap_err(),
        "media access-unit payload length mismatch: header=4, body=3"
    );
    let far = FrameMetadata { sequence: u64::MAX, ..metadata() };
    match serialize_access_unit(far, b"unit") {
        Ok(bytes) => assert!(read_access_unit(bytes, 0, 77, u64::MAX).is_some()),
        Err(error) => assert!(matches!(error, AccessUnitError::SequenceTooLarge)),
    }
}

#[test]
fn mesh_protocol_snapshot_and_sse_expose_mesh_state() {
    assert!(matches!(
        parse_mesh_protocol_request(b"snapshot"),
        Ok(RequestText::Snapshot)
    ));
    assert!(matches!(
        parse_mesh_protocol_request(b" SnapShot\n"),
        Ok(RequestText::Snapshot)
    ));
    match parse_mesh_protocol_request(b"{\"type\":\"snapshot\"}").unwrap() {
        RequestText::Json(text) => assert_eq!(text, "{\"type\":\"snapshot\"}"),
        other => panic!("{other:?}"),
    }
    let error = parse_mesh_protocol_request(b"\xff").unwrap_err();
    assert_eq!(error, std::str::from_utf8(b"\xff").unwrap_err().to_string());
    let event = mesh_sse_event(b"{\"node_id\":\"test-node\"}");
    assert_eq!(
        event,
        b"event: mesh\ndata: {\"node_id\":\"test-node\"}\n\n"
    );
    assert!(!MeshProtocolResponse::error("x".into()).ok);
}

#[test]
fn mesh_protocol_requests_become_commands() {
    assert!(handle_mesh_protocol_request(MeshProtocolRequest::Snapshot).is_none());
    let (kind, request) = handle_mesh_protocol_request(MeshProtocolRequest::WarmStream {
        stream_id: Some(88),
        region: Some("test-region".into()),
    })
    .unwrap();
    assert_eq!(kind, ControlKind::WarmStream);
    assert_eq!(request.stream_id, Some(88));
    assert_eq!(request.region.as_deref(), Some("test-region"));
    let (kind, request) = handle_mesh_protocol_request(MeshProtocolRequest::CloseNode {
        node_id: Some("n".into()),
        region: None,
    })
    .unwrap();
    assert_eq!(kind, ControlKind::CloseNode);
    assert_eq!(request.node_id.as_deref(), Some("n"));
    let (kind, _) = handle_mesh_protocol_request(MeshProtocolRequest::ProvisionNode {
        node_id: None,
        region: None,
    })
    .unwrap();
    assert_eq!(kind, ControlKind::ProvisionNode);
    assert!(read_control_request(b"").is_some());
    assert!(read_control_request(b"{}").is_none());
}

#[test]
fn stream_ids_come_as_numbers_or_texts() {
    let read = |value: JsonValue| deserialize_optional_u64_from_any(&value);
    assert_eq!(read(JsonValue::Null), Ok(None));
    assert_eq!(
        read(JsonValue::Text("9007199254741993".into())),
        Ok(Some(9_007_199_254_741_993))
    );
    assert_eq!(read(JsonValue::Number { unsigned: Some(7) }), Ok(Some(7)));
    assert_eq!(
        read(JsonValue::Number { unsigned: None }),
        Err("stream_id must be an unsigned 64-bit integer".into())
    );
    assert_eq!(
        read(JsonValue::Text("x".into())),
        Err("invalid stream_id `x`: invalid digit found in string".into())
    );
    assert_eq!(
        read(JsonValue::Other),
        Err("stream_id must be an unsigned integer or decimal string".into())
    );
}

#[test]
fn payloads_are_told_apart_by_their_tag() {
    assert_eq!(TELEMETRY_TAG, *b"AVMT");
    assert_eq!(CONTROL_TAG, *b"AVMC");
    assert_eq!(payload_kind(*b"AVMT"), PayloadKind::Telemetry);
    assert_eq!(payload_kind(*b"AVMC"), PayloadKind::Control);
    assert_eq!(payload_kind(*b"AVMX"), PayloadKind::Other);
}

#[test]
fn clocks_count_from_the_start_of_1970() {
    assert_eq!(unix_units(None, 1_000), 0);
    assert_eq!(unix_units(Some(1_999_999), 1_000_000), 1);
    assert_eq!(unix_units(Some(u128::MAX), 1), u64::MAX);
    let before = now_unix_us();
    assert!(now_unix_ms() >= before / 1_000);
    assert!(before > 1_600_000_000_000_000);
}
