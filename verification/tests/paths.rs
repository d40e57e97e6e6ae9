use av_mesh_node::access_unit::{serialize_access_unit, read_access_unit, FrameMetadata, MediaCodec};
use av_mesh_node::control::ControlKind;
use av_mesh_node::media::LiveMediaKind;
use av_mesh_node::paths::{
    mission_control_asset_content_type, mission_control_asset_extension_allowed,
    mission_control_asset_relative_path, normalize_playback_base_url, parse_init_path,
    parse_llhls_tail_path, parse_media_unit_path, parse_part_path, parse_query_u64,
    parse_segment_path, parse_stream_init_path, parse_stream_part_path,
    parse_stream_playlist_path, parse_stream_segment_path, query_value, strip_live_media_suffix,
};
use av_mesh_node::router::{
    asset_reply, can_handle, command_reply, control_room_reply, fixed_reply, has_body_handler,
    init_reply, is_streaming, json_reply, metrics_reply, mission_control_asset_response,
    mission_control_setup_response, part_reply, playlist_reply, route, route_body, segment_reply,
    tail_reply, unit_reply, use_post_reply, BodyRoute, FoundPart, HandlerResponse, MediaRequest,
    Route, MESH_EVENTS_PATH, PROMETHEUS_CONTENT_TYPE,
};

fn header<'a>(response: &'a HandlerResponse, name: &str) -> Option<&'a str> {
    response
        .headers
        .iter()
        .find(|(header, _)| *header == name)
        .map(|(_, value)| value.as_str())
}

#[test]
fn parses_live_paths() {
    assert_eq!(parse_stream_playlist_path("/live/77/stream.m3u8"), Some(77));
    assert_eq!(parse_stream_init_path("/live/77/init.mp4"), Some(77));
    assert_eq!(
        parse_stream_part_path("/live/77/part42.ts"),
        Some((77, 42, LiveMediaKind::Ts))
    );
    assert_eq!(
        parse_stream_part_path("/live/77/part42.mp4"),
        Some((77, 42, LiveMediaKind::Fmp4))
    );
    assert_eq!(
        parse_stream_segment_path("/live/77/seg7.ts"),
        Some((77, 7, LiveMediaKind::Ts))
    );
    assert_eq!(
        parse_stream_segment_path("/live/77/seg7.mp4"),
        Some((77, 7, LiveMediaKind::Fmp4))
    );
    assert_eq!(parse_stream_playlist_path("/live/stream.m3u8"), None);
    assert_eq!(parse_stream_playlist_path("/live/77/part42.ts"), None);
    assert_eq!(parse_stream_part_path("/live/part42.ts"), None);
    assert_eq!(parse_stream_segment_path("/live/seg7.ts"), None);
    assert_eq!(
        parse_part_path("/live/part42.ts"),
        Some((42, LiveMediaKind::Ts))
    );
    assert_eq!(
        parse_part_path("/live/part42.mp4"),
        Some((42, LiveMediaKind::Fmp4))
    );
    assert_eq!(
        parse_segment_path("/live/seg7.ts"),
        Some((7, LiveMediaKind::Ts))
    );
    assert_eq!(
        parse_segment_path("/live/seg7.mp4"),
        Some((7, LiveMediaKind::Fmp4))
    );
    assert_eq!(parse_part_path("/live/seg7.ts"), None);
    assert_eq!(parse_llhls_tail_path("/live/77/tail"), Some(77));
    assert_eq!(parse_llhls_tail_path("/live/not-number/tail"), None);
    assert_eq!(
        parse_query_u64(Some("mode=part&after=41"), "after"),
        Some(41)
    );
    assert_eq!(
        normalize_playback_base_url("https://node/live/"),
        "https://node/live"
    );
}

#[test]
fn paths_with_something_missing_name_nothing() {
    assert_eq!(parse_stream_playlist_path("/live//stream.m3u8"), None);
    assert_eq!(parse_stream_playlist_path("/live/1/2/stream.m3u8"), None);
    assert_eq!(parse_stream_init_path("/77/init.mp4"), None);
    assert_eq!(parse_stream_part_path("/live/77/part.ts"), None);
    assert_eq!(parse_stream_part_path("/live/77/part4/2.ts"), None);
    assert_eq!(parse_stream_part_path("/live/77/part42.aac"), None);
    assert_eq!(
        parse_stream_part_path("/live/18446744073709551616/part1.ts"),
        None
    );
    assert_eq!(
        parse_stream_part_path("/live/18446744073709551615/part1.ts"),
        Some((u64::MAX, 1, LiveMediaKind::Ts))
    );
    assert_eq!(parse_media_unit_path("/media/77/unit/9"), Some((77, 9)));
    assert_eq!(parse_media_unit_path("/media//unit/9"), None);
    assert_eq!(parse_media_unit_path("/media/77/unit/"), None);
    assert_eq!(parse_media_unit_path("/media/77/unit/9/1"), None);
    assert!(parse_init_path("/live/init.mp4"));
    assert!(!parse_init_path("/live/77/init.mp4"));
    assert_eq!(
        strip_live_media_suffix("42.mp4"),
        Some(("42".to_owned(), LiveMediaKind::Fmp4))
    );
    assert_eq!(
        strip_live_media_suffix(".ts"),
        Some((String::new(), LiveMediaKind::Ts))
    );
    assert_eq!(strip_live_media_suffix("42"), None);
}

#[test]
fn listed_media_are_routed_to_what_they_name() {
    for kind in [LiveMediaKind::Ts, LiveMediaKind::Fmp4] {
        let part = format!("/live/77/part42.{}", kind.extension());
        match route("GET", &part, None, 1) {
            Route::Media { request, demand } => {
                assert_eq!(
                    request,
                    MediaRequest::Part { stream_id: 77, sequence: 42, kind }
                );
                assert_eq!(demand, Some("playlist-part-demand"));
            }
            other => panic!("{other:?}"),
        }
        let segment = format!("/live/seg7.{}", kind.extension());
        match route("HEAD", &segment, None, 1) {
            Route::Media { request, demand } => {
                assert_eq!(
                    request,
                    MediaRequest::Segment { stream_id: 1, segment: 7, kind }
                );
                assert_eq!(demand, None);
            }
            other => panic!("{other:?}"),
        }
    }
}

#[test]
fn queries_give_the_first_value_of_a_name() {
    assert_eq!(query_value(Some("a=1&a=2"), "a"), Some("1".to_owned()));
    assert_eq!(query_value(Some("flag&b=x=y"), "flag"), Some(String::new()));
    assert_eq!(query_value(Some("flag&b=x=y"), "b"), Some("x=y".to_owned()));
    assert_eq!(query_value(Some("a=1"), "b"), None);
    assert_eq!(query_value(None, "b"), None);
    assert_eq!(parse_query_u64(Some("after=x"), "after"), None);
}

#[test]
fn tail_requests_read_their_query() {
    match route("GET", "/live/77/tail", Some("after=41&from=0"), 1) {
        Route::Media { request, demand } => {
            assert_eq!(
                request,
                MediaRequest::Tail {
                    stream_id: 77,
                    after: Some(41),
                    start_at_oldest: true
                }
            );
            assert_eq!(demand, Some("llhls-tail-demand"));
        }
        other => panic!("{other:?}"),
    }
}

#[test]
fn routes_cover_every_resource() {
    assert!(matches!(route("OPTIONS", "/x", None, 1), Route::Options));
    assert!(matches!(route("PUT", "/ingest", None, 1), Route::NotAllowed));
    assert!(matches!(route("POST", "/", None, 1), Route::NotAllowed));
    assert!(matches!(route("GET", "/", None, 1), Route::Welcome));
    assert!(matches!(route("GET", "/mesh", None, 1), Route::ControlRoom));
    assert!(matches!(route("GET", "/up", None, 1), Route::Health));
    assert!(matches!(route("GET", "/api/stats", None, 1), Route::Stats));
    assert!(matches!(route("GET", "/api/mesh", None, 1), Route::Mesh));
    assert!(matches!(route("GET", "/metrics", None, 1), Route::Metrics));
    assert!(matches!(route("GET", "/live/nothing", None, 1), Route::NotFound));
    match route("GET", "/live/stream.m3u8", None, 5) {
        Route::Media { request, demand } => {
            assert_eq!(request, MediaRequest::Playlist { stream_id: 5 });
            assert_eq!(demand, Some("playlist-demand"));
        }
        other => panic!("{other:?}"),
    }
    match route("GET", "/live/init.mp4", None, 5) {
        Route::Media { request, .. } => {
            assert_eq!(request, MediaRequest::Init { stream_id: 5 });
        }
        other => panic!("{other:?}"),
    }
    match route("GET", "/media/77/unit/9", None, 5) {
        Route::Media { request, demand } => {
            assert_eq!(
                request,
                MediaRequest::AccessUnit { stream_id: 77, sequence: 9 }
            );
            assert_eq!(demand, Some("media-demand"));
        }
        other => panic!("{other:?}"),
    }
    match route("GET", "/app.js", None, 5) {
        Route::Asset { name } => assert_eq!(name, "app.js"),
        other => panic!("{other:?}"),
    }
}

#[test]
fn fixed_replies_have_their_status() {
    let status = |method: &str, path: &str| {
        fixed_reply(&route(method, path, None, 1)).map(|reply| reply.status)
    };
    assert_eq!(status("OPTIONS", "/live/1/stream.m3u8"), Some(204));
    assert_eq!(status("PUT", "/live/1/stream.m3u8"), Some(405));
    assert_eq!(status("GET", "/"), Some(200));
    assert_eq!(status("GET", "/up"), Some(200));
    assert_eq!(status("GET", "/nothing"), Some(404));
    assert_eq!(status("GET", "/metrics"), None);
    let up = fixed_reply(&route("GET", "/up", None, 1)).unwrap();
    assert_eq!(up.body.as_deref(), Some(&b"OK"[..]));
    assert_eq!(header(&up, "access-control-allow-origin"), Some("*"));
    let welcome = fixed_reply(&route("GET", "/", None, 1)).unwrap();
    assert!(welcome.body.unwrap().starts_with(b"av-mesh playback edge\n\n"));
}

#[test]
fn mission_control_setup_response_is_concise_and_actionable() {
    let response = mission_control_setup_response();
    assert_eq!(response.status, 503);
    assert_eq!(
        response.content_type,
        Some("text/plain; charset=utf-8")
    );
    let body = String::from_utf8(response.body.unwrap().to_vec()).unwrap();
    assert_eq!(
        body,
        "Needletail Mission Control setup: configure NEEDLETAIL_MISSION_CONTROL_DIST with the built asset directory.\n"
    );
}

#[test]
fn assets_stay_beside_their_page() {
    assert_eq!(
        mission_control_asset_relative_path("/mesh").as_deref(),
        Some("index.html")
    );
    assert_eq!(
        mission_control_asset_relative_path("/mesh/").as_deref(),
        Some("index.html")
    );
    assert_eq!(
        mission_control_asset_relative_path("/app_bg.wasm").as_deref(),
        Some("app_bg.wasm")
    );
    assert_eq!(mission_control_asset_relative_path("/a/app.js"), None);
    assert_eq!(mission_control_asset_relative_path("/..js"), None);
    assert_eq!(mission_control_asset_relative_path("/secret.txt"), None);
    assert_eq!(mission_control_asset_relative_path("/live/stream.m3u8"), None);
    assert_eq!(mission_control_asset_relative_path("app.js"), None);
    assert!(mission_control_asset_extension_allowed("a.ico"));
    assert!(mission_control_asset_extension_allowed("a.css"));
    assert!(!mission_control_asset_extension_allowed("a.html"));
    assert_eq!(
        mission_control_asset_content_type("index.html"),
        Some("text/html; charset=utf-8")
    );
    assert_eq!(
        mission_control_asset_content_type("a.js"),
        Some("text/javascript; charset=utf-8")
    );
    assert_eq!(mission_control_asset_content_type("a.wasm"), Some("application/wasm"));
    assert_eq!(mission_control_asset_content_type("a.css"), Some("text/css; charset=utf-8"));
    assert_eq!(mission_control_asset_content_type("a.ico"), Some("image/x-icon"));
    assert_eq!(mission_control_asset_content_type("a.txt"), None);
}

#[test]
fn asset_replies_hold_the_file_or_say_what_is_missing() {
    let page = control_room_reply(Some(b"<html>".to_vec()));
    assert_eq!(page.status, 200);
    assert_eq!(page.content_type, Some("text/html; charset=utf-8"));
    assert_eq!(page.body.as_deref(), Some(&b"<html>"[..]));
    assert_eq!(control_room_reply(None).status, 503);
    assert_eq!(asset_reply("app.js", None).status, 404);
    let script = mission_control_asset_response("app.js", b"x".to_vec());
    assert_eq!(script.content_type, Some("text/javascript; charset=utf-8"));
    assert_eq!(header(&script, "cache-control"), Some("no-store, max-age=0"));
    assert_eq!(asset_reply("app.js", Some(b"x".to_vec())).status, 200);
}

#[test]
fn media_replies_carry_their_headers() {
    let part = || {
        Some(FoundPart {
            sequence: 42,
            bytes: b"part".to_vec(),
            hash: 9,
            available_unix_us: Some(1_234),
        })
    };
    let reply = part_reply(part(), LiveMediaKind::Ts, None);
    assert_eq!(reply.status, 200);
    assert_eq!(reply.content_type, Some("video/mp2t"));
    assert_eq!(reply.etag, Some(9));
    assert_eq!(
        header(&reply, "x-needletail-cache-available-unix-us"),
        Some("1234")
    );
    assert_eq!(header(&reply, "cache-control"), None);
    let known = part_reply(part(), LiveMediaKind::Ts, Some(LiveMediaKind::Fmp4));
    assert_eq!(known.content_type, Some("video/mp4"));
    assert_eq!(part_reply(None, LiveMediaKind::Ts, None).status, 404);

    let tail = tail_reply(77, part(), None);
    assert_eq!(header(&tail, "x-sequence"), Some("42"));
    assert_eq!(header(&tail, "x-av-stream-id"), Some("77"));
    assert_eq!(header(&tail, "cache-control"), Some("no-store, max-age=0"));
    assert_eq!(tail_reply(77, None, None).status, 204);

    assert_eq!(init_reply(Some(b"ftyp".to_vec())).content_type, Some("video/mp4"));
    assert_eq!(init_reply(None).status, 404);
    let segment = segment_reply(Some(b"ab".to_vec()), LiveMediaKind::Fmp4, None);
    assert_eq!(segment.content_type, Some("video/mp4"));
    assert_eq!(segment.etag, None);
    assert_eq!(segment_reply(None, LiveMediaKind::Fmp4, None).status, 404);
    assert_eq!(
        playlist_reply(b"#EXTM3U".to_vec()).content_type,
        Some("application/vnd.apple.mpegurl")
    );
    assert_eq!(json_reply(b"{}".to_vec()).content_type, Some("application/json"));
    assert_eq!(
        metrics_reply(b"x 1\n".to_vec()).content_type,
        Some(PROMETHEUS_CONTENT_TYPE)
    );
}

#[test]
fn access_unit_replies_describe_the_unit() {
    let metadata = FrameMetadata {
        stream_id: 77,
        sequence: 9,
        pts_ms: 1200,
        dts_ms: None,
        duration_ms: 33,
        codec: MediaCodec::H264,
        flags: 1,
    };
    let serialized = serialize_access_unit(metadata, b"unit").unwrap();
    let unit = read_access_unit(serialized.clone(), 5, 77, 9).unwrap();
    let reply = unit_reply(Some(unit));
    assert_eq!(reply.status, 200);
    assert_eq!(reply.body, Some(serialized));
    assert_eq!(reply.etag, Some(5));
    assert_eq!(header(&reply, "x-av-stream-id"), Some("77"));
    assert_eq!(header(&reply, "x-av-sequence"), Some("9"));
    assert_eq!(header(&reply, "x-av-codec"), Some("h264"));
    assert_eq!(header(&reply, "x-av-pts-ms"), Some("1200"));
    assert_eq!(header(&reply, "x-av-duration-ms"), Some("33"));
    assert_eq!(header(&reply, "x-av-flags"), Some("1"));
    assert_eq!(unit_reply(None).status, 404);
}

#[test]
fn control_paths_take_posts_only() {
    assert!(has_body_handler("/api/control/warm-stream"));
    assert!(!has_body_handler("/api/mesh"));
    assert_eq!(
        route_body("POST", "/api/control/warm-stream"),
        BodyRoute::Command(ControlKind::WarmStream)
    );
    assert_eq!(route_body("GET", "/api/control/warm-stream"), BodyRoute::UsePost);
    assert_eq!(
        route_body("POST", "/api/control/unknown"),
        BodyRoute::UnknownCommand
    );
    assert_eq!(route_body("POST", "/ingest"), BodyRoute::Plain);
    let refused = use_post_reply();
    assert_eq!(refused.status, 405);
    assert_eq!(
        refused.body.as_deref(),
        Some(&b"use POST for control commands\n"[..])
    );
    assert_eq!(command_reply(b"{}".to_vec()).status, 202);
    assert!(is_streaming(MESH_EVENTS_PATH));
    assert!(!is_streaming("/api/mesh"));
    assert!(can_handle("/ws/mesh"));
    assert!(!can_handle("/ws"));
}

#[test]
fn http_ingest_is_not_served_by_mesh_node() {
    let status = |method: &str, path: &str| {
        fixed_reply(&route(method, path, None, 1)).map(|reply| reply.status)
    };
    assert_eq!(status("GET", "/ingest"), Some(404));
    assert!(!has_body_handler("/ingest"));
    assert_eq!(route_body("POST", "/ingest"), BodyRoute::Plain);
    assert_eq!(status("POST", "/ingest"), Some(405));
}

#[test]
fn http_media_access_unit_ingest_is_not_served_by_mesh_node() {
    let status = |method: &str, path: &str| {
        fixed_reply(&route(method, path, None, 1)).map(|reply| reply.status)
    };
    assert_eq!(status("GET", "/media/access-unit"), Some(404));
    assert!(!has_body_handler("/media/access-unit"));
    assert_eq!(route_body("POST", "/media/access-unit"), BodyRoute::Plain);
    assert_eq!(status("POST", "/media/access-unit"), Some(405));

    let stream_id = u64::from(u32::MAX) + 55;
    match route("GET", &format!("/media/{stream_id}/unit/7"), None, 1) {
        Route::Media { request, .. } => {
            assert_eq!(request, MediaRequest::AccessUnit { stream_id, sequence: 7 })
        }
        other => panic!("{other:?}"),
    }
}
