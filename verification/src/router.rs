//! What an edge answers to a request.

use vstd::prelude::*;
use vstd::string::*;
use crate::access_unit::{codec_name, codec_text, CachedMediaAccessUnit};
use crate::bytes::{ascii_bytes, bytes_of};
use crate::control::{control_kind_from_path, kind_of_path, ControlKind};
use crate::media::LiveMediaKind;
use crate::paths::{
    asset_of, asset_type, assets_are_apart_from_media, listed_media_are_served, mission_control_asset_content_type, mission_control_asset_relative_path,
    number_in_query, own_media_of_path, parse_init_path, parse_llhls_tail_path,
    parse_media_unit_path, parse_part_path, parse_query_u64, parse_segment_path,
    parse_stream_init_path, parse_stream_part_path, parse_stream_playlist_path,
    parse_stream_segment_path, stream_media_of_path, stream_of_path, stream_path_reads_back,
    unit_of_path,
};
use crate::text::{
    decimal, decimal_text, first_occurrence, has_prefix, has_suffix, is_digit,
    lemma_decimal_digits, lemma_occurrence_found, same_text, starts_with, view_of_str,
};

verus! {

pub const MESH_EVENTS_PATH: &'static str = "/api/mesh/events";

pub const MESH_WEBSOCKET_PATH: &'static str = "/ws/mesh";

pub const MESH_METRICS_PATH: &'static str = "/metrics";

pub const PROMETHEUS_CONTENT_TYPE: &'static str = "text/plain; version=0.0.4; charset=utf-8";

pub const MEDIA_ACCESS_UNIT_CONTENT_TYPE: &'static str = "application/vnd.wavey.media-access-unit";

pub const PLAYLIST_CONTENT_TYPE: &'static str = "application/vnd.apple.mpegurl";

pub const WELCOME: &'static str =
    "av-mesh playback edge\n\nNeedletail Mission Control: /mesh\nHLS: /live/stream.m3u8\nHealth: /up\nStats: /api/stats\nMetrics: /metrics\n";

pub const CONTROL_ROOM_SETUP: &'static str =
    "Needletail Mission Control setup: configure NEEDLETAIL_MISSION_CONTROL_DIST with the built asset directory.\n";

/// An answer to a request.
#[derive(Debug)]
pub struct HandlerResponse {
    pub status: u16,
    pub body: Option<Vec<u8>>,
    pub content_type: Option<&'static str>,
    pub headers: Vec<(&'static str, String)>,
    pub etag: Option<u64>,
}

/// An answer to a request.
#[verifier::ext_equal]
pub struct ReplyModel {
    pub status: u16,
    pub body: Option<Seq<u8>>,
    pub content_type: Option<Seq<char>>,
    pub headers: Seq<(Seq<char>, Seq<char>)>,
    pub etag: Option<u64>,
}

/// The names and values of headers.
pub open spec fn header_views(headers: Seq<(&'static str, String)>) -> Seq<
    (Seq<char>, Seq<char>),
> {
    headers.map_values(|header: (&'static str, String)| (header.0@, header.1@))
}

/// The bytes of an optional body.
pub open spec fn body_view(body: Option<Vec<u8>>) -> Option<Seq<u8>> {
    match body {
        Some(bytes) => Some(bytes@),
        None => None,
    }
}

impl View for HandlerResponse {
    type V = ReplyModel;

    open spec fn view(&self) -> ReplyModel {
        ReplyModel {
            status: self.status,
            body: body_view(self.body),
            content_type: view_of_str(self.content_type),
            headers: header_views(self.headers@),
            etag: self.etag,
        }
    }
}

impl ReplyModel {
    /// An answer that any page may read.
    pub open spec fn plain(
        status: u16,
        body: Option<Seq<u8>>,
        content_type: Option<Seq<char>>,
    ) -> ReplyModel {
        ReplyModel {
            status,
            body,
            content_type,
            headers: seq![
                ("access-control-allow-origin"@, "*"@),
                ("access-control-allow-methods"@, "GET, HEAD, POST, PUT, OPTIONS"@),
            ],
            etag: None,
        }
    }

    /// The same with one more header.
    pub open spec fn with_header(self, name: Seq<char>, value: Seq<char>) -> ReplyModel {
        ReplyModel { headers: self.headers.push((name, value)), ..self }
    }

    /// The same, not to be stored.
    pub open spec fn unstored(self) -> ReplyModel {
        self.with_header("cache-control"@, "no-store, max-age=0"@)
    }

    /// The same with a tag.
    pub open spec fn tagged(self, etag: u64) -> ReplyModel {
        ReplyModel { etag: Some(etag), ..self }
    }

    /// The same with the time at which the part was there, where it is known.
    pub open spec fn available(self, available_unix_us: Option<u64>) -> ReplyModel {
        match available_unix_us {
            Some(us) => self.with_header(
                "x-needletail-cache-available-unix-us"@,
                decimal(us as nat),
            ),
            None => self,
        }
    }
}

/// An answer that any page may read.
pub fn response(status: u16, body: Option<Vec<u8>>, content_type: Option<&'static str>) -> (r:
    HandlerResponse)
    ensures
        r@ == ReplyModel::plain(status, body_view(body), view_of_str(content_type)),
{
    let mut headers: Vec<(&'static str, String)> = Vec::new();
    headers.push(("access-control-allow-origin", "*".to_owned()));
    headers.push(("access-control-allow-methods", "GET, HEAD, POST, PUT, OPTIONS".to_owned()));
    let r = HandlerResponse { status, body, content_type, headers, etag: None };
    proof {
        assert(r@ =~= ReplyModel::plain(status, body_view(body), view_of_str(content_type)));
    }
    r
}

impl HandlerResponse {
    /// The same with one more header.
    pub fn with_header(self, name: &'static str, value: String) -> (r: Self)
        ensures
            r@ == self@.with_header(name@, value@),
    {
        let ghost before = self;
        let mut headers = self.headers;
        headers.push((name, value));
        let r = HandlerResponse {
            status: self.status,
            body: self.body,
            content_type: self.content_type,
            headers,
            etag: self.etag,
        };
        proof {
            assert(r@ =~= before@.with_header(name@, value@));
        }
        r
    }

    /// The same, not to be stored.
    pub fn with_no_store(self) -> (r: Self)
        ensures
            r@ == self@.unstored(),
    {
        self.with_header("cache-control", "no-store, max-age=0".to_owned())
    }

    /// The same with a tag.
    pub fn with_etag(self, etag: u64) -> (r: Self)
        ensures
            r@ == self@.tagged(etag),
    {
        HandlerResponse {
            status: self.status,
            body: self.body,
            content_type: self.content_type,
            headers: self.headers,
            etag: Some(etag),
        }
    }

    /// The same with the time at which the part was there, where it is known.
    pub fn with_part_available_unix_us(self, available_unix_us: Option<u64>) -> (r: Self)
        ensures
            r@ == self@.available(available_unix_us),
    {
        match available_unix_us {
            Some(us) => self.with_header("x-needletail-cache-available-unix-us", decimal_text(us)),
            None => self,
        }
    }
}

/// The media that a request asks for.
#[derive(Clone, Copy, Debug, PartialEq, Eq, Structural)]
pub enum MediaRequest {
    Playlist { stream_id: u64 },
    /// The part after a part, or the latest one, or the oldest one.
    Tail { stream_id: u64, after: Option<u64>, start_at_oldest: bool },
    Init { stream_id: u64 },
    AccessUnit { stream_id: u64, sequence: u64 },
    Part { stream_id: u64, sequence: u64, kind: LiveMediaKind },
    Segment { stream_id: u64, segment: u64, kind: LiveMediaKind },
}

/// What a request asks for.
#[derive(Debug)]
pub enum Route {
    /// Which requests are allowed.
    Options,
    NotAllowed,
    Welcome,
    /// The page of the control room.
    ControlRoom,
    Health,
    Stats,
    Mesh,
    Metrics,
    /// A file of the control room.
    Asset { name: String },
    /// Media, and the reason for which a replica of its stream is asked for first.
    Media { request: MediaRequest, demand: Option<&'static str> },
    NotFound,
}

/// What a request asks for.
pub enum RouteModel {
    Options,
    NotAllowed,
    Welcome,
    ControlRoom,
    Health,
    Stats,
    Mesh,
    Metrics,
    Asset { name: Seq<char> },
    Media { request: MediaRequest, demand: Option<Seq<char>> },
    NotFound,
}

impl View for Route {
    type V = RouteModel;

    open spec fn view(&self) -> RouteModel {
        match *self {
            Route::Options => RouteModel::Options,
            Route::NotAllowed => RouteModel::NotAllowed,
            Route::Welcome => RouteModel::Welcome,
            Route::ControlRoom => RouteModel::ControlRoom,
            Route::Health => RouteModel::Health,
            Route::Stats => RouteModel::Stats,
            Route::Mesh => RouteModel::Mesh,
            Route::Metrics => RouteModel::Metrics,
            Route::Asset { name } => RouteModel::Asset { name: name@ },
            Route::Media { request, demand } => RouteModel::Media {
                request,
                demand: view_of_str(demand),
            },
            Route::NotFound => RouteModel::NotFound,
        }
    }
}

/// The media that a path asks for, where a node's own stream has a number.
pub open spec fn media_route(path: Seq<char>, query: Option<Seq<char>>, own_stream: u64) -> RouteModel {
    if let Some(stream_id) = stream_of_path(path, "/stream.m3u8"@) {
        RouteModel::Media {
            request: MediaRequest::Playlist { stream_id },
            demand: Some("playlist-demand"@),
        }
    } else if let Some(stream_id) = stream_of_path(path, "/tail"@) {
        RouteModel::Media {
            request: MediaRequest::Tail {
                stream_id,
                after: number_in_query(query, "after"@),
                start_at_oldest: number_in_query(query, "from"@) == Some(0u64),
            },
            demand: Some("llhls-tail-demand"@),
        }
    } else if let Some(stream_id) = stream_of_path(path, "/init.mp4"@) {
        RouteModel::Media {
            request: MediaRequest::Init { stream_id },
            demand: Some("playlist-init-demand"@),
        }
    } else if let Some((stream_id, sequence)) = unit_of_path(path) {
        RouteModel::Media {
            request: MediaRequest::AccessUnit { stream_id, sequence },
            demand: Some("media-demand"@),
        }
    } else if let Some((stream_id, sequence, kind)) = stream_media_of_path(path, "/part"@) {
        RouteModel::Media {
            request: MediaRequest::Part { stream_id, sequence, kind },
            demand: Some("playlist-part-demand"@),
        }
    } else if let Some((stream_id, segment, kind)) = stream_media_of_path(path, "/seg"@) {
        RouteModel::Media {
            request: MediaRequest::Segment { stream_id, segment, kind },
            demand: Some("playlist-segment-demand"@),
        }
    } else if path == "/live/init.mp4"@ {
        RouteModel::Media {
            request: MediaRequest::Init { stream_id: own_stream },
            demand: Some("playlist-init-demand"@),
        }
    } else if let Some((sequence, kind)) = own_media_of_path(path, "/live/part"@) {
        RouteModel::Media {
            request: MediaRequest::Part { stream_id: own_stream, sequence, kind },
            demand: None,
        }
    } else if let Some((segment, kind)) = own_media_of_path(path, "/live/seg"@) {
        RouteModel::Media {
            request: MediaRequest::Segment { stream_id: own_stream, segment, kind },
            demand: None,
        }
    } else {
        RouteModel::NotFound
    }
}

/// What a request asks for.
pub open spec fn route_of(
    method: Seq<char>,
    path: Seq<char>,
    query: Option<Seq<char>>,
    own_stream: u64,
) -> RouteModel {
    if method == "OPTIONS"@ {
        RouteModel::Options
    } else if method != "GET"@ && method != "HEAD"@ {
        RouteModel::NotAllowed
    } else if path == "/"@ {
        RouteModel::Welcome
    } else if path == "/mesh"@ {
        RouteModel::ControlRoom
    } else if path == "/up"@ {
        RouteModel::Health
    } else if path == "/live/stream.m3u8"@ {
        RouteModel::Media {
            request: MediaRequest::Playlist { stream_id: own_stream },
            demand: Some("playlist-demand"@),
        }
    } else if path == "/api/stats"@ {
        RouteModel::Stats
    } else if path == "/api/mesh"@ {
        RouteModel::Mesh
    } else if path == MESH_METRICS_PATH@ {
        RouteModel::Metrics
    } else if let Some(name) = asset_of(path) {
        RouteModel::Asset { name }
    } else {
        media_route(path, query, own_stream)
    }
}

fn route_media(path: &str, query: Option<&str>, own_stream: u64) -> (r: Route)
    ensures
        r@ == media_route(path@, view_of_str(query), own_stream),
{
    if let Some(stream_id) = parse_stream_playlist_path(path) {
        return Route::Media {
            request: MediaRequest::Playlist { stream_id },
            demand: Some("playlist-demand"),
        };
    }
    if let Some(stream_id) = parse_llhls_tail_path(path) {
        let after = parse_query_u64(query, "after");
        let start_at_oldest: bool = match parse_query_u64(query, "from") {
            Some(from) => from == 0,
            None => false,
        };
        return Route::Media {
            request: MediaRequest::Tail { stream_id, after, start_at_oldest },
            demand: Some("llhls-tail-demand"),
        };
    }
    if let Some(stream_id) = parse_stream_init_path(path) {
        return Route::Media {
            request: MediaRequest::Init { stream_id },
            demand: Some("playlist-init-demand"),
        };
    }
    if let Some((stream_id, sequence)) = parse_media_unit_path(path) {
        return Route::Media {
            request: MediaRequest::AccessUnit { stream_id, sequence },
            demand: Some("media-demand"),
        };
    }
    if let Some((stream_id, sequence, kind)) = parse_stream_part_path(path) {
        return Route::Media {
            request: MediaRequest::Part { stream_id, sequence, kind },
            demand: Some("playlist-part-demand"),
        };
    }
    if let Some((stream_id, segment, kind)) = parse_stream_segment_path(path) {
        return Route::Media {
            request: MediaRequest::Segment { stream_id, segment, kind },
            demand: Some("playlist-segment-demand"),
        };
    }
    if parse_init_path(path) {
        return Route::Media {
            request: MediaRequest::Init { stream_id: own_stream },
            demand: Some("playlist-init-demand"),
        };
    }
    if let Some((sequence, kind)) = parse_part_path(path) {
        return Route::Media {
            request: MediaRequest::Part { stream_id: own_stream, sequence, kind },
            demand: None,
        };
    }
    if let Some((segment, kind)) = parse_segment_path(path) {
        return Route::Media {
            request: MediaRequest::Segment { stream_id: own_stream, segment, kind },
            demand: None,
        };
    }
    Route::NotFound
}

/// What a request asks for.
pub fn route(method: &str, path: &str, query: Option<&str>, own_stream: u64) -> (r: Route)
    ensures
        r@ == route_of(method@, path@, view_of_str(query), own_stream),
{
    if same_text(method, "OPTIONS") {
        return Route::Options;
    }
    if !same_text(method, "GET") && !same_text(method, "HEAD") {
        return Route::NotAllowed;
    }
    if same_text(path, "/") {
        return Route::Welcome;
    }
    if same_text(path, "/mesh") {
        return Route::ControlRoom;
    }
    if same_text(path, "/up") {
        return Route::Health;
    }
    if same_text(path, "/live/stream.m3u8") {
        return Route::Media {
            request: MediaRequest::Playlist { stream_id: own_stream },
            demand: Some("playlist-demand"),
        };
    }
    if same_text(path, "/api/stats") {
        return Route::Stats;
    }
    if same_text(path, "/api/mesh") {
        return Route::Mesh;
    }
    if same_text(path, MESH_METRICS_PATH) {
        return Route::Metrics;
    }
    if let Some(name) = mission_control_asset_relative_path(path) {
        return Route::Asset { name };
    }
    route_media(path, query, own_stream)
}

/// The answer to a request that rests on nothing but the request, where it does.
pub open spec fn fixed_answer(route: RouteModel) -> Option<ReplyModel> {
    match route {
        RouteModel::Options => Some(ReplyModel::plain(204, None, None)),
        RouteModel::NotAllowed => Some(ReplyModel::plain(405, None, None)),
        RouteModel::Welcome => Some(
            ReplyModel::plain(
                200,
                Some(ascii_bytes(WELCOME@)),
                Some("text/plain; charset=utf-8"@),
            ),
        ),
        RouteModel::Health => Some(
            ReplyModel::plain(200, Some(ascii_bytes("OK"@)), Some("text/plain"@)),
        ),
        RouteModel::NotFound => Some(ReplyModel::plain(404, None, None)),
        _ => None,
    }
}

/// The answer to a request that rests on nothing but the request, where it does.
pub fn fixed_reply(route: &Route) -> (r: Option<HandlerResponse>)
    ensures
        match r {
            Some(reply) => fixed_answer(route@) == Some(reply@),
            None => fixed_answer(route@) is None,
        },
{
    match route {
        Route::Options => Some(response(204, None, None)),
        Route::NotAllowed => Some(response(405, None, None)),
        Route::Welcome => Some(
            response(200, Some(bytes_of(WELCOME)), Some("text/plain; charset=utf-8")),
        ),
        Route::Health => Some(response(200, Some(bytes_of("OK")), Some("text/plain"))),
        Route::NotFound => Some(response(404, None, None)),
        _ => None,
    }
}

/// The answer where nothing is found.
pub open spec fn not_found() -> ReplyModel {
    ReplyModel::plain(404, None, None)
}

/// The answer that says how to set the control room up.
pub open spec fn control_room_setup() -> ReplyModel {
    ReplyModel::plain(
        503,
        Some(ascii_bytes(CONTROL_ROOM_SETUP@)),
        Some("text/plain; charset=utf-8"@),
    ).unstored()
}

/// The answer that says how to set the control room up.
pub fn mission_control_setup_response() -> (r: HandlerResponse)
    ensures
        r@ == control_room_setup(),
{
    response(
        503,
        Some(bytes_of(CONTROL_ROOM_SETUP)),
        Some("text/plain; charset=utf-8"),
    ).with_no_store()
}

/// The answer that holds a file of the control room.
pub open spec fn asset_answer(name: Seq<char>, bytes: Seq<u8>) -> ReplyModel {
    ReplyModel::plain(200, Some(bytes), asset_type(name)).unstored()
}

/// The answer that holds a file of the control room.
pub fn mission_control_asset_response(name: &str, bytes: Vec<u8>) -> (r: HandlerResponse)
    ensures
        r@ == asset_answer(name@, bytes@),
{
    response(200, Some(bytes), mission_control_asset_content_type(name)).with_no_store()
}

/// The answer to a request for the page of the control room: the page where it is there, else
/// how to set it up.
pub fn control_room_reply(page: Option<Vec<u8>>) -> (r: HandlerResponse)
    ensures
        r@ == match page {
            Some(bytes) => asset_answer("index.html"@, bytes@),
            None => control_room_setup(),
        },
{
    match page {
        Some(bytes) => mission_control_asset_response("index.html", bytes),
        None => mission_control_setup_response(),
    }
}

/// The answer to a request for a file of the control room.
pub fn asset_reply(name: &str, file: Option<Vec<u8>>) -> (r: HandlerResponse)
    ensures
        r@ == match file {
            Some(bytes) => asset_answer(name@, bytes@),
            None => not_found(),
        },
{
    match file {
        Some(bytes) => mission_control_asset_response(name, bytes),
        None => response(404, None, None),
    }
}

/// The answer that holds an account in JSON.
pub fn json_reply(json: Vec<u8>) -> (r: HandlerResponse)
    ensures
        r@ == ReplyModel::plain(200, Some(json@), Some("application/json"@)).unstored(),
{
    response(200, Some(json), Some("application/json")).with_no_store()
}

/// The answer that holds metrics.
pub fn metrics_reply(text: Vec<u8>) -> (r: HandlerResponse)
    ensures
        r@ == ReplyModel::plain(200, Some(text@), Some(PROMETHEUS_CONTENT_TYPE@)).unstored(),
{
    response(200, Some(text), Some(PROMETHEUS_CONTENT_TYPE)).with_no_store()
}

/// The answer that holds a playlist.
pub fn playlist_reply(text: Vec<u8>) -> (r: HandlerResponse)
    ensures
        r@ == ReplyModel::plain(200, Some(text@), Some(PLAYLIST_CONTENT_TYPE@)).unstored(),
{
    response(200, Some(text), Some(PLAYLIST_CONTENT_TYPE)).with_no_store()
}

/// A part of a stream as it was found.
#[derive(Debug)]
pub struct FoundPart {
    pub sequence: u64,
    pub bytes: Vec<u8>,
    pub hash: u64,
    /// When the part was there first, where that is known.
    pub available_unix_us: Option<u64>,
}

/// The media that a stream is known to have, or else some other.
pub open spec fn kind_or(known: Option<LiveMediaKind>, other: LiveMediaKind) -> LiveMediaKind {
    match known {
        Some(kind) => kind,
        None => other,
    }
}

fn known_or(known: Option<LiveMediaKind>, other: LiveMediaKind) -> (r: LiveMediaKind)
    ensures
        r == kind_or(known, other),
{
    match known {
        Some(kind) => kind,
        None => other,
    }
}

/// The answer to a request for the next part of a stream: the part with its number, or
/// nothing where none came.
pub open spec fn tail_answer(
    stream_id: u64,
    part: Option<FoundPart>,
    known: Option<LiveMediaKind>,
) -> ReplyModel {
    match part {
        Some(part) => ReplyModel::plain(
            200,
            Some(part.bytes@),
            Some(kind_or(known, LiveMediaKind::Ts).content_type_text()),
        ).tagged(part.hash).available(part.available_unix_us).unstored().with_header(
            "x-sequence"@,
            decimal(part.sequence as nat),
        ).with_header("x-av-stream-id"@, decimal(stream_id as nat)),
        None => ReplyModel::plain(204, None, None).unstored(),
    }
}

/// The answer to a request for the next part of a stream.
pub fn tail_reply(stream_id: u64, part: Option<FoundPart>, known: Option<LiveMediaKind>) -> (r:
    HandlerResponse)
    ensures
        r@ == tail_answer(stream_id, part, known),
{
    match part {
        Some(part) => {
            let kind = known_or(known, LiveMediaKind::Ts);
            response(200, Some(part.bytes), Some(kind.content_type())).with_etag(
                part.hash,
            ).with_part_available_unix_us(part.available_unix_us).with_no_store().with_header(
                "x-sequence",
                decimal_text(part.sequence),
            ).with_header("x-av-stream-id", decimal_text(stream_id))
        },
        None => response(204, None, None).with_no_store(),
    }
}

/// The answer to a request for the initialization of a stream.
pub fn init_reply(init: Option<Vec<u8>>) -> (r: HandlerResponse)
    ensures
        r@ == match init {
            Some(bytes) => ReplyModel::plain(
                200,
                Some(bytes@),
                Some(LiveMediaKind::Fmp4.content_type_text()),
            ).unstored(),
            None => not_found(),
        },
{
    match init {
        Some(bytes) => response(
            200,
            Some(bytes),
            Some(LiveMediaKind::Fmp4.content_type()),
        ).with_no_store(),
        None => response(404, None, None),
    }
}

/// The answer that holds an access unit.
pub open spec fn unit_answer(unit: CachedMediaAccessUnit) -> ReplyModel {
    ReplyModel::plain(
        200,
        Some(unit.serialized@),
        Some(MEDIA_ACCESS_UNIT_CONTENT_TYPE@),
    ).tagged(unit.hash).unstored().with_header(
        "x-av-stream-id"@,
        decimal(unit.metadata.stream_id as nat),
    ).with_header("x-av-sequence"@, decimal(unit.metadata.sequence as nat)).with_header(
        "x-av-codec"@,
        codec_text(unit.metadata.codec),
    ).with_header("x-av-pts-ms"@, decimal(unit.metadata.pts_ms as nat)).with_header(
        "x-av-duration-ms"@,
        decimal(unit.metadata.duration_ms as nat),
    ).with_header("x-av-flags"@, decimal(unit.metadata.flags as nat))
}

/// The answer to a request for an access unit.
pub fn unit_reply(unit: Option<CachedMediaAccessUnit>) -> (r: HandlerResponse)
    ensures
        r@ == match unit {
            Some(unit) => unit_answer(unit),
            None => not_found(),
        },
{
    match unit {
        Some(unit) => response(
            200,
            Some(unit.serialized),
            Some(MEDIA_ACCESS_UNIT_CONTENT_TYPE),
        ).with_etag(unit.hash).with_no_store().with_header(
            "x-av-stream-id",
            decimal_text(unit.metadata.stream_id),
        ).with_header("x-av-sequence", decimal_text(unit.metadata.sequence)).with_header(
            "x-av-codec",
            codec_name(unit.metadata.codec).to_owned(),
        ).with_header("x-av-pts-ms", decimal_text(unit.metadata.pts_ms)).with_header(
            "x-av-duration-ms",
            decimal_text(unit.metadata.duration_ms as u64),
        ).with_header("x-av-flags", decimal_text(unit.metadata.flags as u64)),
        None => response(404, None, None),
    }
}

/// The answer to a request for a part.
pub fn part_reply(
    part: Option<FoundPart>,
    requested: LiveMediaKind,
    known: Option<LiveMediaKind>,
) -> (r: HandlerResponse)
    ensures
        r@ == match part {
            Some(part) => ReplyModel::plain(
                200,
                Some(part.bytes@),
                Some(kind_or(known, requested).content_type_text()),
            ).tagged(part.hash).available(part.available_unix_us),
            None => not_found(),
        },
{
    match part {
        Some(part) => {
            let kind = known_or(known, requested);
            response(200, Some(part.bytes), Some(kind.content_type())).with_etag(
                part.hash,
            ).with_part_available_unix_us(part.available_unix_us)
        },
        None => response(404, None, None),
    }
}

/// The answer to a request for a segment.
pub fn segment_reply(
    segment: Option<Vec<u8>>,
    requested: LiveMediaKind,
    known: Option<LiveMediaKind>,
) -> (r: HandlerResponse)
    ensures
        r@ == match segment {
            Some(bytes) => ReplyModel::plain(
                200,
                Some(bytes@),
                Some(kind_or(known, requested).content_type_text()),
            ),
            None => not_found(),
        },
{
    match segment {
        Some(bytes) => {
            let kind = known_or(known, requested);
            response(200, Some(bytes), Some(kind.content_type()))
        },
        None => response(404, None, None),
    }
}

/// Whether a path takes a body.
pub fn has_body_handler(path: &str) -> (r: bool)
    ensures
        r == has_prefix(path@, "/api/control/"@),
{
    starts_with(path, "/api/control/")
}

/// Whether a path is answered by a stream of events.
pub fn is_streaming(path: &str) -> (r: bool)
    ensures
        r == (path@ == MESH_EVENTS_PATH@),
{
    same_text(path, MESH_EVENTS_PATH)
}

/// Whether a path is that of the web socket.
pub fn can_handle(path: &str) -> (r: bool)
    ensures
        r == (path@ == MESH_WEBSOCKET_PATH@),
{
    same_text(path, MESH_WEBSOCKET_PATH)
}

/// What a request with a body asks for.
#[derive(Clone, Copy, Debug, PartialEq, Eq, Structural)]
pub enum BodyRoute {
    /// What it would ask for without the body.
    Plain,
    /// A command by another method than the one for commands.
    UsePost,
    /// A command of a kind.
    Command(ControlKind),
    /// A command of no kind.
    UnknownCommand,
}

/// What a request with a body asks for.
pub open spec fn body_route_of(method: Seq<char>, path: Seq<char>) -> BodyRoute {
    if !has_prefix(path, "/api/control/"@) {
        BodyRoute::Plain
    } else if method != "POST"@ {
        BodyRoute::UsePost
    } else {
        match kind_of_path(path) {
            Some(kind) => BodyRoute::Command(kind),
            None => BodyRoute::UnknownCommand,
        }
    }
}

/// What a request with a body asks for.
pub fn route_body(method: &str, path: &str) -> (r: BodyRoute)
    ensures
        r == body_route_of(method@, path@),
{
    if !has_body_handler(path) {
        return BodyRoute::Plain;
    }
    if !same_text(method, "POST") {
        return BodyRoute::UsePost;
    }
    match control_kind_from_path(path) {
        Some(kind) => BodyRoute::Command(kind),
        None => BodyRoute::UnknownCommand,
    }
}

/// The answer to a command by another method than the one for commands.
pub fn use_post_reply() -> (r: HandlerResponse)
    ensures
        r@ == ReplyModel::plain(
            405,
            Some(ascii_bytes("use POST for control commands\n"@)),
            Some("text/plain"@),
        ),
{
    response(405, Some(bytes_of("use POST for control commands\n")), Some("text/plain"))
}

/// The answer to a command that was taken.
pub fn command_reply(json: Vec<u8>) -> (r: HandlerResponse)
    ensures
        r@ == ReplyModel::plain(202, Some(json@), Some("application/json"@)).unstored(),
{
    response(202, Some(json), Some("application/json")).with_no_store()
}

/// Every request that is neither for a resource nor for what is allowed is refused, and
/// nothing is served to it.
pub proof fn only_reads_are_routed(
    method: Seq<char>,
    path: Seq<char>,
    query: Option<Seq<char>>,
    own_stream: u64,
)
    requires
        method != "OPTIONS"@,
        method != "GET"@,
        method != "HEAD"@,
    ensures
        fixed_answer(route_of(method, path, query, own_stream)) == Some(
            ReplyModel::plain(405, None, None),
        ),
{
}

/// The path of a part or a segment beside the playlist of a stream.
pub open spec fn listed_path(stream_id: u64, word: Seq<char>, number: u64, kind: LiveMediaKind) -> Seq<
    char,
> {
    "/live/"@ + decimal(stream_id as nat) + word + decimal(number as nat) + "."@
        + kind.extension_text()
}

proof fn lemma_listed_path(
    stream_id: u64,
    word: Seq<char>,
    number: u64,
    kind: LiveMediaKind,
    own_stream: u64,
)
    requires
        word == "/part"@ || word == "/seg"@,
    ensures
        ({
            let path = listed_path(stream_id, word, number, kind);
            &&& route_of("GET"@, path, None, own_stream) == media_route(path, None, own_stream)
            &&& stream_of_path(path, "/stream.m3u8"@) is None
            &&& stream_of_path(path, "/tail"@) is None
            &&& stream_of_path(path, "/init.mp4"@) is None
            &&& unit_of_path(path) is None
            &&& word == "/seg"@ ==> stream_media_of_path(path, "/part"@) is None
        }),
{
    reveal_strlit("GET");
    reveal_strlit("OPTIONS");
    reveal_strlit("/");
    reveal_strlit("/mesh");
    reveal_strlit("/up");
    reveal_strlit("/live/stream.m3u8");
    reveal_strlit("/api/stats");
    reveal_strlit("/api/mesh");
    reveal_strlit("/metrics");
    reveal_strlit("/live/");
    reveal_strlit("/media/");
    reveal_strlit("/stream.m3u8");
    reveal_strlit("/tail");
    reveal_strlit("/init.mp4");
    reveal_strlit("/part");
    reveal_strlit("/seg");
    reveal_strlit(".");
    reveal_strlit("mp4");
    reveal_strlit("ts");
    let d = decimal(stream_id as nat);
    let n = decimal(number as nat);
    let path = listed_path(stream_id, word, number, kind);
    lemma_decimal_digits(stream_id as nat);
    lemma_decimal_digits(number as nat);
    let rest = path.skip(6);
    let ext = kind.extension_text();
    assert(rest =~= d + word + n + "."@ + ext);
    assert(path.take(6) =~= "/live/"@);
    assert(path[1] == 'l' && path[2] == 'i');
    assert(is_digit(d[0]) && path[6] == d[0]);
    assert("OPTIONS".view()[0] == 'O' && "GET".view()[0] == 'G');
    assert("/live/stream.m3u8".view()[6] == 's');
    assert("/mesh".view()[1] == 'm' && "/up".view()[1] == 'u');
    assert("/api/stats".view()[1] == 'a' && "/api/mesh".view()[1] == 'a');
    assert("/metrics".view()[1] == 'm');
    if asset_of(path) is Some {
        assets_are_apart_from_media(path);
    }
    if has_prefix(path, "/media/"@) {
        assert(path.take(7)[1] == path[1]);
    }
    let last = rest.len() - 1;
    assert(rest[last] == ext[ext.len() - 1]);
    let playlist = "/stream.m3u8"@;
    if has_suffix(rest, playlist) {
        assert(rest.skip(rest.len() - playlist.len())[playlist.len() - 1] == rest[last]);
    }
    let tail = "/tail"@;
    if has_suffix(rest, tail) {
        assert(rest.skip(rest.len() - tail.len())[tail.len() - 1] == rest[last]);
    }
    let init = "/init.mp4"@;
    if has_suffix(rest, init) {
        let end = rest.skip(rest.len() - init.len());
        assert(end[init.len() - 1] == rest[last]);
        assert(end[4] == rest[last - 4]);
        if kind == LiveMediaKind::Fmp4 {
            assert(rest[last - 4] == n[n.len() - 1]);
            assert(is_digit(n[n.len() - 1]));
        }
    }
    if word == "/seg"@ {
        lemma_occurrence_found(rest, "/part"@);
        let f = first_occurrence(rest, "/part"@);
        if f < rest.len() {
            let at = rest.skip(f);
            assert(at.take(5)[0] == at[0] && at.take(5)[1] == at[1]);
            assert(rest[f] == '/' && rest[f + 1] == 'p');
            if f < d.len() {
                assert(is_digit(d[f]));
            } else if f < d.len() + 4 {
                assert(rest[f] == word[f - d.len()]);
                assert(f == d.len());
                assert(rest[f + 1] == word[1]);
            } else if f < d.len() + 4 + n.len() {
                assert(rest[f] == n[f - d.len() - 4]);
                assert(is_digit(n[f - d.len() - 4]));
            } else if f == d.len() + 4 + n.len() {
                assert(rest[f] == '.');
            } else {
                assert(rest[f] == ext[f - d.len() - 5 - n.len()]);
            }
        }
    }
}

/// A part that a playlist lists is what a request for it beside the playlist is routed to,
/// and so is a segment.
pub proof fn listed_media_are_routed(
    stream_id: u64,
    number: u64,
    kind: LiveMediaKind,
    own_stream: u64,
)
    ensures
        route_of("GET"@, listed_path(stream_id, "/part"@, number, kind), None, own_stream) == (
        RouteModel::Media {
            request: MediaRequest::Part { stream_id, sequence: number, kind },
            demand: Some("playlist-part-demand"@),
        }),
        route_of("GET"@, listed_path(stream_id, "/seg"@, number, kind), None, own_stream) == (
        RouteModel::Media {
            request: MediaRequest::Segment { stream_id, segment: number, kind },
            demand: Some("playlist-segment-demand"@),
        }),
{
    lemma_listed_path(stream_id, "/part"@, number, kind, own_stream);
    lemma_listed_path(stream_id, "/seg"@, number, kind, own_stream);
    listed_media_are_served(stream_id, number, kind);
}

/// The path of a document of a stream.
pub open spec fn document_path(stream_id: u64, suffix: Seq<char>) -> Seq<char> {
    "/live/"@ + decimal(stream_id as nat) + suffix
}

proof fn lemma_document_path(
    method: Seq<char>,
    stream_id: u64,
    suffix: Seq<char>,
    query: Option<Seq<char>>,
    own_stream: u64,
)
    requires
        method == "GET"@ || method == "HEAD"@,
        suffix == "/stream.m3u8"@ || suffix == "/tail"@ || suffix == "/init.mp4"@,
    ensures
        ({
            let path = document_path(stream_id, suffix);
            &&& route_of(method, path, query, own_stream) == media_route(path, query, own_stream)
            &&& suffix != "/stream.m3u8"@ ==> stream_of_path(path, "/stream.m3u8"@) is None
            &&& suffix != "/tail"@ ==> stream_of_path(path, "/tail"@) is None
        }),
{
    reveal_strlit("GET");
    reveal_strlit("HEAD");
    reveal_strlit("OPTIONS");
    reveal_strlit("/");
    reveal_strlit("/mesh");
    reveal_strlit("/up");
    reveal_strlit("/live/stream.m3u8");
    reveal_strlit("/api/stats");
    reveal_strlit("/api/mesh");
    reveal_strlit("/metrics");
    reveal_strlit("/live/");
    reveal_strlit("/stream.m3u8");
    reveal_strlit("/tail");
    reveal_strlit("/init.mp4");
    let d = decimal(stream_id as nat);
    let path = document_path(stream_id, suffix);
    lemma_decimal_digits(stream_id as nat);
    let rest = path.skip(6);
    assert(rest =~= d + suffix);
    assert(path.take(6) =~= "/live/"@);
    assert(path[1] == 'l' && path[2] == 'i');
    assert(is_digit(d[0]) && path[6] == d[0]);
    assert("OPTIONS".view()[0] == 'O' && "GET".view()[0] == 'G' && "HEAD".view()[0] == 'H');
    assert("/live/stream.m3u8".view()[6] == 's');
    assert("/mesh".view()[1] == 'm' && "/up".view()[1] == 'u');
    assert("/api/stats".view()[1] == 'a' && "/api/mesh".view()[1] == 'a');
    assert("/metrics".view()[1] == 'm');
    if asset_of(path) is Some {
        assets_are_apart_from_media(path);
    }
    let last = rest.len() - 1;
    assert(rest[last] == suffix[suffix.len() - 1]);
    let playlist = "/stream.m3u8"@;
    if has_suffix(rest, playlist) {
        assert(rest.skip(rest.len() - playlist.len())[playlist.len() - 1] == rest[last]);
    }
    let tail = "/tail"@;
    if has_suffix(rest, tail) {
        assert(rest.skip(rest.len() - tail.len())[tail.len() - 1] == rest[last]);
    }
}

/// The playlist, the tail and the initialization of a stream are routed to that stream, whatever
/// stream is the node's own. A tail goes on behind the part that the query names, and begins at the
/// oldest where the query says to begin at nothing.
pub proof fn documents_are_routed_to_their_stream(
    method: Seq<char>,
    stream_id: u64,
    query: Option<Seq<char>>,
    own_stream: u64,
)
    requires
        method == "GET"@ || method == "HEAD"@,
    ensures
        route_of(method, document_path(stream_id, "/stream.m3u8"@), query, own_stream) == (
        RouteModel::Media {
            request: MediaRequest::Playlist { stream_id },
            demand: Some("playlist-demand"@),
        }),
        match route_of(method, document_path(stream_id, "/tail"@), query, own_stream) {
            RouteModel::Media {
                request: MediaRequest::Tail { stream_id: id, after, start_at_oldest },
                demand,
            } => id == stream_id && after == number_in_query(query, "after"@) && (start_at_oldest
                <==> number_in_query(query, "from"@) == Some(0u64)) && demand == Some(
                "llhls-tail-demand"@,
            ),
            _ => false,
        },
        route_of(method, document_path(stream_id, "/init.mp4"@), query, own_stream) == (
        RouteModel::Media {
            request: MediaRequest::Init { stream_id },
            demand: Some("playlist-init-demand"@),
        }),
{
    lemma_document_path(method, stream_id, "/stream.m3u8"@, query, own_stream);
    lemma_document_path(method, stream_id, "/tail"@, query, own_stream);
    lemma_document_path(method, stream_id, "/init.mp4"@, query, own_stream);
    stream_path_reads_back(stream_id, "/stream.m3u8"@);
    stream_path_reads_back(stream_id, "/tail"@);
    stream_path_reads_back(stream_id, "/init.mp4"@);
    reveal_strlit("/stream.m3u8");
    reveal_strlit("/tail");
    reveal_strlit("/init.mp4");
}

/// The fixed pages are found under their paths, and any page may read every fixed answer.
pub proof fn pages_are_found_under_their_paths(
    method: Seq<char>,
    query: Option<Seq<char>>,
    own_stream: u64,
)
    requires
        method == "GET"@ || method == "HEAD"@,
    ensures
        route_of(method, "/"@, query, own_stream) == RouteModel::Welcome,
        route_of(method, "/mesh"@, query, own_stream) == RouteModel::ControlRoom,
        route_of(method, "/up"@, query, own_stream) == RouteModel::Health,
        route_of(method, "/api/stats"@, query, own_stream) == RouteModel::Stats,
        route_of(method, "/api/mesh"@, query, own_stream) == RouteModel::Mesh,
        route_of(method, "/metrics"@, query, own_stream) == RouteModel::Metrics,
        route_of(method, "/live/stream.m3u8"@, query, own_stream) == (RouteModel::Media {
            request: MediaRequest::Playlist { stream_id: own_stream },
            demand: Some("playlist-demand"@),
        }),
{
    reveal_strlit("GET");
    reveal_strlit("HEAD");
    reveal_strlit("OPTIONS");
    reveal_strlit("/");
    reveal_strlit("/mesh");
    reveal_strlit("/up");
    reveal_strlit("/live/stream.m3u8");
    reveal_strlit("/api/stats");
    reveal_strlit("/api/mesh");
    reveal_strlit("/metrics");
    assert("OPTIONS".view()[0] == 'O' && "GET".view()[0] == 'G' && "HEAD".view()[0] == 'H');
    assert("/mesh".view()[1] == 'm' && "/up".view()[1] == 'u');
    assert("/api/stats".view().len() == 10 && "/api/mesh".view().len() == 9);
    assert("/metrics".view().len() == 8 && "/live/stream.m3u8".view().len() == 17);
}

/// Whether an answer carries a header.
pub open spec fn carries(reply: ReplyModel, name: Seq<char>, value: Seq<char>) -> bool {
    exists|i: int| 0 <= i < reply.headers.len() && (#[trigger] reply.headers[i]) == (name, value)
}

/// A header that is added is carried with those before it, and changes nothing else.
pub proof fn headers_are_added(
    reply: ReplyModel,
    name: Seq<char>,
    value: Seq<char>,
    other: Seq<char>,
    text: Seq<char>,
)
    ensures
        carries(reply.with_header(name, value), name, value),
        carries(reply, other, text) ==> carries(reply.with_header(name, value), other, text),
        reply.with_header(name, value).status == reply.status,
        reply.with_header(name, value).body == reply.body,
        reply.with_header(name, value).content_type == reply.content_type,
        reply.with_header(name, value).etag == reply.etag,
        carries(reply.unstored(), "cache-control"@, "no-store, max-age=0"@),
{
    let after = reply.with_header(name, value);
    assert(after.headers[reply.headers.len() as int] == (name, value));
    if carries(reply, other, text) {
        let i = choose|i: int|
            0 <= i < reply.headers.len() && (#[trigger] reply.headers[i]) == (other, text);
        assert(after.headers[i] == (other, text));
    }
    let unstored = reply.unstored();
    assert(unstored.headers[reply.headers.len() as int] == (
        "cache-control"@,
        "no-store, max-age=0"@,
    ));
}

/// A tail that found a part answers with its bytes, tagged by its hash, with its sequence and its
/// stream in the headers and never to be stored; one that found none answers that there is nothing.
pub proof fn tails_answer_with_their_part(
    stream_id: u64,
    part: FoundPart,
    known: Option<LiveMediaKind>,
)
    ensures
        ({
            let reply = tail_answer(stream_id, Some(part), known);
            &&& reply.status == 200 && reply.body == Some(part.bytes@) && reply.etag == Some(
                part.hash,
            )
            &&& carries(reply, "x-sequence"@, decimal(part.sequence as nat))
            &&& carries(reply, "x-av-stream-id"@, decimal(stream_id as nat))
            &&& carries(reply, "cache-control"@, "no-store, max-age=0"@)
            &&& part.available_unix_us is Some ==> carries(
                reply,
                "x-needletail-cache-available-unix-us"@,
                decimal(part.available_unix_us->0 as nat),
            )
            &&& known is Some ==> reply.content_type == Some(known->0.content_type_text())
            &&& known is None ==> reply.content_type == Some("video/mp2t"@)
        }),
        tail_answer(stream_id, None, known).status == 204,
        tail_answer(stream_id, None, known).body is None,
{
    let reply = tail_answer(stream_id, Some(part), known);
    let n = reply.headers.len() as int;
    assert(reply.headers[n - 1] == ("x-av-stream-id"@, decimal(stream_id as nat)));
    assert(reply.headers[n - 2] == ("x-sequence"@, decimal(part.sequence as nat)));
    assert(reply.headers[n - 3] == ("cache-control"@, "no-store, max-age=0"@));
    if part.available_unix_us is Some {
        assert(reply.headers[n - 4] == (
            "x-needletail-cache-available-unix-us"@,
            decimal(part.available_unix_us->0 as nat),
        ));
    }
}

/// A media unit is answered as it was stored, tagged by its hash, with what its header tells.
pub proof fn units_are_answered_as_stored(unit: CachedMediaAccessUnit)
    ensures
        ({
            let reply = unit_answer(unit);
            &&& reply.status == 200 && reply.body == Some(unit.serialized@) && reply.etag == Some(
                unit.hash,
            )
            &&& carries(reply, "x-av-stream-id"@, decimal(unit.metadata.stream_id as nat))
            &&& carries(reply, "x-av-sequence"@, decimal(unit.metadata.sequence as nat))
            &&& carries(reply, "x-av-codec"@, codec_text(unit.metadata.codec))
            &&& carries(reply, "x-av-pts-ms"@, decimal(unit.metadata.pts_ms as nat))
            &&& carries(reply, "x-av-duration-ms"@, decimal(unit.metadata.duration_ms as nat))
            &&& carries(reply, "x-av-flags"@, decimal(unit.metadata.flags as nat))
        }),
{
    let reply = unit_answer(unit);
    let n = reply.headers.len() as int;
    assert(reply.headers[n - 1] == ("x-av-flags"@, decimal(unit.metadata.flags as nat)));
    assert(reply.headers[n - 2] == (
        "x-av-duration-ms"@,
        decimal(unit.metadata.duration_ms as nat),
    ));
    assert(reply.headers[n - 3] == ("x-av-pts-ms"@, decimal(unit.metadata.pts_ms as nat)));
    assert(reply.headers[n - 4] == ("x-av-codec"@, codec_text(unit.metadata.codec)));
    assert(reply.headers[n - 5] == ("x-av-sequence"@, decimal(unit.metadata.sequence as nat)));
    assert(reply.headers[n - 6] == ("x-av-stream-id"@, decimal(unit.metadata.stream_id as nat)));
}

/// Commands are taken by POST under their paths, and by no other method; what is not under the
/// path of the control interface is no command.
pub proof fn commands_are_posted(method: Seq<char>, path: Seq<char>, kind: ControlKind)
    ensures
        body_route_of(method, path) == BodyRoute::Command(kind) ==> method == "POST"@
            && kind_of_path(path) == Some(kind) && path.len() >= 13 && path.take(13)
            == "/api/control/"@,
        path.len() >= 13 && path.take(13) == "/api/control/"@ && method != "POST"@ ==> body_route_of(
            method,
            path,
        ) == BodyRoute::UsePost,
        path.len() < 13 ==> body_route_of(method, path) == BodyRoute::Plain,
{
    reveal_strlit("/api/control/");
}

/// What needs nothing is answered at once: a preflight with no content, another method as not
/// allowed, an unknown path as not found, and the two fixed pages with their texts.
pub proof fn fixed_answers_have_their_status(name: Seq<char>, request: MediaRequest)
    ensures
        fixed_answer(RouteModel::Options)->0.status == 204,
        fixed_answer(RouteModel::Options)->0.body is None,
        fixed_answer(RouteModel::NotAllowed)->0.status == 405,
        fixed_answer(RouteModel::NotFound)->0.status == 404,
        fixed_answer(RouteModel::NotFound)->0.body is None,
        fixed_answer(RouteModel::NotFound) == Some(not_found()),
        fixed_answer(RouteModel::Welcome)->0.status == 200,
        fixed_answer(RouteModel::Health)->0.status == 200,
        fixed_answer(RouteModel::Health)->0.body == Some(ascii_bytes("OK"@)),
        fixed_answer(RouteModel::Asset { name }) is None,
        fixed_answer(RouteModel::Media { request, demand: None }) is None,
        fixed_answer(RouteModel::Stats) is None,
        fixed_answer(RouteModel::Mesh) is None,
        fixed_answer(RouteModel::Metrics) is None,
        fixed_answer(RouteModel::ControlRoom) is None,
        control_room_setup().status == 503,
{
}

/// Nothing that changes is to be stored: neither files of the control room nor tails, whether they
/// found a part or none. Files are served with their bytes and by their kind.
pub proof fn changing_answers_are_not_stored(
    name: Seq<char>,
    bytes: Seq<u8>,
    stream_id: u64,
    known: Option<LiveMediaKind>,
)
    ensures
        asset_answer(name, bytes).status == 200,
        asset_answer(name, bytes).body == Some(bytes),
        asset_answer(name, bytes).content_type == asset_type(name),
        carries(asset_answer(name, bytes), "cache-control"@, "no-store, max-age=0"@),
        carries(tail_answer(stream_id, None, known), "cache-control"@, "no-store, max-age=0"@),
        carries(control_room_setup(), "cache-control"@, "no-store, max-age=0"@),
        carries(asset_answer(name, bytes), "access-control-allow-origin"@, "*"@),
{
    let asset = asset_answer(name, bytes);
    assert(asset.headers[0] == ("access-control-allow-origin"@, "*"@));
    assert(asset.headers[2] == ("cache-control"@, "no-store, max-age=0"@));
    let tail = tail_answer(stream_id, None, known);
    assert(tail.headers[2] == ("cache-control"@, "no-store, max-age=0"@));
    let setup = control_room_setup();
    assert(setup.headers[2] == ("cache-control"@, "no-store, max-age=0"@));
}

/// The path of a part or a segment of the node's own stream.
pub open spec fn own_path(word: Seq<char>, number: u64, kind: LiveMediaKind) -> Seq<char> {
    "/live/"@ + word + decimal(number as nat) + "."@ + kind.extension_text()
}

proof fn lemma_own_path(
    method: Seq<char>,
    word: Seq<char>,
    number: u64,
    kind: LiveMediaKind,
    query: Option<Seq<char>>,
    own_stream: u64,
)
    requires
        method == "GET"@ || method == "HEAD"@,
        word == "part"@ || word == "seg"@,
    ensures
        ({
            let path = own_path(word, number, kind);
            &&& route_of(method, path, query, own_stream) == media_route(path, query, own_stream)
            &&& stream_of_path(path, "/stream.m3u8"@) is None
            &&& stream_of_path(path, "/tail"@) is None
            &&& stream_of_path(path, "/init.mp4"@) is None
            &&& unit_of_path(path) is None
            &&& stream_media_of_path(path, "/part"@) is None
            &&& stream_media_of_path(path, "/seg"@) is None
            &&& path != "/live/init.mp4"@
            &&& word == "seg"@ ==> own_media_of_path(path, "/live/part"@) is None
        }),
{
    reveal_strlit("GET");
    reveal_strlit("HEAD");
    reveal_strlit("OPTIONS");
    reveal_strlit("/");
    reveal_strlit("/mesh");
    reveal_strlit("/up");
    reveal_strlit("/live/stream.m3u8");
    reveal_strlit("/live/init.mp4");
    reveal_strlit("/live/part");
    reveal_strlit("/api/stats");
    reveal_strlit("/api/mesh");
    reveal_strlit("/metrics");
    reveal_strlit("/live/");
    reveal_strlit("/media/");
    reveal_strlit("/stream.m3u8");
    reveal_strlit("/tail");
    reveal_strlit("/init.mp4");
    reveal_strlit("/part");
    reveal_strlit("/seg");
    reveal_strlit("part");
    reveal_strlit("seg");
    reveal_strlit(".");
    reveal_strlit("mp4");
    reveal_strlit("ts");
    let n = decimal(number as nat);
    let ext = kind.extension_text();
    let path = own_path(word, number, kind);
    lemma_decimal_digits(number as nat);
    let rest = path.skip(6);
    assert(rest =~= word + n + "."@ + ext);
    assert(path.take(6) =~= "/live/"@);
    assert(path[1] == 'l' && path[2] == 'i');
    assert(path[6] == word[0] && path[7] == word[1]);
    assert("OPTIONS".view()[0] == 'O' && "GET".view()[0] == 'G' && "HEAD".view()[0] == 'H');
    assert("/live/stream.m3u8".view()[7] == 't' && "/live/init.mp4".view()[6] == 'i');
    assert("/mesh".view()[1] == 'm' && "/up".view()[1] == 'u');
    assert("/api/stats".view()[1] == 'a' && "/api/mesh".view()[1] == 'a');
    assert("/metrics".view()[1] == 'm');
    if asset_of(path) is Some {
        assets_are_apart_from_media(path);
    }
    if has_prefix(path, "/media/"@) {
        assert(path.take(7)[1] == path[1]);
    }
    assert forall|i: int| 0 <= i < rest.len() implies rest[i] != '/' by {
        if i < word.len() {
            assert(rest[i] == word[i]);
        } else if i < word.len() + n.len() {
            assert(rest[i] == n[i - word.len()]);
            assert(is_digit(n[i - word.len()]));
        } else if i == word.len() + n.len() {
            assert(rest[i] == '.');
        } else {
            assert(rest[i] == ext[i - word.len() - n.len() - 1]);
        }
    }
    lemma_no_word(rest, "/stream.m3u8"@);
    lemma_no_word(rest, "/tail"@);
    lemma_no_word(rest, "/init.mp4"@);
    lemma_no_word(rest, "/part"@);
    lemma_no_word(rest, "/seg"@);
    if word == "seg"@ && has_prefix(path, "/live/part"@) {
        assert(path.take(10)[6] == path[6]);
    }
}

proof fn lemma_no_word(rest: Seq<char>, word: Seq<char>)
    requires
        word.len() > 0,
        word[0] == '/',
        forall|i: int| 0 <= i < rest.len() ==> rest[i] != '/',
    ensures
        !has_suffix(rest, word),
        first_occurrence(rest, word) >= rest.len(),
{
    if has_suffix(rest, word) {
        assert(rest.skip(rest.len() - word.len())[0] == rest[rest.len() - word.len()]);
    }
    lemma_occurrence_found(rest, word);
    let f = first_occurrence(rest, word);
    if f < rest.len() {
        assert(rest.skip(f).take(word.len() as int)[0] == rest[f]);
    }
}

/// A part or a segment that is asked for beside the own playlist is one of the node's own stream,
/// and so is the initialization there.
pub proof fn own_media_are_routed(
    method: Seq<char>,
    number: u64,
    kind: LiveMediaKind,
    query: Option<Seq<char>>,
    own_stream: u64,
)
    requires
        method == "GET"@ || method == "HEAD"@,
    ensures
        route_of(method, own_path("part"@, number, kind), query, own_stream) == (
        RouteModel::Media {
            request: MediaRequest::Part { stream_id: own_stream, sequence: number, kind },
            demand: None,
        }),
        route_of(method, own_path("seg"@, number, kind), query, own_stream) == (
        RouteModel::Media {
            request: MediaRequest::Segment { stream_id: own_stream, segment: number, kind },
            demand: None,
        }),
{
    lemma_own_path(method, "part"@, number, kind, query, own_stream);
    lemma_own_path(method, "seg"@, number, kind, query, own_stream);
    listed_media_are_served(0, number, kind);
}

} // verus!
