//! What nodes and their operators say to each other, beside media.

use vstd::prelude::*;
use vstd::string::*;
use vstd::utf8::*;
use crate::access_unit::{
    frame_after, is_prefixed, prefixed_result, FrameModel, MediaAccessUnitResponse, MediaFrame,
    WebTransportMediaDecoder,
};
use crate::api::MeshApiSnapshot;
use crate::audio::{audio_epoch_subscription, parse_audio_epoch_subscription};
use crate::bytes::{ascii_bytes, be_value, bytes_of, extend_bytes};
use crate::control::{
    is_letter, says, says_at, ControlCommand, ControlKind, ControlRequest,
};
use crate::text::{
    lower_char, lowered, parsed_u64, same_text, to_ascii_lowercase, trim, trimmed,
};

verus! {

/// The tag of telemetry.
pub const TELEMETRY_TAG: [u8; 4] = [65, 86, 77, 84];

/// The tag of control.
pub const CONTROL_TAG: [u8; 4] = [65, 86, 77, 67];

/// The most bytes of a frame of a raw connection.
pub const RAW_MESH_MAX_FRAME_BYTES: usize = 16_777_216;

/// What a tagged payload holds.
#[derive(Clone, Copy, Debug, PartialEq, Eq, Structural)]
pub enum PayloadKind {
    Telemetry,
    Control,
    /// Nothing that concerns this node.
    Other,
}

/// What a payload with a tag holds.
pub open spec fn kind_of_tag(tag: Seq<u8>) -> PayloadKind {
    if tag == TELEMETRY_TAG@ {
        PayloadKind::Telemetry
    } else if tag == CONTROL_TAG@ {
        PayloadKind::Control
    } else {
        PayloadKind::Other
    }
}

fn same_tag(a: [u8; 4], b: [u8; 4]) -> (r: bool)
    ensures
        r == (a@ == b@),
{
    let same: bool = a[0] == b[0] && a[1] == b[1] && a[2] == b[2] && a[3] == b[3];
    proof {
        if same {
            assert(a@ =~= b@);
        }
    }
    same
}

/// What a payload with a tag holds.
pub fn payload_kind(tag: [u8; 4]) -> (r: PayloadKind)
    ensures
        r == kind_of_tag(tag@),
{
    if same_tag(tag, TELEMETRY_TAG) {
        PayloadKind::Telemetry
    } else if same_tag(tag, CONTROL_TAG) {
        PayloadKind::Control
    } else {
        PayloadKind::Other
    }
}

/// The words of the error of `std::str::from_utf8` about bytes that are no text.
pub uninterp spec fn utf8_error(bytes: Seq<u8>) -> Seq<char>;

/// Reads bytes as text by `std::str::from_utf8`: the text where the bytes are valid UTF-8, the
/// error in words where they are not.
#[verifier::external_body]
fn read_utf8(bytes: &[u8]) -> (r: Result<String, String>)
    ensures
        match r {
            Ok(text) => valid_utf8(bytes@) && text@ == decode_utf8(bytes@),
            Err(error) => !valid_utf8(bytes@) && error@ == utf8_error(bytes@),
        },
{
    std::str::from_utf8(bytes).map(|text| text.to_owned()).map_err(|error| error.to_string())
}

/// A request to the mesh as text.
#[derive(Debug)]
pub enum RequestText {
    /// The word for a snapshot.
    Snapshot,
    /// A request in JSON, or what should be one.
    Json(String),
}

/// Whether a text is the word for a snapshot, in whatever case, among white space.
pub open spec fn asks_for_snapshot(text: Seq<char>) -> bool {
    lowered(trimmed(text)) == "snapshot"@
}

/// Reads a request to the mesh as text; bytes that are none are an error.
pub fn parse_mesh_protocol_request(bytes: &[u8]) -> (r: Result<RequestText, String>)
    ensures
        match r {
            Ok(RequestText::Snapshot) => valid_utf8(bytes@) && asks_for_snapshot(
                decode_utf8(bytes@),
            ),
            Ok(RequestText::Json(text)) => valid_utf8(bytes@) && text@ == decode_utf8(bytes@)
                && !asks_for_snapshot(text@),
            Err(error) => !valid_utf8(bytes@) && error@ == utf8_error(bytes@),
        },
{
    match read_utf8(bytes) {
        Ok(text) => {
            let word = to_ascii_lowercase(trim(text.as_str()).as_str());
            if same_text(word.as_str(), "snapshot") {
                Ok(RequestText::Snapshot)
            } else {
                Ok(RequestText::Json(text))
            }
        },
        Err(error) => Err(error),
    }
}

/// A request to the mesh.
#[derive(Debug)]
pub enum MeshProtocolRequest {
    Snapshot,
    ProvisionNode { node_id: Option<String>, region: Option<String> },
    CloseNode { node_id: Option<String>, region: Option<String> },
    WarmStream { stream_id: Option<u64>, region: Option<String> },
}

/// The command that a request to the mesh stands for; none where it asks for a snapshot.
pub open spec fn command_of(request: MeshProtocolRequest) -> Option<
    (ControlKind, ControlRequest),
> {
    match request {
        MeshProtocolRequest::Snapshot => None,
        MeshProtocolRequest::ProvisionNode { node_id, region } => Some(
            (ControlKind::ProvisionNode, ControlRequest { node_id, region, stream_id: None }),
        ),
        MeshProtocolRequest::CloseNode { node_id, region } => Some(
            (ControlKind::CloseNode, ControlRequest { node_id, region, stream_id: None }),
        ),
        MeshProtocolRequest::WarmStream { stream_id, region } => Some(
            (ControlKind::WarmStream, ControlRequest { node_id: None, region, stream_id }),
        ),
    }
}

/// The command that a request to the mesh stands for; none where it asks for a snapshot.
pub fn handle_mesh_protocol_request(request: MeshProtocolRequest) -> (r: Option<
    (ControlKind, ControlRequest),
>)
    ensures
        r == command_of(request),
{
    match request {
        MeshProtocolRequest::Snapshot => None,
        MeshProtocolRequest::ProvisionNode { node_id, region } => Some(
            (ControlKind::ProvisionNode, ControlRequest { node_id, region, stream_id: None }),
        ),
        MeshProtocolRequest::CloseNode { node_id, region } => Some(
            (ControlKind::CloseNode, ControlRequest { node_id, region, stream_id: None }),
        ),
        MeshProtocolRequest::WarmStream { stream_id, region } => Some(
            (ControlKind::WarmStream, ControlRequest { node_id: None, region, stream_id }),
        ),
    }
}

/// The command in the body of a request, where there is no body to read: one to every node.
pub fn read_control_request(body: &[u8]) -> (r: Option<ControlRequest>)
    ensures
        r == if body@.len() == 0 {
            Some(ControlRequest { node_id: None, region: None, stream_id: None })
        } else {
            None
        },
{
    if body.len() == 0 {
        Some(ControlRequest { node_id: None, region: None, stream_id: None })
    } else {
        None
    }
}

/// A value in JSON, as far as the number of a stream rests on it.
#[derive(Debug)]
pub enum JsonValue {
    Null,
    Number { unsigned: Option<u64> },
    Text(String),
    Other,
}

/// The words of the error of `str::parse` about a text that is no unsigned number of 64 bits.
pub uninterp spec fn number_error(text: Seq<char>) -> Seq<char>;

/// Reads a number by `str::parse`: the number where the text is digits behind an optional plus
/// sign and it fits in 64 bits, else the error in words.
#[verifier::external_body]
fn read_number(text: &str) -> (r: Result<u64, String>)
    ensures
        match r {
            Ok(number) => parsed_u64(text@) == Some(number),
            Err(error) => parsed_u64(text@) is None && error@ == number_error(text@),
        },
{
    text.parse::<u64>().map_err(|error| error.to_string())
}

/// The message about a text that is not the number of a stream, with what is wrong with it.
pub open spec fn invalid_stream_id(text: Seq<char>, error: Seq<char>) -> Seq<char> {
    "invalid stream_id `"@ + text + "`: "@ + error
}

/// The message about a text that is not the number of a stream, with what is wrong with it.
pub fn stream_id_given(text: &str, number: Result<u64, String>) -> (r: Result<Option<u64>, String>)
    ensures
        match number {
            Ok(number) => r == Ok::<Option<u64>, String>(Some(number)),
            Err(error) => r is Err && r->Err_0@ == invalid_stream_id(text@, error@),
        },
{
    match number {
        Ok(number) => Ok(Some(number)),
        Err(error) => {
            let mut message = "invalid stream_id `".to_owned();
            message.append(text);
            message.append("`: ");
            message.append(error.as_str());
            Err(message)
        },
    }
}

/// The number of a stream out of a value in JSON: a number, the decimal text of one, or none.
pub fn deserialize_optional_u64_from_any(value: &JsonValue) -> (r: Result<Option<u64>, String>)
    ensures
        match *value {
            JsonValue::Null => r == Ok::<Option<u64>, String>(None),
            JsonValue::Number { unsigned: Some(number) } => r == Ok::<Option<u64>, String>(
                Some(number),
            ),
            JsonValue::Number { unsigned: None } => r is Err && r->Err_0@
                == "stream_id must be an unsigned 64-bit integer"@,
            JsonValue::Text(text) => match parsed_u64(text@) {
                Some(number) => r == Ok::<Option<u64>, String>(Some(number)),
                None => r is Err && r->Err_0@ == invalid_stream_id(text@, number_error(text@)),
            },
            JsonValue::Other => r is Err && r->Err_0@
                == "stream_id must be an unsigned integer or decimal string"@,
        },
{
    match value {
        JsonValue::Null => Ok(None),
        JsonValue::Number { unsigned } => match unsigned {
            Some(number) => Ok(Some(*number)),
            None => Err("stream_id must be an unsigned 64-bit integer".to_owned()),
        },
        JsonValue::Text(text) => stream_id_given(text.as_str(), read_number(text.as_str())),
        JsonValue::Other => Err(
            "stream_id must be an unsigned integer or decimal string".to_owned(),
        ),
    }
}

/// An answer to a request to the mesh.
#[derive(Debug)]
pub struct MeshProtocolResponse {
    pub ok: bool,
    pub response_type: &'static str,
    pub snapshot: Option<MeshApiSnapshot>,
    pub command: Option<ControlCommand>,
    pub media_access_unit: Option<MediaAccessUnitResponse>,
    pub error: Option<String>,
}

impl MeshProtocolResponse {
    /// Whether this says that a request failed, and how.
    pub open spec fn fails(self, message: Seq<char>) -> bool {
        &&& !self.ok
        &&& self.response_type@ == "error"@
        &&& self.snapshot is None
        &&& self.command is None
        &&& self.media_access_unit is None
        &&& self.error is Some && (self.error->0)@ == message
    }

    /// The answer that holds a snapshot.
    pub fn snapshot(snapshot: MeshApiSnapshot) -> (r: Self)
        ensures
            r.ok,
            r.response_type@ == "snapshot"@,
            r.snapshot == Some(snapshot),
            r.command is None,
            r.media_access_unit is None,
            r.error is None,
    {
        MeshProtocolResponse {
            ok: true,
            response_type: "snapshot",
            snapshot: Some(snapshot),
            command: None,
            media_access_unit: None,
            error: None,
        }
    }

    /// The answer that holds a command.
    pub fn command(command: ControlCommand) -> (r: Self)
        ensures
            r.ok,
            r.response_type@ == "command"@,
            r.snapshot is None,
            r.command == Some(command),
            r.media_access_unit is None,
            r.error is None,
    {
        MeshProtocolResponse {
            ok: true,
            response_type: "command",
            snapshot: None,
            command: Some(command),
            media_access_unit: None,
            error: None,
        }
    }

    /// The answer about an access unit.
    pub fn media_access_unit(unit: MediaAccessUnitResponse) -> (r: Self)
        ensures
            r.ok,
            r.response_type@ == "media_access_unit"@,
            r.snapshot is None,
            r.command is None,
            r.media_access_unit == Some(unit),
            r.error is None,
    {
        MeshProtocolResponse {
            ok: true,
            response_type: "media_access_unit",
            snapshot: None,
            command: None,
            media_access_unit: Some(unit),
            error: None,
        }
    }

    /// The answer to a request that failed.
    pub fn error(error: String) -> (r: Self)
        ensures
            r.fails(error@),
    {
        MeshProtocolResponse {
            ok: false,
            response_type: "error",
            snapshot: None,
            command: None,
            media_access_unit: None,
            error: Some(error),
        }
    }
}

/// An event of the stream of events, around a snapshot in JSON.
pub open spec fn sse_event(json: Seq<u8>) -> Seq<u8> {
    ascii_bytes("event: mesh\ndata: "@) + json + ascii_bytes("\n\n"@)
}

/// An event of the stream of events, around a snapshot in JSON.
pub fn mesh_sse_event(json: &[u8]) -> (r: Vec<u8>)
    ensures
        r@ == sse_event(json@),
{
    let mut event = bytes_of("event: mesh\ndata: ");
    extend_bytes(&mut event, json);
    let end = bytes_of("\n\n");
    extend_bytes(&mut event, end.as_slice());
    event
}

/// What becomes of a datagram of a web transport session.
#[derive(Debug)]
pub enum SessionStep {
    /// From now on the session gets the audio of one session, or of all.
    Subscribe { session_id: Option<u64> },
    /// An access unit is whole and goes into the cache.
    Store { frame: MediaFrame },
    /// Nothing yet.
    Wait,
    /// An answer goes back.
    Refuse { reply: MeshProtocolResponse },
}

/// What a decoder yields for a datagram.
pub open spec fn decoded(decoder: WebTransportMediaDecoder, datagram: Seq<u8>) -> Result<
    Option<FrameModel>,
    Seq<char>,
> {
    if datagram.len() == 8 {
        Ok(None)
    } else if is_prefixed(datagram) {
        let stream = be_value(datagram.take(8)) as u64;
        prefixed_result(stream, frame_after(decoder.prefixed(stream), datagram.skip(8)))
    } else {
        frame_after(decoder.bare(), datagram)
    }
}

/// What becomes of a datagram that a decoder was given.
pub fn settle_frame(frame: Result<Option<MediaFrame>, String>) -> (r: SessionStep)
    ensures
        match frame {
            Ok(Some(frame)) => r == (SessionStep::Store { frame }),
            Ok(None) => r == SessionStep::Wait,
            Err(error) => match r {
                SessionStep::Refuse { reply } => reply.fails(
                    "WebTransport media datagram decode failed: "@ + error@,
                ),
                _ => false,
            },
        },
{
    match frame {
        Ok(Some(frame)) => SessionStep::Store { frame },
        Ok(None) => SessionStep::Wait,
        Err(error) => {
            let mut message = "WebTransport media datagram decode failed: ".to_owned();
            message.append(error.as_str());
            SessionStep::Refuse { reply: MeshProtocolResponse::error(message) }
        },
    }
}

/// Takes a datagram of a web transport session.
pub fn take_session_datagram(decoder: &mut WebTransportMediaDecoder, datagram: &[u8]) -> (r:
    SessionStep)
    ensures
        match audio_epoch_subscription(datagram@) {
            Some(session_id) => {
                &&& r == (SessionStep::Subscribe { session_id })
                &&& *final(decoder) == *old(decoder)
            },
            None => match decoded(*old(decoder), datagram@) {
                Ok(Some(model)) => match r {
                    SessionStep::Store { frame } => frame@ == model,
                    _ => false,
                },
                Ok(None) => r == SessionStep::Wait,
                Err(error) => match r {
                    SessionStep::Refuse { reply } => reply.fails(
                        "WebTransport media datagram decode failed: "@ + error,
                    ),
                    _ => false,
                },
            },
        },
        audio_epoch_subscription(datagram@) is None ==> {
            let prefixed = datagram@.len() != 8 && is_prefixed(datagram@);
            let stream = be_value(datagram@.take(8)) as u64;
            &&& final(decoder).bare() == if datagram@.len() == 8 || prefixed {
                old(decoder).bare()
            } else {
                old(decoder).bare().push(datagram@)
            }
            &&& forall|id: u64| #[trigger]
                final(decoder).prefixed(id) == if prefixed && id == stream {
                    old(decoder).prefixed(id).push(datagram@.skip(8))
                } else {
                    old(decoder).prefixed(id)
                }
        },
{
    if let Some(session_id) = parse_audio_epoch_subscription(datagram) {
        return SessionStep::Subscribe { session_id };
    }
    settle_frame(decoder.push_datagram(datagram))
}

/// Whether a subscription wants an audio datagram: it is for all, or for the datagram's
/// session.
pub fn wants_audio(requested: Option<u64>, session_id: Option<u64>) -> (r: bool)
    ensures
        r == (requested is None || session_id == requested),
{
    match requested {
        Some(wanted) => match session_id {
            Some(session) => session == wanted,
            None => false,
        },
        None => true,
    }
}

/// Payloads are told apart by their tags.
pub proof fn payloads_are_told_by_their_tags(tag: Seq<u8>)
    ensures
        kind_of_tag(tag) == PayloadKind::Telemetry <==> tag == ascii_bytes("AVMT"@),
        kind_of_tag(tag) == PayloadKind::Control <==> tag == ascii_bytes("AVMC"@),
{
    reveal_strlit("AVMT");
    reveal_strlit("AVMC");
    assert(TELEMETRY_TAG@ =~= ascii_bytes("AVMT"@));
    assert(CONTROL_TAG@ =~= ascii_bytes("AVMC"@));
    assert(TELEMETRY_TAG@[3] != CONTROL_TAG@[3]);
}

/// A request stands for the command of its own kind, about the node, region or stream that it
/// names; one for a snapshot stands for none.
pub proof fn requests_stand_for_their_command(
    node_id: Option<String>,
    region: Option<String>,
    stream_id: Option<u64>,
)
    ensures
        command_of(MeshProtocolRequest::Snapshot) is None,
        match command_of(MeshProtocolRequest::ProvisionNode { node_id, region }) {
            Some((kind, request)) => kind is ProvisionNode && request.node_id == node_id
                && request.region == region && request.stream_id is None,
            None => false,
        },
        match command_of(MeshProtocolRequest::CloseNode { node_id, region }) {
            Some((kind, request)) => kind is CloseNode && request.node_id == node_id
                && request.region == region && request.stream_id is None,
            None => false,
        },
        match command_of(MeshProtocolRequest::WarmStream { stream_id, region }) {
            Some((kind, request)) => kind is WarmStream && request.node_id is None && request.region
                == region && request.stream_id == stream_id,
            None => false,
        },
{
}

/// A snapshot is asked for by that word, whatever its case and whatever white space stands around
/// it.
pub proof fn snapshots_are_asked_for_by_name(text: Seq<char>)
    ensures
        asks_for_snapshot(text) <==> trimmed(text).len() == 8 && says(trimmed(text), "snapshot"@),
{
    reveal_strlit("snapshot");
    let words = trimmed(text);
    if asks_for_snapshot(text) {
        assert forall|j: int| 0 <= j < 8 implies is_letter(
            words[0 + j],
            #[trigger] "snapshot"@[j],
        ) by {
            assert(lowered(words)[j] == lower_char(words[j]));
        }
        assert(says_at(words, "snapshot"@, 0));
    }
    if words.len() == 8 && says(words, "snapshot"@) {
        let k = choose|k: int|
            0 <= k <= words.len() - "snapshot"@.len() && #[trigger] says_at(
                words,
                "snapshot"@,
                k,
            );
        assert forall|j: int| 0 <= j < 8 implies lowered(words)[j] == #[trigger] "snapshot"@[j] by {
            assert(is_letter(words[k + j], "snapshot"@[j]));
        }
        assert(lowered(words) =~= "snapshot"@);
    }
}

/// An event carries its text between the words that open it and the empty line that ends it.
pub proof fn events_carry_their_text(json: Seq<u8>)
    ensures
        ({
            let event = sse_event(json);
            &&& event.len() == 18 + json.len() + 2
            &&& event.take(18) == ascii_bytes("event: mesh\ndata: "@)
            &&& event.subrange(18, 18int + json.len()) == json
            &&& event.skip(18int + json.len()) == ascii_bytes("\n\n"@)
        }),
{
    reveal_strlit("event: mesh\ndata: ");
    reveal_strlit("\n\n");
    let event = sse_event(json);
    assert(event.take(18) =~= ascii_bytes("event: mesh\ndata: "@));
    assert(event.subrange(18, 18int + json.len()) =~= json);
    assert(event.skip(18int + json.len()) =~= ascii_bytes("\n\n"@));
}

} // verus!
