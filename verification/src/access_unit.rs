//! Media access units: their stored form, and the decoding of the datagrams that carry them.

use std::collections::HashMap;
use vstd::prelude::*;
use vstd::string::*;
use crate::bytes::{
    ascii_bytes, be_value, byte_range, bytes_of, extend_bytes, has_byte_prefix, read_be_u64,
    starts_with_bytes,
};
use crate::text::{decimal, decimal_text};

verus! {

/// The size of the header before a stored access unit.
pub const MEDIA_FRAME_HEADER_LEN: usize = 44;

/// The size of the stream number before a prefixed datagram.
pub const STREAM_ID_PREFIX_LEN: usize = 8;

/// The first four bytes of a coded datagram.
pub const DATAGRAM_MAGIC: &'static str = "RQD2";

/// The codec of an access unit.
#[derive(Clone, Copy, Debug, PartialEq, Eq, Structural)]
pub enum MediaCodec {
    Unknown,
    H264,
    Opus,
    Aac,
    Data,
}

/// The name of a codec, as text.
pub open spec fn codec_text(codec: MediaCodec) -> Seq<char> {
    match codec {
        MediaCodec::Unknown => "unknown"@,
        MediaCodec::H264 => "h264"@,
        MediaCodec::Opus => "opus"@,
        MediaCodec::Aac => "aac"@,
        MediaCodec::Data => "data"@,
    }
}

/// The name of a codec.
pub fn codec_name(codec: MediaCodec) -> (r: &'static str)
    ensures
        r@ == codec_text(codec),
{
    match codec {
        MediaCodec::Unknown => "unknown",
        MediaCodec::H264 => "h264",
        MediaCodec::Opus => "opus",
        MediaCodec::Aac => "aac",
        MediaCodec::Data => "data",
    }
}

/// What an access unit says of itself.
#[derive(Clone, Copy, Debug, PartialEq, Eq, Structural)]
pub struct FrameMetadata {
    pub stream_id: u64,
    pub sequence: u64,
    pub pts_ms: u64,
    pub dts_ms: Option<u64>,
    pub duration_ms: u32,
    pub codec: MediaCodec,
    pub flags: u16,
}

/// The header of a fragment of an access unit.
#[derive(Clone, Copy, Debug, PartialEq, Eq, Structural)]
pub struct FragmentHeader {
    pub metadata: FrameMetadata,
    pub fragment_index: u16,
    pub fragment_count: u16,
    pub access_unit_len: u32,
    pub fragment_offset: u32,
}

/// Whether an access unit's metadata fits in the header: one byte of flags, two bytes of
/// duration, and a decoding time within a signed two-byte distance of the presentation time,
/// whose lowest value stands for none.
pub open spec fn header_fits(metadata: FrameMetadata) -> bool {
    &&& metadata.flags <= 255
    &&& metadata.duration_ms <= 65535
    &&& match metadata.dts_ms {
        Some(dts) => -32767 <= dts - metadata.pts_ms <= 32767,
        None => true,
    }
}

/// What `MediaFragmentHeader::decode` of `raptorq_datagram_fec` makes of a header's bytes:
/// nothing where it refuses them.
pub uninterp spec fn fragment_header_of(bytes: Seq<u8>) -> Option<FragmentHeader>;

/// What `MediaFragmentHeader::encode` of `raptorq_datagram_fec` writes for a header: nothing
/// where it refuses to.
pub uninterp spec fn fragment_header_bytes(header: FragmentHeader) -> Option<Seq<u8>>;

/// Calls `MediaFragmentHeader::decode` of `raptorq_datagram_fec`, which reads the fields of a
/// header from its first 44 bytes.
#[verifier::external_body]
fn decode_fragment_header(bytes: &[u8]) -> (r: Option<FragmentHeader>)
    ensures
        r == fragment_header_of(bytes@),
{
    let header = raptorq_datagram_fec::MediaFragmentHeader::decode(bytes).ok()?;
    let metadata = FrameMetadata {
        stream_id: header.metadata.stream_id, sequence: header.metadata.sequence,
        pts_ms: header.metadata.pts_ms, dts_ms: header.metadata.dts_ms,
        duration_ms: header.metadata.duration_ms, flags: header.metadata.flags.bits(),
        codec: match header.metadata.codec {
            raptorq_datagram_fec::MediaCodec::Unknown => MediaCodec::Unknown,
            raptorq_datagram_fec::MediaCodec::H264 => MediaCodec::H264,
            raptorq_datagram_fec::MediaCodec::Opus => MediaCodec::Opus,
            raptorq_datagram_fec::MediaCodec::Aac => MediaCodec::Aac,
            raptorq_datagram_fec::MediaCodec::Data => MediaCodec::Data,
        },
    };
    Some(FragmentHeader { metadata, fragment_index: header.fragment_index, fragment_count: header.fragment_count, access_unit_len: header.access_unit_len, fragment_offset: header.fragment_offset })
}

/// Calls `MediaFragmentHeader::encode` of `raptorq_datagram_fec` on a buffer of 44 bytes. It
/// succeeds for the metadata that fits, and what it writes is read back as the same header.
#[verifier::external_body]
fn encode_fragment_header(header: &FragmentHeader) -> (r: Option<Vec<u8>>)
    ensures
        r is Some <==> header_fits(header.metadata),
        match r {
            Some(bytes) => {
                &&& fragment_header_bytes(*header) == Some(bytes@)
                &&& bytes@.len() == 44
                &&& fragment_header_of(bytes@) == Some(*header)
            },
            None => fragment_header_bytes(*header) is None,
        },
{
    let m = header.metadata;
    let codec = match m.codec {
        MediaCodec::Unknown => raptorq_datagram_fec::MediaCodec::Unknown,
        MediaCodec::H264 => raptorq_datagram_fec::MediaCodec::H264,
        MediaCodec::Opus => raptorq_datagram_fec::MediaCodec::Opus,
        MediaCodec::Aac => raptorq_datagram_fec::MediaCodec::Aac,
        MediaCodec::Data => raptorq_datagram_fec::MediaCodec::Data,
    };
    let flags = raptorq_datagram_fec::MediaFrameFlags::new(m.flags);
    let metadata = raptorq_datagram_fec::MediaFrameMetadata { stream_id: m.stream_id, sequence: m.sequence, pts_ms: m.pts_ms, dts_ms: m.dts_ms, duration_ms: m.duration_ms, codec, flags };
    let wire = raptorq_datagram_fec::MediaFragmentHeader { metadata, fragment_index: header.fragment_index, fragment_count: header.fragment_count, access_unit_len: header.access_unit_len, fragment_offset: header.fragment_offset };
    let mut bytes = vec![0u8; 44];
    wire.encode(&mut bytes).ok()?;
    Some(bytes)
}

/// The header of an access unit that stands whole behind it.
pub open spec fn whole_header(metadata: FrameMetadata, payload_len: nat) -> FragmentHeader {
    FragmentHeader {
        metadata,
        fragment_index: 0,
        fragment_count: 1,
        access_unit_len: payload_len as u32,
        fragment_offset: 0,
    }
}

/// Why an access unit cannot be stored.
#[derive(Clone, Copy, Debug, PartialEq, Eq, Structural)]
pub enum AccessUnitError {
    SequenceTooLarge,
    TooLarge { bytes: usize },
    Header,
}

/// The stored form of an access unit: its header, then its payload.
pub fn serialize_access_unit(metadata: FrameMetadata, payload: &[u8]) -> (r: Result<
    Vec<u8>,
    AccessUnitError,
>)
    ensures
        match r {
            Ok(bytes) => {
                &&& metadata.sequence <= usize::MAX
                &&& payload@.len() <= u32::MAX
                &&& header_fits(metadata)
                &&& fragment_header_bytes(whole_header(metadata, payload@.len())) is Some
                &&& bytes@ == fragment_header_bytes(whole_header(metadata, payload@.len()))->0
                    + payload@
                &&& stored_unit(bytes@, metadata.stream_id, metadata.sequence) == Some(metadata)
            },
            Err(AccessUnitError::SequenceTooLarge) => metadata.sequence > usize::MAX,
            Err(AccessUnitError::TooLarge { bytes }) => metadata.sequence <= usize::MAX
                && payload@.len() > u32::MAX && bytes == payload@.len(),
            Err(AccessUnitError::Header) => metadata.sequence <= usize::MAX && payload@.len()
                <= u32::MAX && !header_fits(metadata),
        },
{
    if metadata.sequence > usize::MAX as u64 {
        return Err(AccessUnitError::SequenceTooLarge);
    }
    if payload.len() > u32::MAX as usize {
        return Err(AccessUnitError::TooLarge { bytes: payload.len() });
    }
    let header = FragmentHeader {
        metadata,
        fragment_index: 0,
        fragment_count: 1,
        access_unit_len: payload.len() as u32,
        fragment_offset: 0,
    };
    match encode_fragment_header(&header) {
        Some(bytes) => {
            let mut out = bytes;
            let ghost head = out@;
            extend_bytes(&mut out, payload);
            proof {
                assert(out@.take(44) =~= head);
            }
            Ok(out)
        },
        None => Err(AccessUnitError::Header),
    }
}

/// The access unit that a slot holds for a stream and a sequence.
pub open spec fn stored_unit(
    serialized: Seq<u8>,
    stream_id: u64,
    sequence: u64,
) -> Option<FrameMetadata> {
    if serialized.len() < 44 {
        None
    } else {
        unit_given(
            fragment_header_of(serialized.take(44)),
            (serialized.len() - 44) as nat,
            stream_id,
            sequence,
        )
    }
}

/// The access unit behind a header, where the header is whole, names the stream and the
/// sequence, and counts the bytes that follow it.
pub open spec fn unit_given(
    header: Option<FragmentHeader>,
    payload_len: nat,
    stream_id: u64,
    sequence: u64,
) -> Option<FrameMetadata> {
    match header {
        Some(header) => if header.metadata.stream_id == stream_id && header.metadata.sequence
            == sequence && header.fragment_index == 0 && header.fragment_count == 1
            && header.fragment_offset == 0 && header.access_unit_len == payload_len {
            Some(header.metadata)
        } else {
            None
        },
        None => None,
    }
}

/// The access unit behind a header that was read.
pub fn accept_unit(
    header: Option<FragmentHeader>,
    payload_len: usize,
    stream_id: u64,
    sequence: u64,
) -> (r: Option<FrameMetadata>)
    ensures
        r == unit_given(header, payload_len as nat, stream_id, sequence),
{
    match header {
        Some(header) => if header.metadata.stream_id != stream_id || header.metadata.sequence
            != sequence || header.fragment_index != 0 || header.fragment_count != 1
            || header.fragment_offset != 0 || header.access_unit_len as usize != payload_len {
            None
        } else {
            Some(header.metadata)
        },
        None => None,
    }
}

/// An access unit of the cache.
#[derive(Debug)]
pub struct CachedMediaAccessUnit {
    pub metadata: FrameMetadata,
    pub payload_bytes: usize,
    pub serialized: Vec<u8>,
    pub hash: u64,
}

/// Reads the access unit that a slot holds for a stream and a sequence.
pub fn read_access_unit(serialized: Vec<u8>, hash: u64, stream_id: u64, sequence: u64) -> (r: Option<
    CachedMediaAccessUnit,
>)
    ensures
        match r {
            Some(unit) => {
                &&& stored_unit(serialized@, stream_id, sequence) == Some(unit.metadata)
                &&& unit.payload_bytes == serialized@.len() - 44
                &&& unit.serialized == serialized
                &&& unit.hash == hash
            },
            None => stored_unit(serialized@, stream_id, sequence) is None,
        },
{
    if serialized.len() < MEDIA_FRAME_HEADER_LEN {
        return None;
    }
    let head = byte_range(serialized.as_slice(), 0, MEDIA_FRAME_HEADER_LEN);
    assert(head@ =~= serialized@.take(44));
    let header = decode_fragment_header(head.as_slice());
    let payload_bytes: usize = serialized.len() - MEDIA_FRAME_HEADER_LEN;
    match accept_unit(header, payload_bytes, stream_id, sequence) {
        Some(metadata) => Some(CachedMediaAccessUnit { metadata, payload_bytes, serialized, hash }),
        None => None,
    }
}

/// What a node answers about an access unit.
#[derive(Debug)]
pub struct MediaAccessUnitResponse {
    pub stream_id: u64,
    pub stream_id_text: String,
    pub sequence: u64,
    pub pts_ms: u64,
    pub dts_ms: Option<u64>,
    pub duration_ms: u32,
    pub codec: &'static str,
    pub flags: u16,
    pub payload_bytes: usize,
    pub stored_bytes: usize,
}

impl MediaAccessUnitResponse {
    /// The answer about an access unit of the cache.
    pub fn from_cached(unit: &CachedMediaAccessUnit) -> (r: Self)
        ensures
            r.stream_id == unit.metadata.stream_id,
            r.stream_id_text@ == decimal(unit.metadata.stream_id as nat),
            r.sequence == unit.metadata.sequence,
            r.pts_ms == unit.metadata.pts_ms,
            r.dts_ms == unit.metadata.dts_ms,
            r.duration_ms == unit.metadata.duration_ms,
            r.codec@ == codec_text(unit.metadata.codec),
            r.flags == unit.metadata.flags,
            r.payload_bytes == unit.payload_bytes,
            r.stored_bytes == unit.serialized@.len(),
    {
        MediaAccessUnitResponse {
            stream_id: unit.metadata.stream_id,
            stream_id_text: decimal_text(unit.metadata.stream_id),
            sequence: unit.metadata.sequence,
            pts_ms: unit.metadata.pts_ms,
            dts_ms: unit.metadata.dts_ms,
            duration_ms: unit.metadata.duration_ms,
            codec: codec_name(unit.metadata.codec),
            flags: unit.metadata.flags,
            payload_bytes: unit.payload_bytes,
            stored_bytes: unit.serialized.len(),
        }
    }
}

/// A whole access unit, out of a request or out of its datagrams.
#[derive(Debug)]
pub struct MediaFrame {
    pub metadata: FrameMetadata,
    pub payload: Vec<u8>,
}

/// A whole access unit.
#[verifier::ext_equal]
pub struct FrameModel {
    pub metadata: FrameMetadata,
    pub payload: Seq<u8>,
}

impl View for MediaFrame {
    type V = FrameModel;

    open spec fn view(&self) -> FrameModel {
        FrameModel { metadata: self.metadata, payload: self.payload@ }
    }
}

/// Whether bytes are no access unit at all, are one, or claim a size that they do not have.
pub open spec fn request_unit_given(header: Option<FragmentHeader>, bytes: Seq<u8>) -> Result<
    Option<FrameModel>,
    (u32, nat),
> {
    match header {
        Some(header) => if bytes.len() < 44 || header.fragment_index != 0
            || header.fragment_count != 1 || header.fragment_offset != 0 {
            Ok(None)
        } else if header.access_unit_len != bytes.len() - 44 {
            Err((header.access_unit_len, (bytes.len() - 44) as nat))
        } else {
            Ok(Some(FrameModel { metadata: header.metadata, payload: bytes.skip(44) }))
        },
        None => Ok(None),
    }
}

/// The access unit of a request, by the header at its front.
pub open spec fn request_unit(bytes: Seq<u8>) -> Result<Option<FrameModel>, (u32, nat)> {
    if bytes.len() < 44 {
        Ok(None)
    } else {
        request_unit_given(fragment_header_of(bytes.take(44)), bytes)
    }
}

/// The message about a size that does not match.
pub open spec fn length_mismatch(declared: u32, actual: nat) -> Seq<char> {
    "media access-unit payload length mismatch: header="@ + decimal(declared as nat) + ", body="@
        + decimal(actual)
}

/// Calls `decode_serialized_media_access_unit` of `raptorq_datagram_fec`. It takes bytes for no
/// access unit where they are shorter than a header, where the header is refused, and where
/// the header is not that of a whole unit; it fails with a message where the header counts
/// another number of bytes than follow it; else it returns the metadata and those bytes.
#[verifier::external_body]
fn decode_serialized_unit(bytes: &[u8]) -> (r: Result<Option<MediaFrame>, String>)
    ensures
        match (r, request_unit(bytes@)) {
            (Ok(None), Ok(None)) => true,
            (Ok(Some(frame)), Ok(Some(model))) => frame@ == model,
            (Err(text), Err((declared, actual))) => text@ == length_mismatch(declared, actual),
            _ => false,
        },
{
    let bytes = bytes::Bytes::copy_from_slice(bytes);
    let Some(unit) = raptorq_datagram_fec::decode_serialized_media_access_unit(bytes)? else { return Ok(None) };
    let m = unit.metadata;
    let codec = match m.codec {
        raptorq_datagram_fec::MediaCodec::Unknown => MediaCodec::Unknown,
        raptorq_datagram_fec::MediaCodec::H264 => MediaCodec::H264,
        raptorq_datagram_fec::MediaCodec::Opus => MediaCodec::Opus,
        raptorq_datagram_fec::MediaCodec::Aac => MediaCodec::Aac,
        raptorq_datagram_fec::MediaCodec::Data => MediaCodec::Data,
    };
    let metadata = FrameMetadata { stream_id: m.stream_id, sequence: m.sequence, pts_ms: m.pts_ms, dts_ms: m.dts_ms, duration_ms: m.duration_ms, codec, flags: m.flags.bits() };
    Ok(Some(MediaFrame { metadata, payload: unit.payload.to_vec() }))
}

/// What a binary request asks for.
#[derive(Debug)]
pub enum BinaryRequest {
    /// A snapshot of the mesh.
    Snapshot,
    /// The intake of an access unit.
    AccessUnit(MediaFrame),
    /// Whatever the bytes say as text.
    Protocol,
}

/// Sorts a binary request by its bytes: nothing asks for a snapshot, an access unit is taken
/// in, anything else is read as text.
pub fn classify_binary_request(bytes: &[u8]) -> (r: Result<BinaryRequest, String>)
    ensures
        bytes@.len() == 0 ==> r == Ok::<BinaryRequest, String>(BinaryRequest::Snapshot),
        bytes@.len() > 0 ==> match (r, request_unit(bytes@)) {
            (Ok(BinaryRequest::Protocol), Ok(None)) => true,
            (Ok(BinaryRequest::AccessUnit(frame)), Ok(Some(model))) => frame@ == model,
            (Err(text), Err((declared, actual))) => text@ == length_mismatch(declared, actual),
            _ => false,
        },
{
    if bytes.len() == 0 {
        return Ok(BinaryRequest::Snapshot);
    }
    match decode_serialized_unit(bytes) {
        Ok(Some(frame)) => Ok(BinaryRequest::AccessUnit(frame)),
        Ok(None) => Ok(BinaryRequest::Protocol),
        Err(text) => Err(text),
    }
}

/// A stored access unit, sent as a request, is taken for the same unit.
pub proof fn stored_unit_is_a_request(
    serialized: Seq<u8>,
    metadata: FrameMetadata,
    stream_id: u64,
    sequence: u64,
)
    requires
        stored_unit(serialized, stream_id, sequence) == Some(metadata),
    ensures
        request_unit(serialized) == Ok::<Option<FrameModel>, (u32, nat)>(
            Some(FrameModel { metadata, payload: serialized.skip(44) }),
        ),
{
}

/// The stateful decoder of coded media datagrams.
#[verifier::external_type_specification]
#[verifier::external_body]
pub struct ExMediaFecDecoder(raptorq_datagram_fec::MediaFecDecoder);

/// The datagrams that a decoder was given so far.
pub uninterp spec fn pushed(decoder: raptorq_datagram_fec::MediaFecDecoder) -> Seq<Seq<u8>>;

/// What `MediaFecDecoder::push_datagram` returns for a datagram after earlier ones: a
/// frame that is now whole, nothing yet, or a message.
pub uninterp spec fn frame_after(earlier: Seq<Seq<u8>>, datagram: Seq<u8>) -> Result<
    Option<FrameModel>,
    Seq<char>,
>;

/// Whether a decoder's answer is the one that a name stands for.
pub open spec fn is_frame_result(
    r: Result<Option<MediaFrame>, String>,
    model: Result<Option<FrameModel>, Seq<char>>,
) -> bool {
    match (r, model) {
        (Ok(None), Ok(None)) => true,
        (Ok(Some(frame)), Ok(Some(model))) => frame@ == model,
        (Err(text), Err(model)) => text@ == model,
        _ => false,
    }
}

/// Calls `MediaFecDecoder::new` of `raptorq_datagram_fec`: a decoder that was given nothing.
#[verifier::external_body]
fn new_media_decoder() -> (r: raptorq_datagram_fec::MediaFecDecoder)
    ensures
        pushed(r) == Seq::<Seq<u8>>::empty(),
{
    raptorq_datagram_fec::MediaFecDecoder::new()
}

/// Calls `MediaFecDecoder::push_datagram` of `raptorq_datagram_fec`. Its answer rests on the
/// datagrams given so far and the new one, which from then on counts among them.
#[verifier::external_body]
fn push_media_datagram(decoder: &mut raptorq_datagram_fec::MediaFecDecoder, datagram: &[u8]) -> (r:
    Result<Option<MediaFrame>, String>)
    ensures
        pushed(*final(decoder)) == pushed(*old(decoder)).push(datagram@),
        is_frame_result(r, frame_after(pushed(*old(decoder)), datagram@)),
{
    let Some(frame) = decoder.push_datagram(datagram).map_err(|error| error.to_string())? else { return Ok(None) };
    let m = frame.metadata;
    let codec = match m.codec {
        raptorq_datagram_fec::MediaCodec::Unknown => MediaCodec::Unknown,
        raptorq_datagram_fec::MediaCodec::H264 => MediaCodec::H264,
        raptorq_datagram_fec::MediaCodec::Opus => MediaCodec::Opus,
        raptorq_datagram_fec::MediaCodec::Aac => MediaCodec::Aac,
        raptorq_datagram_fec::MediaCodec::Data => MediaCodec::Data,
    };
    let metadata = FrameMetadata { stream_id: m.stream_id, sequence: m.sequence, pts_ms: m.pts_ms, dts_ms: m.dts_ms, duration_ms: m.duration_ms, codec, flags: m.flags.bits() };
    Ok(Some(MediaFrame { metadata, payload: frame.payload }))
}

/// Calls `push_media_datagram` of a `raptorq_fec_transport::FecDatagramDecoder` that expects a
/// stream's number before each datagram. It takes the number off a datagram that carries it,
/// gives the rest to the media decoder's `push_datagram`, and passes the answer on.
#[verifier::external_body]
fn push_prefixed_datagram(
    decoder: &mut raptorq_datagram_fec::MediaFecDecoder,
    stream_id: u64,
    datagram: &[u8],
) -> (r: Result<Option<MediaFrame>, String>)
    requires
        datagram@.len() >= 8,
        be_value(datagram@.take(8)) == stream_id,
    ensures
        pushed(*final(decoder)) == pushed(*old(decoder)).push(datagram@.skip(8)),
        is_frame_result(r, frame_after(pushed(*old(decoder)), datagram@.skip(8))),
{
    let transport = raptorq_fec_transport::FecDatagramDecoder::webtransport_with_stream_prefix(stream_id);
    let Some(frame) = transport.push_media_datagram(decoder, datagram).map_err(|error| error.to_string())? else { return Ok(None) };
    let m = frame.metadata;
    let codec = match m.codec {
        raptorq_datagram_fec::MediaCodec::Unknown => MediaCodec::Unknown,
        raptorq_datagram_fec::MediaCodec::H264 => MediaCodec::H264,
        raptorq_datagram_fec::MediaCodec::Opus => MediaCodec::Opus,
        raptorq_datagram_fec::MediaCodec::Aac => MediaCodec::Aac,
        raptorq_datagram_fec::MediaCodec::Data => MediaCodec::Data,
    };
    let metadata = FrameMetadata { stream_id: m.stream_id, sequence: m.sequence, pts_ms: m.pts_ms, dts_ms: m.dts_ms, duration_ms: m.duration_ms, codec, flags: m.flags.bits() };
    Ok(Some(MediaFrame { metadata, payload: frame.payload }))
}

/// The decoders of one session: one for bare datagrams, one for each prefixed stream.
pub struct WebTransportMediaDecoder {
    unprefixed: raptorq_datagram_fec::MediaFecDecoder,
    prefixed_by_stream: HashMap<u64, raptorq_datagram_fec::MediaFecDecoder>,
}

/// Whether a datagram carries a stream's number and a coded datagram behind it.
pub open spec fn is_prefixed(datagram: Seq<u8>) -> bool {
    datagram.len() >= 8 && has_byte_prefix(datagram.skip(8), ascii_bytes(DATAGRAM_MAGIC@))
}

/// The message about a frame of another stream than its prefix.
pub open spec fn prefix_mismatch(prefix: u64, stream_id: u64) -> Seq<char> {
    "WebTransport stream prefix "@ + decimal(prefix as nat) + " does not match media stream id "@
        + decimal(stream_id as nat)
}

/// A frame of a prefixed stream: a frame of another stream is refused.
pub open spec fn prefixed_result(
    prefix: u64,
    frame: Result<Option<FrameModel>, Seq<char>>,
) -> Result<Option<FrameModel>, Seq<char>> {
    match frame {
        Ok(Some(f)) => if f.metadata.stream_id != prefix {
            Err(prefix_mismatch(prefix, f.metadata.stream_id))
        } else {
            frame
        },
        _ => frame,
    }
}

/// Refuses a frame of another stream than its prefix.
pub fn check_prefixed_frame(prefix: u64, frame: Result<Option<MediaFrame>, String>) -> (r: Result<
    Option<MediaFrame>,
    String,
>)
    ensures
        if frame is Ok && frame->Ok_0 is Some && (frame->Ok_0->0).metadata.stream_id != prefix {
            r is Err && r->Err_0@ == prefix_mismatch(prefix, (frame->Ok_0->0).metadata.stream_id)
        } else {
            r == frame
        },
{
    match frame {
        Ok(Some(f)) => if f.metadata.stream_id != prefix {
            let mut text = "WebTransport stream prefix ".to_owned();
            text.append(decimal_text(prefix).as_str());
            text.append(" does not match media stream id ");
            text.append(decimal_text(f.metadata.stream_id).as_str());
            Err(text)
        } else {
            Ok(Some(f))
        },
        other => other,
    }
}

impl WebTransportMediaDecoder {
    /// The bare datagrams so far.
    pub closed spec fn bare(self) -> Seq<Seq<u8>> {
        pushed(self.unprefixed)
    }

    /// The datagrams of a prefixed stream so far, without their prefix.
    pub closed spec fn prefixed(self, stream_id: u64) -> Seq<Seq<u8>> {
        if self.prefixed_by_stream@.contains_key(stream_id) {
            pushed(self.prefixed_by_stream@[stream_id])
        } else {
            Seq::empty()
        }
    }

    /// Decoders that were given nothing.
    pub fn new() -> (r: Self)
        ensures
            r.bare() == Seq::<Seq<u8>>::empty(),
            forall|id: u64| #[trigger] r.prefixed(id) == Seq::<Seq<u8>>::empty(),
    {
        WebTransportMediaDecoder {
            unprefixed: new_media_decoder(),
            prefixed_by_stream: HashMap::new(),
        }
    }

    /// Takes one datagram. A bare stream number is a subscription and yields nothing; a coded
    /// datagram behind a stream's number goes to that stream's decoder, which is made on
    /// demand, and must yield frames of that stream; everything else goes to the bare decoder.
    pub fn push_datagram(&mut self, datagram: &[u8]) -> (r: Result<Option<MediaFrame>, String>)
        ensures
            if datagram@.len() == 8 {
                &&& r == Ok::<Option<MediaFrame>, String>(None)
                &&& final(self).bare() == old(self).bare()
                &&& forall|id: u64| #[trigger] final(self).prefixed(id) == old(self).prefixed(id)
            } else if is_prefixed(datagram@) {
                let stream = be_value(datagram@.take(8)) as u64;
                &&& is_frame_result(
                    r,
                    prefixed_result(
                        stream,
                        frame_after(old(self).prefixed(stream), datagram@.skip(8)),
                    ),
                )
                &&& final(self).bare() == old(self).bare()
                &&& final(self).prefixed(stream) == old(self).prefixed(stream).push(
                    datagram@.skip(8),
                )
                &&& forall|id: u64|
                    id != stream ==> #[trigger] final(self).prefixed(id) == old(self).prefixed(id)
            } else {
                &&& is_frame_result(r, frame_after(old(self).bare(), datagram@))
                &&& final(self).bare() == old(self).bare().push(datagram@)
                &&& forall|id: u64| #[trigger] final(self).prefixed(id) == old(self).prefixed(id)
            },
    {
        if datagram.len() == STREAM_ID_PREFIX_LEN {
            return Ok(None);
        }
        if datagram.len() >= STREAM_ID_PREFIX_LEN {
            let payload = byte_range(datagram, STREAM_ID_PREFIX_LEN, datagram.len());
            assert(payload@ =~= datagram@.skip(8));
            let magic = bytes_of(DATAGRAM_MAGIC);
            if starts_with_bytes(payload.as_slice(), magic.as_slice()) {
                let stream_id: u64 = read_be_u64(datagram);
                let mut decoder = match self.prefixed_by_stream.remove(&stream_id) {
                    Some(decoder) => decoder,
                    None => new_media_decoder(),
                };
                let frame = push_prefixed_datagram(&mut decoder, stream_id, datagram);
                self.prefixed_by_stream.insert(stream_id, decoder);
                return check_prefixed_frame(stream_id, frame);
            }
        }
        push_media_datagram(&mut self.unprefixed, datagram)
    }
}

/// The decoder of the media socket, which takes bare datagrams only.
pub struct MediaUnitDecoder {
    decoder: raptorq_datagram_fec::MediaFecDecoder,
}

impl MediaUnitDecoder {
    /// The datagrams so far.
    pub closed spec fn taken(self) -> Seq<Seq<u8>> {
        pushed(self.decoder)
    }

    /// A decoder that was given nothing.
    pub fn new() -> (r: Self)
        ensures
            r.taken() == Seq::<Seq<u8>>::empty(),
    {
        MediaUnitDecoder { decoder: new_media_decoder() }
    }

    /// Takes one datagram.
    pub fn push_datagram(&mut self, datagram: &[u8]) -> (r: Result<Option<MediaFrame>, String>)
        ensures
            final(self).taken() == old(self).taken().push(datagram@),
            is_frame_result(r, frame_after(old(self).taken(), datagram@)),
    {
        push_media_datagram(&mut self.decoder, datagram)
    }
}

/// A stored unit is read where its header is that of a whole unit of the stream and sequence asked
/// for, with as many bytes as follow it, and as that header tells it.
pub proof fn only_the_unit_asked_for_is_read(
    header: FragmentHeader,
    payload_len: nat,
    stream_id: u64,
    sequence: u64,
)
    ensures
        unit_given(None, payload_len, stream_id, sequence) is None,
        unit_given(Some(header), payload_len, stream_id, sequence) is Some ==> {
            &&& unit_given(Some(header), payload_len, stream_id, sequence) == Some(header.metadata)
            &&& header.metadata.stream_id == stream_id
            &&& header.metadata.sequence == sequence
            &&& header.fragment_count == 1 && header.fragment_index == 0
            &&& header.fragment_offset == 0 && header.access_unit_len == payload_len
        },
        payload_len <= u32::MAX ==> unit_given(
            Some(whole_header(header.metadata, payload_len)),
            payload_len,
            header.metadata.stream_id,
            header.metadata.sequence,
        ) == Some(header.metadata),
{
}

/// The unit of a request is what stands behind a header of its size; a header of a whole unit and
/// of another size is an error that tells both sizes.
pub proof fn requests_hold_what_their_header_says(header: FragmentHeader, bytes: Seq<u8>)
    requires
        bytes.len() >= 44,
        header.fragment_index == 0,
        header.fragment_count == 1,
        header.fragment_offset == 0,
    ensures
        match request_unit_given(Some(header), bytes) {
            Ok(Some(frame)) => frame.metadata == header.metadata && frame.payload.len()
                == header.access_unit_len && bytes.take(44) + frame.payload == bytes,
            Ok(None) => false,
            Err((declared, actual)) => declared == header.access_unit_len && actual + 44
                == bytes.len() && declared != actual,
        },
        request_unit_given(None, bytes) == Ok::<Option<FrameModel>, (u32, nat)>(None),
{
    assert(bytes.take(44) + bytes.skip(44) =~= bytes);
}

/// A frame of a prefixed stream is taken only where it is of that stream; what is no frame stays as
/// it is.
pub proof fn prefixed_frames_are_of_their_stream(
    prefix: u64,
    frame: Result<Option<FrameModel>, Seq<char>>,
)
    ensures
        match prefixed_result(prefix, frame) {
            Ok(Some(f)) => frame == Ok::<Option<FrameModel>, Seq<char>>(Some(f))
                && f.metadata.stream_id == prefix,
            Ok(None) => frame == Ok::<Option<FrameModel>, Seq<char>>(None),
            Err(_) => frame is Err || (frame->Ok_0 is Some && (frame->Ok_0->0).metadata.stream_id
                != prefix),
        },
{
}

/// A datagram is taken as prefixed where its mark stands behind the eight bytes of a stream's number,
/// and not where it stands at its front.
pub proof fn prefixes_stand_before_the_mark(number: Seq<u8>, rest: Seq<u8>, datagram: Seq<u8>)
    requires
        number.len() == 8,
    ensures
        is_prefixed(number + (ascii_bytes("RQD2"@) + rest)),
        is_prefixed(datagram) ==> datagram.len() >= 12 && datagram.subrange(8, 12) == ascii_bytes(
            "RQD2"@,
        ),
        datagram.len() < 12 ==> !is_prefixed(datagram),
{
    reveal_strlit("RQD2");
    let mark = ascii_bytes("RQD2"@);
    let whole = number + (mark + rest);
    assert(whole.skip(8) =~= mark + rest);
    assert((mark + rest).take(4) =~= mark);
    if is_prefixed(datagram) {
        assert(datagram.skip(8).take(4) =~= datagram.subrange(8, 12));
    }
}

/// A header holds what fits its fields: flags of one byte, a duration of two, and a time of decoding
/// close to that of presentation.
pub proof fn headers_hold_what_fits(metadata: FrameMetadata)
    ensures
        header_fits(metadata) <==> metadata.flags <= 255 && metadata.duration_ms <= 65535 && (
        metadata.dts_ms is Some ==> metadata.pts_ms <= metadata.dts_ms->0 + 32767
            && metadata.dts_ms->0 <= metadata.pts_ms + 32767),
{
}

} // verus!
