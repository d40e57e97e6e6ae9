//! Live media slots: what the payload of a cache slot holds.

use vstd::prelude::*;
use crate::bytes::{
    ascii_bytes, be_bytes, be_reads_back, be_value, byte_capacity, byte_range, bytes_of,
    copy_bytes, has_byte_prefix, read_be_u32, same_bytes, starts_with_bytes,
};
use crate::text::{decimal, decimal_text, same_text};

verus! {

pub const LIVE_FMP4_CONTENT_TYPE: &'static str = "video/mp4";

pub const LIVE_TS_CONTENT_TYPE: &'static str = "video/mp2t";

pub const MESH_FMP4_SLOT_MAGIC: &'static str = "AVFMP4S1";

pub const MESH_FMP4_SLOT_HEADER_LEN: usize = 16;

/// The first four bytes of a canonical media-object envelope.
pub const WIRE_MAGIC: &'static str = "MOBJ";

/// The container of a live part.
#[derive(Clone, Copy, Debug, PartialEq, Eq, Structural)]
pub enum LiveMediaKind {
    Fmp4,
    Ts,
}

impl LiveMediaKind {
    /// The file extension of a part, as text.
    pub open spec fn extension_text(self) -> Seq<char> {
        match self {
            LiveMediaKind::Fmp4 => "mp4"@,
            LiveMediaKind::Ts => "ts"@,
        }
    }

    /// The content type of a part, as text.
    pub open spec fn content_type_text(self) -> Seq<char> {
        match self {
            LiveMediaKind::Fmp4 => LIVE_FMP4_CONTENT_TYPE@,
            LiveMediaKind::Ts => LIVE_TS_CONTENT_TYPE@,
        }
    }

    /// The file extension of a part.
    pub fn extension(self) -> (r: &'static str)
        ensures
            r@ == self.extension_text(),
    {
        match self {
            LiveMediaKind::Fmp4 => "mp4",
            LiveMediaKind::Ts => "ts",
        }
    }

    /// The content type of a part.
    pub fn content_type(self) -> (r: &'static str)
        ensures
            r@ == self.content_type_text(),
    {
        match self {
            LiveMediaKind::Fmp4 => LIVE_FMP4_CONTENT_TYPE,
            LiveMediaKind::Ts => LIVE_TS_CONTENT_TYPE,
        }
    }
}

/// The role of a canonical object's payload.
#[derive(Clone, Copy, Debug, PartialEq, Eq, Structural)]
pub enum ObjectKind {
    Media,
    Initialization,
    CodecConfiguration,
    Discontinuity,
}

/// A decoded canonical object, as far as the mesh reads it.
#[derive(Debug)]
pub struct CanonicalObject {
    pub stream: String,
    pub epoch: u64,
    pub object: u64,
    pub kind: ObjectKind,
    pub metadata: Vec<(String, Vec<u8>)>,
    pub payload: Vec<u8>,
}

/// What a decoded canonical object says.
#[verifier::ext_equal]
pub struct CanonicalModel {
    pub stream: Seq<char>,
    pub epoch: u64,
    pub object: u64,
    pub kind: ObjectKind,
    pub metadata: Seq<(Seq<char>, Seq<u8>)>,
    pub payload: Seq<u8>,
}

/// The entries of a metadata list.
pub open spec fn metadata_view(list: Seq<(String, Vec<u8>)>) -> Seq<(Seq<char>, Seq<u8>)> {
    list.map_values(|entry: (String, Vec<u8>)| (entry.0@, entry.1@))
}

impl View for CanonicalObject {
    type V = CanonicalModel;

    open spec fn view(&self) -> CanonicalModel {
        CanonicalModel {
            stream: self.stream@,
            epoch: self.epoch,
            object: self.object,
            kind: self.kind,
            metadata: metadata_view(self.metadata@),
            payload: self.payload@,
        }
    }
}

/// What `media_object::decode` makes of an envelope: nothing where it refuses the bytes.
pub uninterp spec fn decoded_media_object(envelope: Seq<u8>) -> Option<CanonicalModel>;

/// Calls `media_object::decode`, which reads a canonical envelope or refuses it, by the bytes
/// alone. The object's stream, epoch, object number, kind, metadata entries and payload are
/// copied out as they stand.
#[verifier::external_body]
fn decode_media_object(envelope: &[u8]) -> (r: Option<CanonicalObject>)
    ensures
        match r {
            Some(object) => decoded_media_object(envelope@) == Some(object@),
            None => decoded_media_object(envelope@) is None,
        },
{
    let object = media_object::decode(envelope).ok()?;
    Some(CanonicalObject {
        stream: object.key().stream().to_string(),
        epoch: object.key().epoch(),
        object: object.key().object(),
        kind: match object.kind() {
            media_object::ObjectKind::Media => ObjectKind::Media,
            media_object::ObjectKind::Initialization => ObjectKind::Initialization,
            media_object::ObjectKind::CodecConfiguration => ObjectKind::CodecConfiguration,
            media_object::ObjectKind::Discontinuity => ObjectKind::Discontinuity,
        },
        metadata: object.metadata().iter().map(|(k, v)| (k.clone(), v.clone())).collect(),
        payload: object.payload().to_vec(),
    })
}

/// A canonical envelope that could not be read.
#[derive(Clone, Copy, Debug, PartialEq, Eq, Structural)]
pub struct InvalidEnvelope;

/// Whether a payload claims to be a canonical envelope.
pub open spec fn claims_canonical(payload: Seq<u8>) -> bool {
    has_byte_prefix(payload, ascii_bytes(WIRE_MAGIC@))
}

/// The canonical object of a payload: nothing where the payload does not claim to be one, an
/// error where it claims so and cannot be read.
pub fn decode_canonical_stream_object(payload: &[u8]) -> (r: Result<
    Option<CanonicalObject>,
    InvalidEnvelope,
>)
    ensures
        match r {
            Ok(None) => !claims_canonical(payload@),
            Ok(Some(object)) => claims_canonical(payload@) && decoded_media_object(payload@)
                == Some(object@),
            Err(_) => claims_canonical(payload@) && decoded_media_object(payload@) is None,
        },
{
    let magic = bytes_of(WIRE_MAGIC);
    if !starts_with_bytes(payload, magic.as_slice()) {
        return Ok(None);
    }
    match decode_media_object(payload) {
        Some(object) => Ok(Some(object)),
        None => Err(InvalidEnvelope),
    }
}

/// What a slot holds: an initialization and media of the fragmented container, bytes of the
/// older container, or nothing usable.
#[derive(Debug)]
pub enum LiveSlotPayload {
    Fmp4 { init: Option<Vec<u8>>, media: Vec<u8> },
    Opaque(Vec<u8>),
    Invalid,
}

/// The content of a slot.
#[verifier::ext_equal]
pub enum SlotModel {
    Fmp4 { init: Option<Seq<u8>>, media: Seq<u8> },
    Opaque(Seq<u8>),
    Invalid,
}

impl View for LiveSlotPayload {
    type V = SlotModel;

    open spec fn view(&self) -> SlotModel {
        match self {
            LiveSlotPayload::Fmp4 { init, media } => SlotModel::Fmp4 {
                init: match init {
                    Some(bytes) => Some(bytes@),
                    None => None,
                },
                media: media@,
            },
            LiveSlotPayload::Opaque(bytes) => SlotModel::Opaque(bytes@),
            LiveSlotPayload::Invalid => SlotModel::Invalid,
        }
    }
}

/// The value of the first metadata entry with a key.
pub open spec fn metadata_value(
    metadata: Seq<(Seq<char>, Seq<u8>)>,
    key: Seq<char>,
) -> Option<Seq<u8>>
    decreases metadata.len(),
{
    if metadata.len() == 0 {
        None
    } else if metadata[0].0 == key {
        Some(metadata[0].1)
    } else {
        metadata_value(metadata.skip(1), key)
    }
}

/// The slot in a bundle of an initialization and media: eight marker bytes, the two lengths
/// in four bytes each, the two parts and nothing more.
pub open spec fn fmp4_slot(payload: Seq<u8>) -> Option<SlotModel> {
    if payload.len() < 16 || !has_byte_prefix(payload, ascii_bytes(MESH_FMP4_SLOT_MAGIC@)) {
        None
    } else {
        let init_len = be_value(payload.subrange(8, 12));
        let media_len = be_value(payload.subrange(12, 16));
        if 16 + init_len + media_len != payload.len() {
            None
        } else {
            Some(
                SlotModel::Fmp4 {
                    init: if init_len > 0 {
                        Some(payload.subrange(16, (16 + init_len) as int))
                    } else {
                        None
                    },
                    media: payload.subrange((16 + init_len) as int, payload.len() as int),
                },
            )
        }
    }
}

/// Whether an object names the fragmented container.
pub open spec fn is_fmp4_object(object: CanonicalModel) -> bool {
    metadata_value(object.metadata, "container"@) == Some(ascii_bytes("fmp4"@))
}

/// The slot that a canonical object stands for.
pub open spec fn object_slot(object: CanonicalModel, expected_stream: Option<u64>) -> SlotModel {
    let fmp4 = is_fmp4_object(object);
    let bundled = metadata_value(object.metadata, "payload-format"@) == Some(
        ascii_bytes("fmp4-slot-v1"@),
    );
    if expected_stream is Some && object.stream != decimal(expected_stream->0 as nat) {
        SlotModel::Invalid
    } else {
        match object.kind {
            ObjectKind::Media => if fmp4 && bundled {
                match fmp4_slot(object.payload) {
                    Some(slot) => slot,
                    None => SlotModel::Invalid,
                }
            } else if fmp4 {
                SlotModel::Fmp4 { init: None, media: object.payload }
            } else {
                SlotModel::Opaque(object.payload)
            },
            ObjectKind::Initialization | ObjectKind::CodecConfiguration => if fmp4 {
                SlotModel::Fmp4 { init: Some(object.payload), media: Seq::empty() }
            } else {
                SlotModel::Invalid
            },
            ObjectKind::Discontinuity => SlotModel::Invalid,
        }
    }
}

/// The slot that a payload stands for, where `object` is what its envelope decodes to.
pub open spec fn slot_given(
    payload: Seq<u8>,
    object: Option<CanonicalModel>,
    expected_stream: Option<u64>,
) -> SlotModel {
    if claims_canonical(payload) {
        match object {
            Some(object) => object_slot(object, expected_stream),
            None => SlotModel::Invalid,
        }
    } else {
        match fmp4_slot(payload) {
            Some(slot) => slot,
            None => SlotModel::Opaque(payload),
        }
    }
}

/// The slot that a payload stands for.
pub open spec fn slot_of(payload: Seq<u8>, expected_stream: Option<u64>) -> SlotModel {
    slot_given(payload, decoded_media_object(payload), expected_stream)
}

fn metadata_is(metadata: &Vec<(String, Vec<u8>)>, key: &str, value: &str) -> (r: bool)
    ensures
        r == (metadata_value(metadata_view(metadata@), key@) == Some(ascii_bytes(value@))),
{
    let ghost model = metadata_view(metadata@);
    let expected = bytes_of(value);
    let mut i: usize = 0;
    proof {
        assert(model.skip(0) =~= model);
    }
    while i < metadata.len()
        invariant
            i <= metadata.len(),
            model == metadata_view(metadata@),
            expected@ == ascii_bytes(value@),
            metadata_value(model, key@) == metadata_value(model.skip(i as int), key@),
        decreases metadata.len() - i,
    {
        proof {
            assert(model.skip(i as int)[0] == (metadata@[i as int].0@, metadata@[i as int].1@));
            assert(model.skip(i as int).skip(1) =~= model.skip(i + 1));
        }
        if same_text(metadata[i].0.as_str(), key) {
            return same_bytes(metadata[i].1.as_slice(), expected.as_slice());
        }
        i = i + 1;
    }
    false
}

impl CanonicalObject {
    /// Whether the object names the fragmented container.
    pub fn is_fmp4(&self) -> (r: bool)
        ensures
            r == is_fmp4_object(self@),
    {
        metadata_is(&self.metadata, "container", "fmp4")
    }
}

impl LiveSlotPayload {
    /// The slot that a payload stands for, whatever its stream.
    pub fn decode(payload: &[u8]) -> (r: Self)
        ensures
            r@ == slot_of(payload@, None),
    {
        LiveSlotPayload::decode_inner(payload, None)
    }

    /// The slot that a payload of a stream stands for.
    pub fn decode_for_stream(payload: &[u8], stream_id: u64) -> (r: Self)
        ensures
            r@ == slot_of(payload@, Some(stream_id)),
    {
        LiveSlotPayload::decode_inner(payload, Some(stream_id))
    }

    /// The slot that a payload stands for; an object of another stream than the expected one
    /// is of no use.
    pub fn decode_inner(payload: &[u8], expected_stream_id: Option<u64>) -> (r: Self)
        ensures
            r@ == slot_of(payload@, expected_stream_id),
    {
        match decode_canonical_stream_object(payload) {
            Ok(Some(object)) => LiveSlotPayload::from_object(&object, expected_stream_id),
            Err(_) => LiveSlotPayload::Invalid,
            Ok(None) => match LiveSlotPayload::decode_fmp4_slot(payload) {
                Some(slot) => slot,
                None => LiveSlotPayload::Opaque(copy_bytes(payload)),
            },
        }
    }

    /// The slot that a canonical object stands for.
    pub fn from_object(object: &CanonicalObject, expected_stream_id: Option<u64>) -> (r: Self)
        ensures
            r@ == object_slot(object@, expected_stream_id),
    {
        match expected_stream_id {
            Some(stream_id) => {
                let text = decimal_text(stream_id);
                if !same_text(object.stream.as_str(), text.as_str()) {
                    return LiveSlotPayload::Invalid;
                }
            },
            None => {},
        }
        let fmp4 = object.is_fmp4();
        let bundled = metadata_is(&object.metadata, "payload-format", "fmp4-slot-v1");
        match object.kind {
            ObjectKind::Media => if fmp4 && bundled {
                match LiveSlotPayload::decode_fmp4_slot(object.payload.as_slice()) {
                    Some(slot) => slot,
                    None => LiveSlotPayload::Invalid,
                }
            } else if fmp4 {
                LiveSlotPayload::Fmp4 { init: None, media: copy_bytes(object.payload.as_slice()) }
            } else {
                LiveSlotPayload::Opaque(copy_bytes(object.payload.as_slice()))
            },
            ObjectKind::Initialization | ObjectKind::CodecConfiguration => if fmp4 {
                let media: Vec<u8> = Vec::new();
                let init = copy_bytes(object.payload.as_slice());
                proof {
                    assert(media@ =~= Seq::<u8>::empty());
                }
                LiveSlotPayload::Fmp4 { init: Some(init), media }
            } else {
                LiveSlotPayload::Invalid
            },
            ObjectKind::Discontinuity => LiveSlotPayload::Invalid,
        }
    }

    /// The slot in a bundle of an initialization and media.
    pub fn decode_fmp4_slot(payload: &[u8]) -> (r: Option<Self>)
        ensures
            match r {
                Some(slot) => fmp4_slot(payload@) == Some(slot@),
                None => fmp4_slot(payload@) is None,
            },
    {
        let magic = bytes_of(MESH_FMP4_SLOT_MAGIC);
        if payload.len() < MESH_FMP4_SLOT_HEADER_LEN || !starts_with_bytes(
            payload,
            magic.as_slice(),
        ) {
            return None;
        }
        let init_len: usize = read_be_u32(payload, 8) as usize;
        let media_len: usize = read_be_u32(payload, 12) as usize;
        let init_end: usize = match MESH_FMP4_SLOT_HEADER_LEN.checked_add(init_len) {
            Some(end) => end,
            None => {
                return None;
            },
        };
        let media_end: usize = match init_end.checked_add(media_len) {
            Some(end) => end,
            None => {
                return None;
            },
        };
        if media_end != payload.len() {
            return None;
        }
        let init = if init_len > 0 {
            Some(byte_range(payload, MESH_FMP4_SLOT_HEADER_LEN, init_end))
        } else {
            None
        };
        let media = byte_range(payload, init_end, media_end);
        Some(LiveSlotPayload::Fmp4 { init, media })
    }

    /// The container of the slot's media.
    pub fn media_kind(&self) -> (r: LiveMediaKind)
        ensures
            r == slot_media_kind(self@),
    {
        match self {
            LiveSlotPayload::Fmp4 { .. } => LiveMediaKind::Fmp4,
            LiveSlotPayload::Opaque(_) => LiveMediaKind::Ts,
            LiveSlotPayload::Invalid => LiveMediaKind::Ts,
        }
    }

    /// The slot's initialization.
    pub fn init(&self) -> (r: Option<Vec<u8>>)
        ensures
            match r {
                Some(bytes) => slot_init(self@) == Some(bytes@),
                None => slot_init(self@) is None,
            },
    {
        match self {
            LiveSlotPayload::Fmp4 { init, .. } => match init {
                Some(bytes) => Some(copy_bytes(bytes.as_slice())),
                None => None,
            },
            LiveSlotPayload::Opaque(_) => None,
            LiveSlotPayload::Invalid => None,
        }
    }

    /// The slot's media, empty where it has none.
    pub fn media(&self) -> (r: Vec<u8>)
        ensures
            r@ == slot_media(self@),
    {
        match self {
            LiveSlotPayload::Fmp4 { media, .. } => copy_bytes(media.as_slice()),
            LiveSlotPayload::Opaque(bytes) => copy_bytes(bytes.as_slice()),
            LiveSlotPayload::Invalid => {
                let none: Vec<u8> = Vec::new();
                proof {
                    assert(none@ =~= Seq::<u8>::empty());
                }
                none
            },
        }
    }

    /// Whether the slot has media.
    pub fn has_media(&self) -> (r: bool)
        ensures
            r == (slot_media(self@).len() > 0),
    {
        match self {
            LiveSlotPayload::Fmp4 { media, .. } => media.len() > 0,
            LiveSlotPayload::Opaque(bytes) => bytes.len() > 0,
            LiveSlotPayload::Invalid => false,
        }
    }
}

/// The container of a slot's media.
pub open spec fn slot_media_kind(slot: SlotModel) -> LiveMediaKind {
    match slot {
        SlotModel::Fmp4 { .. } => LiveMediaKind::Fmp4,
        _ => LiveMediaKind::Ts,
    }
}

/// The initialization of a slot.
pub open spec fn slot_init(slot: SlotModel) -> Option<Seq<u8>> {
    match slot {
        SlotModel::Fmp4 { init, .. } => init,
        _ => None,
    }
}

/// The media of a slot, empty where it has none.
pub open spec fn slot_media(slot: SlotModel) -> Seq<u8> {
    match slot {
        SlotModel::Fmp4 { media, .. } => media,
        SlotModel::Opaque(bytes) => bytes,
        SlotModel::Invalid => Seq::empty(),
    }
}

/// The bundle of an initialization and media.
pub open spec fn fmp4_bundle(init: Seq<u8>, media: Seq<u8>) -> Seq<u8> {
    ascii_bytes(MESH_FMP4_SLOT_MAGIC@) + be_bytes(init.len(), 4) + be_bytes(media.len(), 4) + init
        + media
}

/// A bundle gives back the initialization and the media that went into it, and an empty
/// initialization comes back as none.
pub proof fn bundle_reads_back(init: Seq<u8>, media: Seq<u8>)
    requires
        init.len() <= u32::MAX,
        media.len() <= u32::MAX,
    ensures
        fmp4_slot(fmp4_bundle(init, media)) == Some(
            SlotModel::Fmp4 {
                init: if init.len() > 0 {
                    Some(init)
                } else {
                    None
                },
                media,
            },
        ),
        slot_of(fmp4_bundle(init, media), None) == fmp4_slot(fmp4_bundle(init, media))->0,
{
    reveal_strlit("AVFMP4S1");
    reveal_strlit("MOBJ");
    let magic = ascii_bytes(MESH_FMP4_SLOT_MAGIC@);
    let payload = fmp4_bundle(init, media);
    assert(magic.len() == 8);
    assert(byte_capacity(4) == 4294967296) by {
        reveal_with_fuel(byte_capacity, 5);
    }
    be_reads_back(init.len(), 4);
    be_reads_back(media.len(), 4);
    assert(payload.take(8) =~= magic);
    assert(payload.subrange(8, 12) =~= be_bytes(init.len(), 4));
    assert(payload.subrange(12, 16) =~= be_bytes(media.len(), 4));
    assert(payload.subrange(16, (16 + init.len()) as int) =~= init);
    assert(payload.subrange((16 + init.len()) as int, payload.len() as int) =~= media);
    let wire = ascii_bytes(WIRE_MAGIC@);
    assert(wire.len() == 4 && wire[0] == 'M' as u8);
    assert(payload[0] == magic[0] && magic[0] == 'A' as u8);
    if has_byte_prefix(payload, wire) {
        assert(payload.take(4)[0] == wire[0]);
    }
}

/// The value of a key is the first that is given for it.
pub proof fn the_first_value_of_a_key_counts(
    metadata: Seq<(Seq<char>, Seq<u8>)>,
    key: Seq<char>,
)
    ensures
        match metadata_value(metadata, key) {
            Some(value) => exists|i: int|
                0 <= i < metadata.len() && (#[trigger] metadata[i]).0 == key && metadata[i].1
                    == value && forall|j: int| 0 <= j < i ==> (#[trigger] metadata[j]).0 != key,
            None => forall|j: int| 0 <= j < metadata.len() ==> (#[trigger] metadata[j]).0 != key,
        },
    decreases metadata.len(),
{
    if metadata.len() > 0 {
        if metadata[0].0 == key {
            assert(metadata_value(metadata, key) == Some(metadata[0].1));
        } else {
            let rest = metadata.skip(1);
            the_first_value_of_a_key_counts(rest, key);
            assert forall|j: int| 0 < j < metadata.len() implies rest[j - 1]
                == #[trigger] metadata[j] by {}
            match metadata_value(rest, key) {
                Some(value) => {
                    let i = choose|i: int|
                        0 <= i < rest.len() && (#[trigger] rest[i]).0 == key && rest[i].1 == value
                            && forall|j: int| 0 <= j < i ==> (#[trigger] rest[j]).0 != key;
                    assert(metadata[i + 1] == rest[i]);
                    assert forall|j: int| 0 <= j < i + 1 implies (#[trigger] metadata[j]).0
                        != key by {
                        if j > 0 {
                            assert(rest[j - 1] == metadata[j]);
                        }
                    }
                },
                None => {
                    assert forall|j: int| 0 <= j < metadata.len() implies (
                    #[trigger] metadata[j]).0 != key by {
                        if j > 0 {
                            assert(rest[j - 1] == metadata[j]);
                        }
                    }
                },
            }
        }
    }
}

/// Bytes are read as a bundle only where all of them are accounted for: the mark, the two sizes,
/// and as many bytes of initialization and of media as the sizes say, in this order.
pub proof fn bundles_account_for_all_bytes(payload: Seq<u8>)
    ensures
        match fmp4_slot(payload) {
            Some(SlotModel::Fmp4 { init, media }) => {
                let first = if init is Some {
                    init->0
                } else {
                    Seq::<u8>::empty()
                };
                &&& payload.len() == 16 + first.len() + media.len()
                &&& payload.take(8) == ascii_bytes("AVFMP4S1"@)
                &&& be_value(payload.subrange(8, 12)) == first.len()
                &&& be_value(payload.subrange(12, 16)) == media.len()
                &&& payload.skip(16) == first + media
                &&& init is Some ==> first.len() > 0
            },
            Some(_) => false,
            None => payload.len() < 16 || payload.take(8) != ascii_bytes("AVFMP4S1"@) || payload.len()
                != 16 + be_value(payload.subrange(8, 12)) + be_value(payload.subrange(12, 16)),
        },
{
    reveal_strlit("AVFMP4S1");
    match fmp4_slot(payload) {
        Some(SlotModel::Fmp4 { init, media }) => {
            let first = if init is Some {
                init->0
            } else {
                Seq::<u8>::empty()
            };
            assert(payload.skip(16) =~= first + media);
        },
        _ => {},
    }
}

/// An object of another stream than expected gives nothing. Media give their payload, and an
/// initialization gives itself and no media; both are of the kind that the object names.
pub proof fn objects_give_their_payload(object: CanonicalModel, expected_stream: Option<u64>)
    ensures
        ({
            let slot = object_slot(object, expected_stream);
            let fmp4 = metadata_value(object.metadata, "container"@) == Some(
                ascii_bytes("fmp4"@),
            );
            let bundled = metadata_value(object.metadata, "payload-format"@) == Some(
                ascii_bytes("fmp4-slot-v1"@),
            );
            let elsewhere = expected_stream is Some && object.stream != decimal(
                expected_stream->0 as nat,
            );
            &&& elsewhere ==> slot is Invalid
            &&& !elsewhere && object.kind is Media && !(fmp4 && bundled) ==> slot_media(slot)
                == object.payload && slot_init(slot) is None && (slot_media_kind(slot)
                == LiveMediaKind::Fmp4 <==> fmp4)
            &&& !elsewhere && object.kind is Media && fmp4 && bundled && fmp4_slot(object.payload)
                is Some ==> slot == fmp4_slot(object.payload)->0
            &&& !elsewhere && object.kind is Media && fmp4 && bundled && fmp4_slot(object.payload)
                is None ==> slot is Invalid
            &&& !elsewhere && fmp4 && (object.kind is Initialization || object.kind
                is CodecConfiguration) ==> slot_init(slot) == Some(object.payload) && slot_media(
                slot,
            ).len() == 0
            &&& !fmp4 && (object.kind is Initialization || object.kind is CodecConfiguration)
                ==> slot is Invalid
            &&& object.kind is Discontinuity ==> slot is Invalid
        }),
{
}

/// Bytes that neither claim to be an object nor are a bundle are media as they stand.
pub proof fn other_bytes_are_media(payload: Seq<u8>, expected_stream: Option<u64>)
    requires
        !claims_canonical(payload),
        fmp4_slot(payload) is None,
    ensures
        slot_media(slot_of(payload, expected_stream)) == payload,
        slot_init(slot_of(payload, expected_stream)) is None,
        slot_media_kind(slot_of(payload, expected_stream)) == LiveMediaKind::Ts,
{
}

} // verus!
