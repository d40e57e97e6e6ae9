//! Low-latency playlists, and the parts and segments that they name.

use vstd::prelude::*;
use vstd::string::*;
use crate::bytes::extend_bytes;
use crate::live_state::{LiveState, StreamModel};
use crate::media::{
    slot_init, slot_media, slot_media_kind, slot_of, LiveMediaKind, LiveSlotPayload,
};
use crate::text::{decimal, decimal_text};

verus! {

/// How long a request waits for a part, in milliseconds.
pub const PART_WAIT_MS: u64 = 3_000;

/// How long a tail request waits for a part, in milliseconds.
pub const LLHLS_TAIL_WAIT_MS: u64 = 250;

/// What a request for a part that may still be on its way does next.
#[derive(Clone, Copy, Debug, PartialEq, Eq, Structural)]
pub enum WaitStep {
    /// Answer with what was found.
    Return,
    /// Answer that there is nothing.
    GiveUp,
    /// Wait for news, at most so many milliseconds, and look again.
    Wait { ms: u64 },
}

/// What a request does that looked for a part and may wait for it until a deadline.
pub open spec fn step_while_waiting(deadline_ms: u64, now_ms: u64, found: bool) -> WaitStep {
    if found {
        WaitStep::Return
    } else if now_ms < deadline_ms {
        WaitStep::Wait { ms: (deadline_ms - now_ms) as u64 }
    } else {
        WaitStep::GiveUp
    }
}

/// What a request does that looked for a part and may wait for it until a deadline.
pub fn wait_step(deadline_ms: u64, now_ms: u64, found: bool) -> (r: WaitStep)
    ensures
        r == (if found {
            WaitStep::Return
        } else if now_ms >= deadline_ms {
            WaitStep::GiveUp
        } else {
            WaitStep::Wait { ms: (deadline_ms - now_ms) as u64 }
        }),
        r == step_while_waiting(deadline_ms, now_ms, found),
{
    if found {
        WaitStep::Return
    } else if now_ms >= deadline_ms {
        WaitStep::GiveUp
    } else {
        WaitStep::Wait { ms: deadline_ms - now_ms }
    }
}

/// The durations of a playlist, as they are printed.
#[derive(Debug)]
pub struct PlaylistTimings {
    pub target_duration: u64,
    pub part_target: String,
    pub part_hold_back: String,
    pub hold_back: String,
    pub segment_duration: String,
}

/// The lines of a playlist before its parts.
pub open spec fn playlist_head(
    timings: PlaylistTimings,
    media_sequence: nat,
    include_map: bool,
) -> Seq<char> {
    "#EXTM3U\n#EXT-X-VERSION:9\n#EXT-X-TARGETDURATION:"@ + decimal(
        timings.target_duration as nat,
    ) + "\n#EXT-X-MEDIA-SEQUENCE:"@ + decimal(media_sequence) + "\n"@ + (if include_map {
        "#EXT-X-MAP:URI=\"init.mp4\"\n"@
    } else {
        Seq::empty()
    }) + "#EXT-X-PART-INF:PART-TARGET="@ + timings.part_target@
        + "\n#EXT-X-SERVER-CONTROL:CAN-BLOCK-RELOAD=YES,PART-HOLD-BACK="@
        + timings.part_hold_back@ + ",HOLD-BACK="@ + timings.hold_back@ + "\n"@
}

/// The line that names the next part.
pub open spec fn preload_hint(next_part: nat, kind: LiveMediaKind) -> Seq<char> {
    "#EXT-X-PRELOAD-HINT:TYPE=PART,URI=\"part"@ + decimal(next_part) + "."@
        + kind.extension_text() + "\"\n"@
}

/// The line of a part.
pub open spec fn part_line(
    timings: PlaylistTimings,
    sequence: u64,
    kind: LiveMediaKind,
) -> Seq<char> {
    "#EXT-X-PART:DURATION="@ + timings.part_target@ + ",URI=\"part"@ + decimal(sequence as nat)
        + "."@ + kind.extension_text() + "\"\n"@
}

/// The lines of a segment whose parts are all there.
pub open spec fn segment_lines(
    timings: PlaylistTimings,
    segment: u64,
    kind: LiveMediaKind,
) -> Seq<char> {
    "#EXTINF:"@ + timings.segment_duration@ + ",\nseg"@ + decimal(segment as nat) + "."@
        + kind.extension_text() + "\n"@
}

/// The number of parts of a segment in a list.
pub open spec fn segment_size(parts: Seq<u64>, per_segment: u64, segment: u64) -> nat
    decreases parts.len(),
{
    if parts.len() == 0 {
        0
    } else {
        segment_size(parts.drop_last(), per_segment, segment) + if parts.last() / per_segment
            == segment {
            1nat
        } else {
            0nat
        }
    }
}

/// The lines of the first `k` parts of a list; a segment is named behind its last part where
/// all of its parts are there.
pub open spec fn part_lines(
    timings: PlaylistTimings,
    parts: Seq<u64>,
    k: int,
    per_segment: u64,
    kind: LiveMediaKind,
) -> Seq<char>
    decreases k,
{
    if k <= 0 {
        Seq::empty()
    } else {
        let sequence = parts[k - 1];
        let segment = (sequence / per_segment) as u64;
        let closes = k == parts.len() || parts[k] / per_segment != segment;
        part_lines(timings, parts, k - 1, per_segment, kind) + part_line(timings, sequence, kind)
            + (if closes && segment_size(parts.take(k), per_segment, segment) == per_segment {
            segment_lines(timings, segment, kind)
        } else {
            Seq::empty()
        })
    }
}

/// The playlist of the parts of a stream.
pub open spec fn playlist_text(
    timings: PlaylistTimings,
    parts: Seq<u64>,
    per_segment: u64,
    kind: LiveMediaKind,
    has_init: bool,
) -> Seq<char> {
    playlist_head(
        timings,
        (parts[0] / per_segment) as nat,
        kind == LiveMediaKind::Fmp4 && has_init,
    ) + part_lines(timings, parts, parts.len() as int, per_segment, kind) + preload_hint(
        (parts.last() + 1) as nat,
        kind,
    )
}

fn push_head(timings: &PlaylistTimings, media_sequence: u64, include_map: bool) -> (r: String)
    ensures
        r@ == playlist_head(*timings, media_sequence as nat, include_map),
{
    let mut out = "#EXTM3U\n#EXT-X-VERSION:9\n#EXT-X-TARGETDURATION:".to_owned();
    out.append(decimal_text(timings.target_duration).as_str());
    out.append("\n#EXT-X-MEDIA-SEQUENCE:");
    out.append(decimal_text(media_sequence).as_str());
    out.append("\n");
    let ghost before = out@;
    if include_map {
        out.append("#EXT-X-MAP:URI=\"init.mp4\"\n");
    }
    proof {
        if !include_map {
            assert(before + Seq::<char>::empty() =~= before);
        }
    }
    out.append("#EXT-X-PART-INF:PART-TARGET=");
    out.append(timings.part_target.as_str());
    out.append("\n#EXT-X-SERVER-CONTROL:CAN-BLOCK-RELOAD=YES,PART-HOLD-BACK=");
    out.append(timings.part_hold_back.as_str());
    out.append(",HOLD-BACK=");
    out.append(timings.hold_back.as_str());
    out.append("\n");
    out
}

fn push_hint(out: &mut String, next_part: u64, kind: LiveMediaKind)
    ensures
        final(out)@ == old(out)@ + preload_hint(next_part as nat, kind),
{
    let ghost before = out@;
    out.append("#EXT-X-PRELOAD-HINT:TYPE=PART,URI=\"part");
    out.append(decimal_text(next_part).as_str());
    out.append(".");
    out.append(kind.extension());
    out.append("\"\n");
    proof {
        assert(out@ =~= before + preload_hint(next_part as nat, kind));
    }
}

fn push_part(out: &mut String, timings: &PlaylistTimings, sequence: u64, kind: LiveMediaKind)
    ensures
        final(out)@ == old(out)@ + part_line(*timings, sequence, kind),
{
    let ghost before = out@;
    out.append("#EXT-X-PART:DURATION=");
    out.append(timings.part_target.as_str());
    out.append(",URI=\"part");
    out.append(decimal_text(sequence).as_str());
    out.append(".");
    out.append(kind.extension());
    out.append("\"\n");
    proof {
        assert(out@ =~= before + part_line(*timings, sequence, kind));
    }
}

fn push_segment(out: &mut String, timings: &PlaylistTimings, segment: u64, kind: LiveMediaKind)
    ensures
        final(out)@ == old(out)@ + segment_lines(*timings, segment, kind),
{
    let ghost before = out@;
    out.append("#EXTINF:");
    out.append(timings.segment_duration.as_str());
    out.append(",\nseg");
    out.append(decimal_text(segment).as_str());
    out.append(".");
    out.append(kind.extension());
    out.append("\n");
    proof {
        assert(out@ =~= before + segment_lines(*timings, segment, kind));
    }
}

/// The playlist of a stream without parts.
pub fn empty_playlist(
    timings: &PlaylistTimings,
    next_part: usize,
    media_kind: LiveMediaKind,
    include_map: bool,
) -> (r: String)
    ensures
        r@ == playlist_head(*timings, 0, include_map) + preload_hint(next_part as nat, media_kind),
{
    let mut out = push_head(timings, 0, include_map);
    push_hint(&mut out, next_part as u64, media_kind);
    out
}

proof fn lemma_other_segment(parts: Seq<u64>, per_segment: u64, segment: u64)
    requires
        forall|i: int| 0 <= i < parts.len() ==> #[trigger] parts[i] / per_segment != segment,
    ensures
        segment_size(parts, per_segment, segment) == 0,
    decreases parts.len(),
{
    if parts.len() > 0 {
        let front = parts.drop_last();
        assert forall|i: int| 0 <= i < front.len() implies #[trigger] front[i] / per_segment
            != segment by {
            assert(parts[i] / per_segment != segment);
        }
        assert(parts[parts.len() - 1] / per_segment != segment);
        lemma_other_segment(front, per_segment, segment);
    }
}

proof fn lemma_next_segment(parts: Seq<u64>, i: int, per_segment: u64)
    requires
        per_segment > 0,
        0 <= i,
        i + 1 < parts.len(),
        forall|a: int, b: int| 0 <= a < b < parts.len() ==> #[trigger] parts[a] < #[trigger] parts[b],
        parts[i + 1] / per_segment != parts[i] / per_segment,
    ensures
        segment_size(parts.take(i + 1), per_segment, (parts[i + 1] / per_segment) as u64) == 0,
{
    let next = (parts[i + 1] / per_segment) as u64;
    let here = (parts[i] / per_segment) as u64;
    let taken = parts.take(i + 1);
    assert(parts[i] < parts[i + 1]);
    vstd::arithmetic::div_mod::lemma_div_is_ordered(
        parts[i] as int,
        parts[i + 1] as int,
        per_segment as int,
    );
    assert forall|k: int| 0 <= k < taken.len() implies #[trigger] taken[k] / per_segment != next by {
        if k < i {
            assert(parts[k] < parts[i]);
        }
        vstd::arithmetic::div_mod::lemma_div_is_ordered(
            taken[k] as int,
            parts[i] as int,
            per_segment as int,
        );
    }
    lemma_other_segment(taken, per_segment, next);
}

/// The playlist of the parts of a stream, which are listed in ascending order.
pub fn render_playlist(
    timings: &PlaylistTimings,
    parts: &Vec<u64>,
    parts_per_segment: usize,
    media_kind: LiveMediaKind,
    has_init: bool,
) -> (r: String)
    requires
        parts_per_segment > 0,
        parts@.len() > 0,
        forall|i: int, j: int| 0 <= i < j < parts@.len() ==> #[trigger] parts@[i] < #[trigger] parts@[j],
        parts@.last() < u64::MAX,
    ensures
        r@ == playlist_text(*timings, parts@, parts_per_segment as u64, media_kind, has_init),
{
    let per_segment: u64 = parts_per_segment as u64;
    let include_map: bool = media_kind == LiveMediaKind::Fmp4 && has_init;
    let mut out = push_head(timings, parts[0] / per_segment, include_map);
    let ghost head = out@;
    let mut run: u64 = 0;
    let mut i: usize = 0;
    proof {
        assert(head + part_lines(*timings, parts@, 0, per_segment, media_kind) =~= head);
        assert(parts@.take(0) =~= Seq::<u64>::empty());
    }
    while i < parts.len()
        invariant
            per_segment == parts_per_segment,
            per_segment > 0,
            i <= parts.len(),
            run <= i,
            forall|a: int, b: int| 0 <= a < b < parts@.len() ==> #[trigger] parts@[a] < #[trigger] parts@[b],
            out@ == head + part_lines(*timings, parts@, i as int, per_segment, media_kind),
            i < parts.len() ==> run == segment_size(
                parts@.take(i as int),
                per_segment,
                (parts@[i as int] / per_segment) as u64,
            ),
        decreases parts.len() - i,
    {
        let sequence: u64 = parts[i];
        let segment: u64 = sequence / per_segment;
        let ghost before = out@;
        push_part(&mut out, timings, sequence, media_kind);
        run = run + 1;
        let closes: bool = i + 1 == parts.len() || parts[i + 1] / per_segment != segment;
        proof {
            assert(parts@.take(i + 1).drop_last() =~= parts@.take(i as int));
            assert(parts@.take(i + 1).last() == sequence);
            assert(run == segment_size(parts@.take(i + 1), per_segment, segment));
        }
        if closes && run == per_segment {
            push_segment(&mut out, timings, segment, media_kind);
        }
        proof {
            let tail = if closes && run == per_segment {
                segment_lines(*timings, segment, media_kind)
            } else {
                Seq::empty()
            };
            let lines = part_lines(*timings, parts@, i as int, per_segment, media_kind);
            let line = part_line(*timings, sequence, media_kind);
            assert(part_lines(*timings, parts@, i + 1, per_segment, media_kind) == lines + line
                + tail);
            assert(out@ =~= head + (lines + line + tail));
        }
        if closes {
            run = 0;
            proof {
                if i + 1 < parts.len() {
                    lemma_next_segment(parts@, i as int, per_segment);
                }
            }
        }
        i = i + 1;
    }
    let last: u64 = parts[parts.len() - 1];
    push_hint(&mut out, last + 1, media_kind);
    out
}

/// A slot of a stream: its sequence, its payload and the hash of it.
#[derive(Debug)]
pub struct StreamSlot {
    pub seq: u64,
    pub payload: Vec<u8>,
    pub hash: u64,
}

/// What the slots of a stream show: the parts with media, the containers of their media and
/// the last initialization among them.
#[derive(Debug)]
pub struct PlaylistScan {
    pub available: Vec<u64>,
    pub saw_fmp4: bool,
    pub saw_ts: bool,
    pub init: Option<Vec<u8>>,
}

/// What the slots of a stream show.
#[verifier::ext_equal]
pub struct ScanModel {
    pub available: Seq<u64>,
    pub saw_fmp4: bool,
    pub saw_ts: bool,
    pub init: Option<Seq<u8>>,
}

impl View for PlaylistScan {
    type V = ScanModel;

    open spec fn view(&self) -> ScanModel {
        ScanModel {
            available: self.available@,
            saw_fmp4: self.saw_fmp4,
            saw_ts: self.saw_ts,
            init: match self.init {
                Some(bytes) => Some(bytes@),
                None => None,
            },
        }
    }
}

/// What the slots of a stream show.
pub open spec fn scanned(slots: Seq<StreamSlot>, stream_id: u64) -> ScanModel
    decreases slots.len(),
{
    if slots.len() == 0 {
        ScanModel { available: Seq::empty(), saw_fmp4: false, saw_ts: false, init: None }
    } else {
        let front = scanned(slots.drop_last(), stream_id);
        let last = slots.last();
        let slot = slot_of(last.payload@, Some(stream_id));
        if slot_media(slot).len() > 0 {
            ScanModel {
                available: front.available.push(last.seq),
                saw_fmp4: front.saw_fmp4 || slot_media_kind(slot) is Fmp4,
                saw_ts: front.saw_ts || slot_media_kind(slot) is Ts,
                init: if slot_init(slot) is Some {
                    slot_init(slot)
                } else {
                    front.init
                },
            }
        } else {
            front
        }
    }
}

/// Looks through the slots of a stream.
pub fn scan_slots(slots: &Vec<StreamSlot>, stream_id: u64) -> (r: PlaylistScan)
    ensures
        r@ == scanned(slots@, stream_id),
{
    let mut scan = PlaylistScan {
        available: Vec::new(),
        saw_fmp4: false,
        saw_ts: false,
        init: None,
    };
    let mut i: usize = 0;
    proof {
        assert(slots@.take(0) =~= Seq::<StreamSlot>::empty());
        assert(scan@ =~= scanned(slots@.take(0), stream_id));
    }
    while i < slots.len()
        invariant
            i <= slots.len(),
            scan@ == scanned(slots@.take(i as int), stream_id),
        decreases slots.len() - i,
    {
        proof {
            assert(slots@.take(i + 1).drop_last() =~= slots@.take(i as int));
            assert(slots@.take(i + 1).last() == slots@[i as int]);
        }
        let slot = LiveSlotPayload::decode_for_stream(slots[i].payload.as_slice(), stream_id);
        if slot.has_media() {
            match slot.media_kind() {
                LiveMediaKind::Fmp4 => {
                    scan.saw_fmp4 = true;
                },
                LiveMediaKind::Ts => {
                    scan.saw_ts = true;
                },
            }
            let init = slot.init();
            if init.is_some() {
                scan.init = init;
            }
            scan.available.push(slots[i].seq);
        }
        proof {
            assert(scan@ =~= scanned(slots@.take(i + 1), stream_id));
        }
        i = i + 1;
    }
    proof {
        assert(slots@.take(i as int) =~= slots@);
    }
    scan
}

/// The container that a scan shows, or else the one that is known, or else the fragmented one.
pub open spec fn kind_shown(scan: ScanModel, hint: Option<LiveMediaKind>) -> LiveMediaKind {
    if scan.saw_fmp4 {
        LiveMediaKind::Fmp4
    } else if scan.saw_ts {
        LiveMediaKind::Ts
    } else {
        match hint {
            Some(kind) => kind,
            None => LiveMediaKind::Fmp4,
        }
    }
}

/// The container that a scan shows.
pub fn scan_media_kind(scan: &PlaylistScan, hint: Option<LiveMediaKind>) -> (r: LiveMediaKind)
    ensures
        r == kind_shown(scan@, hint),
{
    if scan.saw_fmp4 {
        LiveMediaKind::Fmp4
    } else if scan.saw_ts {
        LiveMediaKind::Ts
    } else {
        match hint {
            Some(kind) => kind,
            None => LiveMediaKind::Fmp4,
        }
    }
}

/// The playlist of a stream, out of a scan of its window that ends at `last`, or of nothing
/// where the stream has no position. `has_init` tells whether the stream has an
/// initialization, and plays no part for the older container.
pub fn playlist_for_stream(
    timings: &PlaylistTimings,
    parts_per_segment: usize,
    last: Option<usize>,
    scan: &PlaylistScan,
    hint: Option<LiveMediaKind>,
    has_init: bool,
) -> (r: String)
    requires
        parts_per_segment > 0,
        forall|i: int, j: int|
            0 <= i < j < scan.available@.len() ==> #[trigger] scan.available@[i]
                < #[trigger] scan.available@[j],
        scan.available@.len() > 0 ==> scan.available@.last() < u64::MAX,
        last is None ==> scan@.available.len() == 0 && !scan@.saw_fmp4 && !scan@.saw_ts,
    ensures
        r@ == (if scan@.available.len() == 0 {
            let kind = match hint {
                Some(kind) => kind,
                None => LiveMediaKind::Fmp4,
            };
            playlist_head(*timings, 0, kind == LiveMediaKind::Fmp4 && has_init) + preload_hint(
                match last {
                    Some(last) => last as nat,
                    None => 0,
                },
                kind,
            )
        } else {
            playlist_text(
                *timings,
                scan@.available,
                parts_per_segment as u64,
                kind_shown(scan@, hint),
                has_init,
            )
        }),
{
    if scan.available.len() == 0 {
        let kind = match hint {
            Some(kind) => kind,
            None => LiveMediaKind::Fmp4,
        };
        let next: usize = match last {
            Some(last) => last,
            None => 0,
        };
        return empty_playlist(timings, next, kind, kind == LiveMediaKind::Fmp4 && has_init);
    }
    let kind = scan_media_kind(scan, hint);
    render_playlist(timings, &scan.available, parts_per_segment, kind, has_init)
}

/// A playlist that was rendered before.
#[derive(Debug)]
pub struct CachedPlaylist {
    pub stream_id: u64,
    pub version: u64,
    pub body: String,
}

/// The playlists that were rendered before, by the place of their stream in the cache.
#[derive(Debug)]
pub struct PlaylistCache {
    pub places: Vec<Option<CachedPlaylist>>,
}

impl PlaylistCache {
    /// A cache with a number of places.
    pub fn new(size: usize) -> (r: Self)
        ensures
            r.places@.len() == size,
            forall|i: int| 0 <= i < size ==> (#[trigger] r.places@[i]) is None,
    {
        let mut places: Vec<Option<CachedPlaylist>> = Vec::new();
        while places.len() < size
            invariant
                places@.len() <= size,
                forall|i: int| 0 <= i < places@.len() ==> (#[trigger] places@[i]) is None,
            decreases size - places@.len(),
        {
            places.push(None);
        }
        PlaylistCache { places }
    }

    /// The playlist of a stream at a version.
    pub open spec fn holds(self, stream_id: u64, place: int, version: u64) -> Option<Seq<char>> {
        if 0 <= place < self.places@.len() && self.places@[place] is Some && (
        self.places@[place]->0).stream_id == stream_id && (self.places@[place]->0).version
            == version {
            Some((self.places@[place]->0).body@)
        } else {
            None
        }
    }

    /// The playlist of a stream, where it was rendered at this version.
    pub fn cached_playlist(&self, stream_id: u64, place: usize, version: u64) -> (r: Option<String>)
        ensures
            crate::text::view_of(r) == self.holds(stream_id, place as int, version),
    {
        if place >= self.places.len() {
            return None;
        }
        match &self.places[place] {
            Some(cached) => if cached.stream_id == stream_id && cached.version == version {
                Some(cached.body.clone())
            } else {
                None
            },
            None => None,
        }
    }

    /// Keeps a playlist that was rendered at a version, unless the stream has moved on since.
    pub fn cache_playlist(
        &mut self,
        stream_id: u64,
        place: usize,
        version: u64,
        current_version: Option<u64>,
        body: &String,
    )
        ensures
            final(self).places@.len() == old(self).places@.len(),
            forall|i: int|
                0 <= i < old(self).places@.len() && i != place ==> #[trigger] final(self).places@[i]
                    == old(self).places@[i],
            place < old(self).places@.len() ==> if current_version == Some(version) {
                final(self).holds(stream_id, place as int, version) == Some(body@)
            } else {
                final(self).places@[place as int] == old(self).places@[place as int]
            },
    {
        let current: bool = match current_version {
            Some(v) => v == version,
            None => false,
        };
        if !current || place >= self.places.len() {
            return;
        }
        self.places[place] = Some(CachedPlaylist { stream_id, version, body: body.clone() });
    }

    /// Forgets the playlists of a stream, and no other.
    pub fn forget_stream(&mut self, stream_id: u64)
        ensures
            final(self).places@.len() == old(self).places@.len(),
            forall|i: int|
                0 <= i < old(self).places@.len() ==> #[trigger] final(self).places@[i] == (
                if old(self).places@[i] is Some && (old(self).places@[i]->0).stream_id
                    == stream_id {
                    None
                } else {
                    old(self).places@[i]
                }),
    {
        let mut i: usize = 0;
        while i < self.places.len()
            invariant
                i <= self.places@.len(),
                self.places@.len() == old(self).places@.len(),
                forall|j: int|
                    0 <= j < i ==> #[trigger] self.places@[j] == (if old(self).places@[j] is Some
                        && (old(self).places@[j]->0).stream_id == stream_id {
                        None
                    } else {
                        old(self).places@[j]
                    }),
                forall|j: int|
                    i <= j < self.places@.len() ==> #[trigger] self.places@[j] == old(
                        self,
                    ).places@[j],
            decreases self.places@.len() - i,
        {
            let gone: bool = match &self.places[i] {
                Some(cached) => cached.stream_id == stream_id,
                None => false,
            };
            if gone {
                self.places[i] = None;
            }
            i = i + 1;
        }
    }
}

/// The stream after a part of it was read.
pub open spec fn after_read(stream: StreamModel, payload: Seq<u8>, stream_id: u64) -> StreamModel {
    let slot = slot_of(payload, Some(stream_id));
    if slot_media(slot).len() > 0 {
        StreamModel {
            init: if slot_init(slot) is Some {
                slot_init(slot)
            } else {
                stream.init
            },
            media_kind: Some(slot_media_kind(slot)),
            ..stream
        }
    } else {
        stream
    }
}

impl LiveState {
    /// The media of a slot; nothing where it has none. What the slot shows of its stream, an
    /// initialization and its container, is remembered.
    pub fn read_part(&mut self, stream_id: u64, payload: &[u8]) -> (r: Option<Vec<u8>>)
        ensures
            final(self).process_started_unix_us == old(self).process_started_unix_us,
            final(self).assembly == old(self).assembly,
            final(self).counters == old(self).counters,
            final(self).same_streams_but(*old(self), stream_id),
            final(self).stream(stream_id) == after_read(
                old(self).stream(stream_id),
                payload@,
                stream_id,
            ),
            match r {
                Some(media) => media@ == slot_media(slot_of(payload@, Some(stream_id)))
                    && media@.len() > 0,
                None => slot_media(slot_of(payload@, Some(stream_id))).len() == 0,
            },
    {
        let slot = LiveSlotPayload::decode_for_stream(payload, stream_id);
        if !slot.has_media() {
            return None;
        }
        match slot.init() {
            Some(init) => {
                self.remember_stream_init(stream_id, init.as_slice());
            },
            None => {},
        }
        self.remember_media_kind(stream_id, slot.media_kind());
        proof {
            assert(self.stream(stream_id) =~= after_read(
                old(self).stream(stream_id),
                payload@,
                stream_id,
            ));
        }
        Some(slot.media())
    }
}

/// The position of the first slot with media, or the number of slots.
pub open spec fn first_with_media(slots: Seq<StreamSlot>, stream_id: u64) -> int
    decreases slots.len(),
{
    if slots.len() == 0 || slot_media(slot_of(slots[0].payload@, Some(stream_id))).len() > 0 {
        0
    } else {
        1 + first_with_media(slots.skip(1), stream_id)
    }
}

/// The first part with media among slots, which are tried in their order.
pub fn next_part(state: &mut LiveState, stream_id: u64, slots: &Vec<StreamSlot>) -> (r: Option<
    (u64, Vec<u8>, u64),
>)
    ensures
        final(state).counters == old(state).counters,
        final(state).assembly == old(state).assembly,
        final(state).process_started_unix_us == old(state).process_started_unix_us,
        final(state).same_streams_but(*old(state), stream_id),
        ({
            let i = first_with_media(slots@, stream_id);
            if i < slots@.len() {
                &&& r is Some
                &&& (r->0).0 == slots@[i].seq
                &&& (r->0).1@ == slot_media(slot_of(slots@[i].payload@, Some(stream_id)))
                &&& (r->0).2 == slots@[i].hash
                &&& final(state).stream(stream_id) == after_read(
                    old(state).stream(stream_id),
                    slots@[i].payload@,
                    stream_id,
                )
            } else {
                r is None && final(state).stream(stream_id) == old(state).stream(stream_id)
            }
        }),
{
    let mut i: usize = 0;
    proof {
        assert(slots@.skip(0) =~= slots@);
    }
    while i < slots.len()
        invariant
            i <= slots.len(),
            state.counters == old(state).counters,
            state.assembly == old(state).assembly,
            state.process_started_unix_us == old(state).process_started_unix_us,
            state.same_streams(*old(state)),
            first_with_media(slots@, stream_id) == i + first_with_media(
                slots@.skip(i as int),
                stream_id,
            ),
        decreases slots.len() - i,
    {
        proof {
            assert(slots@.skip(i as int)[0] == slots@[i as int]);
            assert(slots@.skip(i as int).skip(1) =~= slots@.skip(i + 1));
        }
        let ghost mid = *state;
        match state.read_part(stream_id, slots[i].payload.as_slice()) {
            Some(media) => {
                proof {
                    assert forall|k: u64| k != stream_id implies #[trigger] state.stream(k) == old(
                        state,
                    ).stream(k) by {
                        assert(mid.stream(k) == old(state).stream(k));
                    }
                    assert(mid.stream(stream_id) == old(state).stream(stream_id));
                }
                return Some((slots[i].seq, media, slots[i].hash));
            },
            None => {
                proof {
                    assert forall|k: u64| #[trigger] state.stream(k) == old(state).stream(k) by {
                        assert(mid.stream(k) == old(state).stream(k));
                    }
                }
            },
        }
        i = i + 1;
    }
    proof {
        assert(state.stream(stream_id) == old(state).stream(stream_id));
    }
    None
}

/// The slots that a tail request tries, and their order: those after a sequence, or those of
/// the window from its oldest or from its latest on.
pub open spec fn tail_order(
    last: usize,
    after: Option<u64>,
    start_at_oldest: bool,
    window_parts: usize,
) -> Seq<usize> {
    let first: int = if window_parts == 0 {
        last as int
    } else if last < window_parts - 1 {
        0
    } else {
        last - (window_parts - 1)
    };
    match after {
        Some(after) => if after >= last {
            Seq::empty()
        } else {
            Seq::new((last - after) as nat, |i: int| (after + 1 + i) as usize)
        },
        None => if start_at_oldest {
            Seq::new((last - first + 1) as nat, |i: int| (first + i) as usize)
        } else {
            Seq::new((last - first + 1) as nat, |i: int| (last - i) as usize)
        },
    }
}

/// The slots that a tail request tries, in order.
pub fn tail_slots(last: usize, after: Option<u64>, start_at_oldest: bool, window_parts: usize) -> (r:
    Vec<usize>)
    ensures
        r@ == tail_order(last, after, start_at_oldest, window_parts),
{
    let mut out: Vec<usize> = Vec::new();
    match after {
        Some(after) => {
            if after >= last as u64 {
                proof {
                    assert(out@ =~= tail_order(last, Some(after), start_at_oldest, window_parts));
                }
                return out;
            }
            let mut seq: usize = after as usize;
            while seq < last
                invariant
                    after <= seq <= last,
                    out@ == Seq::new((seq - after) as nat, |i: int| (after + 1 + i) as usize),
                decreases last - seq,
            {
                seq = seq + 1;
                out.push(seq);
                proof {
                    assert(out@ =~= Seq::new((seq - after) as nat, |i: int| (after + 1 + i) as usize));
                }
            }
            out
        },
        None => {
            let first: usize = last.saturating_sub(window_parts.saturating_sub(1));
            if start_at_oldest {
                let mut seq: usize = first;
                out.push(seq);
                proof {
                    assert(out@ =~= Seq::new(1, |i: int| (first + i) as usize));
                }
                while seq < last
                    invariant
                        first <= seq <= last,
                        out@ == Seq::new((seq - first + 1) as nat, |i: int| (first + i) as usize),
                    decreases last - seq,
                {
                    seq = seq + 1;
                    out.push(seq);
                    proof {
                        assert(out@ =~= Seq::new(
                            (seq - first + 1) as nat,
                            |i: int| (first + i) as usize,
                        ));
                    }
                }
            } else {
                let mut seq: usize = last;
                out.push(seq);
                proof {
                    assert(out@ =~= Seq::new(1, |i: int| (last - i) as usize));
                }
                while seq > first
                    invariant
                        first <= seq <= last,
                        out@ == Seq::new((last - seq + 1) as nat, |i: int| (last - i) as usize),
                    decreases seq,
                {
                    seq = seq - 1;
                    out.push(seq);
                    proof {
                        assert(out@ =~= Seq::new(
                            (last - seq + 1) as nat,
                            |i: int| (last - i) as usize,
                        ));
                    }
                }
            }
            out
        },
    }
}

/// The first initialization among slots, which are tried in their order.
pub open spec fn first_init(slots: Seq<StreamSlot>, stream_id: u64) -> Option<Seq<u8>>
    decreases slots.len(),
{
    if slots.len() == 0 {
        None
    } else {
        match slot_init(slot_of(slots[0].payload@, Some(stream_id))) {
            Some(init) => Some(init),
            None => first_init(slots.skip(1), stream_id),
        }
    }
}

/// The first initialization among slots.
pub fn find_init(slots: &Vec<StreamSlot>, stream_id: u64) -> (r: Option<Vec<u8>>)
    ensures
        match r {
            Some(init) => first_init(slots@, stream_id) == Some(init@),
            None => first_init(slots@, stream_id) is None,
        },
{
    let mut i: usize = 0;
    proof {
        assert(slots@.skip(0) =~= slots@);
    }
    while i < slots.len()
        invariant
            i <= slots.len(),
            first_init(slots@, stream_id) == first_init(slots@.skip(i as int), stream_id),
        decreases slots.len() - i,
    {
        proof {
            assert(slots@.skip(i as int)[0] == slots@[i as int]);
            assert(slots@.skip(i as int).skip(1) =~= slots@.skip(i + 1));
        }
        let slot = LiveSlotPayload::decode_for_stream(slots[i].payload.as_slice(), stream_id);
        let init = slot.init();
        if init.is_some() {
            return init;
        }
        i = i + 1;
    }
    None
}

/// The parts of a segment, in order; nothing where their numbers do not fit.
pub fn segment_parts(segment: u64, parts_per_segment: usize) -> (r: Option<Vec<u64>>)
    requires
        segment * parts_per_segment <= u64::MAX ==> segment * parts_per_segment + parts_per_segment
            <= u64::MAX + 1,
    ensures
        match r {
            Some(parts) => segment * parts_per_segment <= u64::MAX && parts@ == Seq::new(
                parts_per_segment as nat,
                |i: int| (segment * parts_per_segment + i) as u64,
            ),
            None => segment * parts_per_segment > u64::MAX,
        },
{
    let first: u64 = match segment.checked_mul(parts_per_segment as u64) {
        Some(first) => first,
        None => {
            return None;
        },
    };
    let mut parts: Vec<u64> = Vec::new();
    let mut offset: usize = 0;
    while offset < parts_per_segment
        invariant
            offset <= parts_per_segment,
            first == segment * parts_per_segment,
            first + parts_per_segment <= u64::MAX + 1,
            parts@ == Seq::new(offset as nat, |i: int| (first + i) as u64),
        decreases parts_per_segment - offset,
    {
        parts.push(first + offset as u64);
        proof {
            assert(parts@ =~= Seq::new((offset + 1) as nat, |i: int| (first + i) as u64));
        }
        offset = offset + 1;
    }
    proof {
        assert(parts@ =~= Seq::new(
            parts_per_segment as nat,
            |i: int| (segment * parts_per_segment + i) as u64,
        ));
    }
    Some(parts)
}

/// The bytes of parts, one after the other.
pub open spec fn all_bytes(parts: Seq<Vec<u8>>) -> Seq<u8>
    decreases parts.len(),
{
    if parts.len() == 0 {
        Seq::empty()
    } else {
        all_bytes(parts.drop_last()) + parts.last()@
    }
}

/// The bytes of parts, one after the other.
pub fn join_parts(parts: &Vec<Vec<u8>>) -> (r: Vec<u8>)
    ensures
        r@ == all_bytes(parts@),
{
    let mut out: Vec<u8> = Vec::new();
    let mut i: usize = 0;
    proof {
        assert(parts@.take(0) =~= Seq::<Vec<u8>>::empty());
    }
    while i < parts.len()
        invariant
            i <= parts.len(),
            out@ == all_bytes(parts@.take(i as int)),
        decreases parts.len() - i,
    {
        proof {
            assert(parts@.take(i + 1).drop_last() =~= parts@.take(i as int));
            assert(parts@.take(i + 1).last() == parts@[i as int]);
        }
        extend_bytes(&mut out, parts[i].as_slice());
        i = i + 1;
    }
    proof {
        assert(parts@.take(i as int) =~= parts@);
    }
    out
}

/// Whether numbers rise.
pub open spec fn rises(list: Seq<u64>) -> bool {
    forall|i: int, j: int| 0 <= i < j < list.len() ==> #[trigger] list[i] < #[trigger] list[j]
}

/// A scan of slots whose numbers rise lists numbers that rise, and each is that of a slot with
/// media.
pub proof fn scans_list_in_order(slots: Seq<StreamSlot>, stream_id: u64)
    requires
        forall|i: int, j: int|
            0 <= i < j < slots.len() ==> (#[trigger] slots[i]).seq < (#[trigger] slots[j]).seq,
    ensures
        rises(scanned(slots, stream_id).available),
        forall|seq: u64| #[trigger]
            scanned(slots, stream_id).available.contains(seq) <==> exists|i: int|
                0 <= i < slots.len() && (#[trigger] slots[i]).seq == seq && slot_media(
                    slot_of(slots[i].payload@, Some(stream_id)),
                ).len() > 0,
    decreases slots.len(),
{
    if slots.len() > 0 {
        let front = slots.drop_last();
        let last = slots.last();
        assert(last == slots[slots.len() - 1]);
        assert forall|i: int, j: int| 0 <= i < j < front.len() implies (#[trigger] front[i]).seq < (
        #[trigger] front[j]).seq by {
            assert(slots[i].seq < slots[j].seq);
        }
        scans_list_in_order(front, stream_id);
        let before = scanned(front, stream_id).available;
        let now = scanned(slots, stream_id).available;
        let shown = slot_media(slot_of(last.payload@, Some(stream_id))).len() > 0;
        assert forall|k: int| 0 <= k < before.len() implies #[trigger] before[k] < last.seq by {
            assert(before.contains(before[k]));
            let i = choose|i: int|
                0 <= i < front.len() && (#[trigger] front[i]).seq == before[k] && slot_media(
                    slot_of(front[i].payload@, Some(stream_id)),
                ).len() > 0;
            assert(slots[i].seq < slots[slots.len() - 1].seq);
        }
        assert forall|seq: u64| #[trigger] now.contains(seq) <==> exists|i: int|
            0 <= i < slots.len() && (#[trigger] slots[i]).seq == seq && slot_media(
                slot_of(slots[i].payload@, Some(stream_id)),
            ).len() > 0 by {
            if now.contains(seq) {
                let k = choose|k: int| 0 <= k < now.len() && now[k] == seq;
                if k < before.len() {
                    assert(before[k] == seq);
                    assert(before.contains(seq));
                    let i = choose|i: int|
                        0 <= i < front.len() && (#[trigger] front[i]).seq == seq && slot_media(
                            slot_of(front[i].payload@, Some(stream_id)),
                        ).len() > 0;
                    assert(slots[i] == front[i]);
                } else {
                    assert(slots[slots.len() - 1].seq == seq);
                }
            }
            if exists|i: int|
                0 <= i < slots.len() && (#[trigger] slots[i]).seq == seq && slot_media(
                    slot_of(slots[i].payload@, Some(stream_id)),
                ).len() > 0 {
                let i = choose|i: int|
                    0 <= i < slots.len() && (#[trigger] slots[i]).seq == seq && slot_media(
                        slot_of(slots[i].payload@, Some(stream_id)),
                    ).len() > 0;
                if i < front.len() {
                    assert(front[i].seq == seq);
                    assert(before.contains(seq));
                    let k = choose|k: int| 0 <= k < before.len() && before[k] == seq;
                    assert(now[k] == seq);
                } else {
                    assert(now[before.len() as int] == seq);
                }
            }
        }
    }
}

/// The parts of a segment that a list holds.
spec fn segment_set(parts: Seq<u64>, per_segment: u64, segment: u64) -> Set<int> {
    Set::new(
        |q: int|
            exists|i: int|
                0 <= i < parts.len() && #[trigger] parts[i] == q && parts[i] / per_segment
                    == segment,
    )
}

proof fn lemma_segment_set(parts: Seq<u64>, per_segment: u64, segment: u64)
    requires
        rises(parts),
        per_segment > 0,
    ensures
        segment_set(parts, per_segment, segment).finite(),
        segment_set(parts, per_segment, segment).len() == segment_size(
            parts,
            per_segment,
            segment,
        ),
    decreases parts.len(),
{
    let all = segment_set(parts, per_segment, segment);
    if parts.len() == 0 {
        assert(all =~= Set::<int>::empty());
    } else {
        let front = parts.drop_last();
        let last = parts.last();
        assert(forall|i: int| 0 <= i < front.len() ==> front[i] == parts[i]);
        lemma_segment_set(front, per_segment, segment);
        let before = segment_set(front, per_segment, segment);
        assert(last == parts[parts.len() - 1]);
        assert(!before.contains(last as int)) by {
            if before.contains(last as int) {
                let i = choose|i: int|
                    0 <= i < front.len() && #[trigger] front[i] == last as int && front[i]
                        / per_segment == segment;
                assert(parts[i] < parts[parts.len() - 1]);
            }
        }
        if last / per_segment == segment {
            assert forall|q: int| all.contains(q) <==> before.insert(last as int).contains(q) by {
                if all.contains(q) {
                    let i = choose|i: int|
                        0 <= i < parts.len() && #[trigger] parts[i] == q && parts[i] / per_segment
                            == segment;
                    if i < front.len() {
                        assert(front[i] == q);
                    }
                }
                if before.contains(q) {
                    let i = choose|i: int|
                        0 <= i < front.len() && #[trigger] front[i] == q && front[i] / per_segment
                            == segment;
                    assert(parts[i] == q);
                }
                if q == last {
                    assert(parts[parts.len() - 1] == q);
                }
            }
            assert(all =~= before.insert(last as int));
        } else {
            assert forall|q: int| all.contains(q) <==> before.contains(q) by {
                if all.contains(q) {
                    let i = choose|i: int|
                        0 <= i < parts.len() && #[trigger] parts[i] == q && parts[i] / per_segment
                            == segment;
                    assert(i < front.len());
                    assert(front[i] == q);
                }
                if before.contains(q) {
                    let i = choose|i: int|
                        0 <= i < front.len() && #[trigger] front[i] == q && front[i] / per_segment
                            == segment;
                    assert(parts[i] == q);
                }
            }
            assert(all =~= before);
        }
    }
}

/// A segment that a playlist names is whole: every part of it is in the list.
pub proof fn named_segments_are_whole(parts: Seq<u64>, per_segment: u64, segment: u64, part: u64)
    requires
        rises(parts),
        per_segment > 0,
        segment_size(parts, per_segment, segment) == per_segment,
        part / per_segment == segment,
    ensures
        parts.contains(part),
{
    lemma_segment_set(parts, per_segment, segment);
    let all = segment_set(parts, per_segment, segment);
    let first = segment * per_segment;
    let whole = vstd::set_lib::set_int_range(first, first + per_segment);
    vstd::set_lib::lemma_int_range(first, first + per_segment);
    assert forall|q: int| all.contains(q) implies whole.contains(q) by {
        let i = choose|i: int|
            0 <= i < parts.len() && #[trigger] parts[i] == q && parts[i] / per_segment == segment;
        lemma_in_segment(parts[i], per_segment, segment);
    }
    assert(all.subset_of(whole));
    vstd::set_lib::lemma_subset_equality(all, whole);
    lemma_in_segment(part, per_segment, segment);
    assert(whole.contains(part as int));
    let i = choose|i: int|
        0 <= i < parts.len() && #[trigger] parts[i] == part as int && parts[i] / per_segment
            == segment;
    assert(parts[i] == part);
}

proof fn lemma_in_segment(part: u64, per_segment: u64, segment: u64)
    requires
        per_segment > 0,
        part / per_segment == segment,
    ensures
        segment * per_segment <= part < segment * per_segment + per_segment,
{
    vstd::arithmetic::div_mod::lemma_fundamental_div_mod(part as int, per_segment as int);
    assert(per_segment * segment == segment * per_segment) by (nonlinear_arith);
}

/// A playlist, piece by piece.
pub open spec fn is_playlist(
    text: Seq<char>,
    timings: PlaylistTimings,
    first_segment: nat,
    maps_init: bool,
    lines: Seq<char>,
    next_part: nat,
    extension: Seq<char>,
) -> bool {
    text == "#EXTM3U\n#EXT-X-VERSION:9\n#EXT-X-TARGETDURATION:"@ + decimal(
        timings.target_duration as nat,
    ) + "\n#EXT-X-MEDIA-SEQUENCE:"@ + decimal(first_segment) + "\n"@ + (if maps_init {
        "#EXT-X-MAP:URI=\"init.mp4\"\n"@
    } else {
        Seq::empty()
    }) + "#EXT-X-PART-INF:PART-TARGET="@ + timings.part_target@
        + "\n#EXT-X-SERVER-CONTROL:CAN-BLOCK-RELOAD=YES,PART-HOLD-BACK="@
        + timings.part_hold_back@ + ",HOLD-BACK="@ + timings.hold_back@ + "\n"@ + lines
        + "#EXT-X-PRELOAD-HINT:TYPE=PART,URI=\"part"@ + decimal(next_part) + "."@ + extension
        + "\"\n"@
}

/// The ending of the names of a container's files.
pub open spec fn file_ending(kind: LiveMediaKind) -> Seq<char> {
    if kind is Fmp4 {
        "mp4"@
    } else {
        "ts"@
    }
}

/// A playlist announces the segment that its first part is in, maps an initialization just where
/// the media need one and there is one, and hints at the part behind its last.
pub proof fn playlists_announce_their_first_segment(
    timings: PlaylistTimings,
    parts: Seq<u64>,
    per_segment: u64,
    kind: LiveMediaKind,
    has_init: bool,
    first_segment: nat,
)
    requires
        rises(parts),
        per_segment > 0,
        parts.len() > 0,
        first_segment * per_segment <= parts[0] < (first_segment + 1) * per_segment,
    ensures
        is_playlist(
            playlist_text(timings, parts, per_segment, kind, has_init),
            timings,
            first_segment,
            kind is Fmp4 && has_init,
            part_lines(timings, parts, parts.len() as int, per_segment, kind),
            (parts.last() + 1) as nat,
            file_ending(kind),
        ),
        forall|i: int| 0 <= i < parts.len() ==> parts[0] <= #[trigger] parts[i] <= parts.last(),
{
    let n = (parts[0] / per_segment) as nat;
    lemma_in_segment(parts[0], per_segment, (parts[0] / per_segment) as u64);
    assert(n == first_segment) by (nonlinear_arith)
        requires
            per_segment > 0,
            n * per_segment <= parts[0] < n * per_segment + per_segment,
            first_segment * per_segment <= parts[0] < (first_segment + 1) * per_segment,
    ;
    let lines = part_lines(timings, parts, parts.len() as int, per_segment, kind);
    let whole = playlist_text(timings, parts, per_segment, kind, has_init);
    let ending = kind.extension_text();
    assert(ending == file_ending(kind));
    let head = playlist_head(timings, n, kind == LiveMediaKind::Fmp4 && has_init);
    let hint = "#EXT-X-PRELOAD-HINT:TYPE=PART,URI=\"part"@;
    let next = (parts.last() + 1) as nat;
    assert(head + lines + (hint + decimal(next) + "."@ + ending + "\"\n"@) =~= head + lines + hint
        + decimal(next) + "."@ + ending + "\"\n"@);
}

/// Without parts a playlist announces the first segment of all, and hints at a part.
pub proof fn empty_playlists_announce_the_start(
    timings: PlaylistTimings,
    next_part: nat,
    kind: LiveMediaKind,
    include_map: bool,
)
    ensures
        is_playlist(
            playlist_head(timings, 0, include_map) + preload_hint(next_part, kind),
            timings,
            0,
            include_map,
            Seq::empty(),
            next_part,
            file_ending(kind),
        ),
{
    let head = playlist_head(timings, 0, include_map);
    let ending = kind.extension_text();
    let hint = "#EXT-X-PRELOAD-HINT:TYPE=PART,URI=\"part"@;
    assert(head + (hint + decimal(next_part) + "."@ + ending + "\"\n"@) =~= head + Seq::empty()
        + hint + decimal(next_part) + "."@ + ending + "\"\n"@);
}

proof fn lemma_whole_segment(parts: Seq<u64>, per_segment: u64, segment: u64)
    requires
        rises(parts),
        per_segment > 0,
    ensures
        segment_size(parts, per_segment, segment) == per_segment <==> forall|q: int|
            segment * per_segment <= q < segment * per_segment + per_segment
                ==> #[trigger] segment_set(parts, per_segment, segment).contains(q),
{
    lemma_segment_set(parts, per_segment, segment);
    let all = segment_set(parts, per_segment, segment);
    let first = segment * per_segment;
    let whole = vstd::set_lib::set_int_range(first, first + per_segment);
    vstd::set_lib::lemma_int_range(first, first + per_segment);
    assert forall|q: int| all.contains(q) implies whole.contains(q) by {
        let i = choose|i: int|
            0 <= i < parts.len() && #[trigger] parts[i] == q && parts[i] / per_segment == segment;
        lemma_in_segment(parts[i], per_segment, segment);
    }
    assert(all.subset_of(whole));
    if segment_size(parts, per_segment, segment) == per_segment {
        vstd::set_lib::lemma_subset_equality(all, whole);
        assert forall|q: int| first <= q < first + per_segment implies #[trigger] all.contains(
            q,
        ) by {
            assert(whole.contains(q));
        }
    }
    if forall|q: int| first <= q < first + per_segment ==> #[trigger] all.contains(q) {
        assert(all =~= whole);
    }
}

/// A playlist lists every part once, in order, under its number. Behind a part stands its segment,
/// under its number, just where the part is the last of the segment and all of the segment is
/// listed.
pub proof fn playlists_list_parts_and_whole_segments(
    timings: PlaylistTimings,
    parts: Seq<u64>,
    per_segment: u64,
    kind: LiveMediaKind,
    k: int,
)
    requires
        rises(parts),
        per_segment > 0,
        0 <= k < parts.len(),
    ensures
        part_lines(timings, parts, 0, per_segment, kind).len() == 0,
        ({
            let part = parts[k];
            let segment = part as int / per_segment as int;
            let ending = file_ending(kind);
            let whole = part == segment * per_segment + per_segment - 1 && forall|q: u64|
                segment * per_segment <= q <= part ==> #[trigger] parts.contains(q);
            part_lines(timings, parts, k + 1, per_segment, kind) == part_lines(
                timings,
                parts,
                k,
                per_segment,
                kind,
            ) + "#EXT-X-PART:DURATION="@ + timings.part_target@ + ",URI=\"part"@ + decimal(
                part as nat,
            ) + "."@ + ending + "\"\n"@ + (if whole {
                "#EXTINF:"@ + timings.segment_duration@ + ",\nseg"@ + decimal(segment as nat)
                    + "."@ + ending + "\n"@
            } else {
                Seq::empty()
            })
        }),
{
    let part = parts[k];
    let segment = (part / per_segment) as u64;
    let upto = parts.take(k + 1);
    let closes = k + 1 == parts.len() || parts[k + 1] / per_segment != segment;
    let sized = segment_size(upto, per_segment, segment) == per_segment;
    let whole = part == segment * per_segment + per_segment - 1 && forall|q: u64|
        segment * per_segment <= q <= part ==> #[trigger] parts.contains(q);
    lemma_in_segment(part, per_segment, segment);
    assert(rises(upto)) by {
        assert(forall|i: int| 0 <= i < upto.len() ==> upto[i] == parts[i]);
    }
    lemma_whole_segment(upto, per_segment, segment);
    let held = segment_set(upto, per_segment, segment);
    if sized {
        let last = segment * per_segment + per_segment - 1;
        assert(held.contains(last));
        let i = choose|i: int|
            0 <= i < upto.len() && #[trigger] upto[i] == last && upto[i] / per_segment == segment;
        assert(parts[i] <= parts[k]);
        assert(part == last);
        assert forall|q: u64| segment * per_segment <= q <= part implies #[trigger] parts.contains(
            q,
        ) by {
            assert(held.contains(q as int));
            let j = choose|j: int|
                0 <= j < upto.len() && #[trigger] upto[j] == q as int && upto[j] / per_segment
                    == segment;
            assert(parts[j] == q);
        }
        if k + 1 < parts.len() {
            assert(parts[k] < parts[k + 1]);
            if parts[k + 1] / per_segment == segment {
                lemma_in_segment(parts[k + 1], per_segment, segment);
            }
        }
        assert(closes && whole);
    }
    if whole {
        assert forall|q: int|
            segment * per_segment <= q < segment * per_segment + per_segment implies
            #[trigger] held.contains(q) by {
            assert(parts.contains(q as u64));
            let j = choose|j: int| 0 <= j < parts.len() && parts[j] == q as u64;
            if j > k {
                assert(parts[k] < parts[j]);
            }
            assert(upto[j] == q);
            assert(q / per_segment as int == segment) by (nonlinear_arith)
                requires
                    per_segment > 0,
                    segment * per_segment <= q < segment * per_segment + per_segment,
            ;
        }
    }
    assert(sized == whole);
    let front = part_lines(timings, parts, k, per_segment, kind);
    let ending = kind.extension_text();
    assert(ending == file_ending(kind));
    let tail = if whole {
        segment_lines(timings, segment, kind)
    } else {
        Seq::empty()
    };
    assert(part_lines(timings, parts, k + 1, per_segment, kind) == front + part_line(
        timings,
        part,
        kind,
    ) + tail);
    assert(front + part_line(timings, part, kind) + tail =~= front + "#EXT-X-PART:DURATION="@
        + timings.part_target@ + ",URI=\"part"@ + decimal(part as nat) + "."@ + ending + "\"\n"@
        + tail);
}

/// A scan sees a container just where a slot has media of it, and keeps the initialization of the
/// latest slot with media that brings one.
pub proof fn scans_see_what_slots_hold(slots: Seq<StreamSlot>, stream_id: u64)
    ensures
        ({
            let scan = scanned(slots, stream_id);
            &&& scan.saw_fmp4 <==> exists|i: int|
                0 <= i < slots.len() && #[trigger] has_media_of(
                    slots[i],
                    stream_id,
                    LiveMediaKind::Fmp4,
                )
            &&& scan.saw_ts <==> exists|i: int|
                0 <= i < slots.len() && #[trigger] has_media_of(
                    slots[i],
                    stream_id,
                    LiveMediaKind::Ts,
                )
            &&& match scan.init {
                Some(init) => exists|i: int|
                    0 <= i < slots.len() && #[trigger] brings_init(slots[i], stream_id) == Some(init)
                        && forall|j: int|
                        i < j < slots.len() ==> #[trigger] brings_init(slots[j], stream_id) is None,
                None => forall|j: int|
                    0 <= j < slots.len() ==> #[trigger] brings_init(slots[j], stream_id) is None,
            }
        }),
    decreases slots.len(),
{
    if slots.len() > 0 {
        let front = slots.drop_last();
        scans_see_what_slots_hold(front, stream_id);
        let n = slots.len() - 1;
        assert(slots.last() == slots[n]);
        assert forall|i: int| 0 <= i < n implies front[i] == #[trigger] slots[i] by {}
        let scan = scanned(slots, stream_id);
        let before = scanned(front, stream_id);
        if before.saw_fmp4 {
            let i = choose|i: int|
                0 <= i < front.len() && #[trigger] has_media_of(
                    front[i],
                    stream_id,
                    LiveMediaKind::Fmp4,
                );
            assert(has_media_of(slots[i], stream_id, LiveMediaKind::Fmp4));
        }
        if before.saw_ts {
            let i = choose|i: int|
                0 <= i < front.len() && #[trigger] has_media_of(
                    front[i],
                    stream_id,
                    LiveMediaKind::Ts,
                );
            assert(has_media_of(slots[i], stream_id, LiveMediaKind::Ts));
        }
        if scan.saw_fmp4 && !before.saw_fmp4 {
            assert(has_media_of(slots[n], stream_id, LiveMediaKind::Fmp4));
        }
        if scan.saw_ts && !before.saw_ts {
            assert(has_media_of(slots[n], stream_id, LiveMediaKind::Ts));
        }
        assert forall|i: int|
            0 <= i < slots.len() && #[trigger] has_media_of(
                slots[i],
                stream_id,
                LiveMediaKind::Fmp4,
            ) implies scan.saw_fmp4 by {
            if i < n {
                assert(has_media_of(front[i], stream_id, LiveMediaKind::Fmp4));
            }
        }
        assert forall|i: int|
            0 <= i < slots.len() && #[trigger] has_media_of(
                slots[i],
                stream_id,
                LiveMediaKind::Ts,
            ) implies scan.saw_ts by {
            if i < n {
                assert(has_media_of(front[i], stream_id, LiveMediaKind::Ts));
            }
        }
        if brings_init(slots[n], stream_id) is Some {
            assert(scan.init == brings_init(slots[n], stream_id));
        } else {
            assert(scan.init == before.init);
            match before.init {
                Some(init) => {
                    let i = choose|i: int|
                        0 <= i < front.len() && #[trigger] brings_init(front[i], stream_id) == Some(
                            init,
                        ) && forall|j: int|
                            i < j < front.len() ==> #[trigger] brings_init(front[j], stream_id)
                                is None;
                    assert(brings_init(slots[i], stream_id) == Some(init));
                    assert forall|j: int| i < j < slots.len() implies #[trigger] brings_init(
                        slots[j],
                        stream_id,
                    ) is None by {
                        if j < n {
                            assert(brings_init(front[j], stream_id) is None);
                        }
                    }
                },
                None => {
                    assert forall|j: int| 0 <= j < slots.len() implies #[trigger] brings_init(
                        slots[j],
                        stream_id,
                    ) is None by {
                        if j < n {
                            assert(brings_init(front[j], stream_id) is None);
                        }
                    }
                },
            }
        }
    }
}

/// Whether a slot holds media of a container for a stream.
pub open spec fn has_media_of(slot: StreamSlot, stream_id: u64, kind: LiveMediaKind) -> bool {
    let content = slot_of(slot.payload@, Some(stream_id));
    slot_media(content).len() > 0 && slot_media_kind(content) == kind
}

/// The initialization that a slot with media brings along.
pub open spec fn brings_init(slot: StreamSlot, stream_id: u64) -> Option<Seq<u8>> {
    let content = slot_of(slot.payload@, Some(stream_id));
    if slot_media(content).len() > 0 {
        slot_init(content)
    } else {
        None
    }
}

/// What was seen is shown: fragments where there are any, else the older container where it was
/// seen, else what the stream was last known by, and fragments where nothing is known.
pub proof fn seen_media_are_shown(scan: ScanModel, hint: Option<LiveMediaKind>)
    ensures
        scan.saw_fmp4 ==> kind_shown(scan, hint) is Fmp4,
        !scan.saw_fmp4 && scan.saw_ts ==> kind_shown(scan, hint) is Ts,
        !scan.saw_fmp4 && !scan.saw_ts && hint is Some ==> kind_shown(scan, hint) == hint->0,
        !scan.saw_fmp4 && !scan.saw_ts && hint is None ==> kind_shown(scan, hint) is Fmp4,
{
}

/// A tail goes on from where its reader is: behind the part that was read last, up to the latest,
/// in order. A reader without a part begins within the window, at the oldest part or at the
/// latest.
pub proof fn tails_go_on_from_their_readers(
    last: usize,
    after: Option<u64>,
    start_at_oldest: bool,
    window_parts: usize,
)
    requires
        window_parts > 0,
    ensures
        ({
            let order = tail_order(last, after, start_at_oldest, window_parts);
            let first = if last >= window_parts {
                last - window_parts + 1
            } else {
                0
            };
            &&& forall|slot: usize| #[trigger]
                order.contains(slot) <==> slot <= last && (match after {
                    Some(after) => slot > after,
                    None => slot >= first,
                })
            &&& after is Some || start_at_oldest ==> forall|i: int, j: int|
                0 <= i < j < order.len() ==> #[trigger] order[i] < #[trigger] order[j]
            &&& after is None && !start_at_oldest ==> forall|i: int, j: int|
                0 <= i < j < order.len() ==> #[trigger] order[i] > #[trigger] order[j]
        }),
{
    let order = tail_order(last, after, start_at_oldest, window_parts);
    let first = if last >= window_parts {
        last - window_parts + 1
    } else {
        0
    };
    assert forall|slot: usize| #[trigger] order.contains(slot) <==> slot <= last && (match after {
        Some(after) => slot > after,
        None => slot >= first,
    }) by {
        if slot <= last {
            match after {
                Some(after) => {
                    if slot > after {
                        assert(order[slot - after - 1] == slot);
                    }
                },
                None => {
                    if slot >= first {
                        if start_at_oldest {
                            assert(order[slot - first] == slot);
                        } else {
                            assert(order[last - slot] == slot);
                        }
                    }
                },
            }
        }
    }
}

/// The part that is read is the first in the list that has media.
pub proof fn the_first_part_with_media_is_read(slots: Seq<StreamSlot>, stream_id: u64)
    ensures
        ({
            let i = first_with_media(slots, stream_id);
            &&& 0 <= i <= slots.len()
            &&& i < slots.len() ==> slot_media(
                slot_of(slots[i].payload@, Some(stream_id)),
            ).len() > 0
            &&& forall|j: int|
                0 <= j < i ==> slot_media(
                    slot_of((#[trigger] slots[j]).payload@, Some(stream_id)),
                ).len() == 0
        }),
    decreases slots.len(),
{
    if slots.len() > 0 && slot_media(slot_of(slots[0].payload@, Some(stream_id))).len() == 0 {
        let rest = slots.skip(1);
        the_first_part_with_media_is_read(rest, stream_id);
        let i = first_with_media(slots, stream_id);
        assert forall|j: int| 0 <= j < i implies slot_media(
            slot_of((#[trigger] slots[j]).payload@, Some(stream_id)),
        ).len() == 0 by {
            if j > 0 {
                assert(rest[j - 1] == slots[j]);
            }
        }
        if i < slots.len() {
            assert(rest[i - 1] == slots[i]);
        }
    }
}

/// The initialization that is found is that of the first slot in the list that has one.
pub proof fn the_first_initialization_is_found(slots: Seq<StreamSlot>, stream_id: u64)
    ensures
        match first_init(slots, stream_id) {
            Some(init) => exists|i: int|
                0 <= i < slots.len() && slot_init(
                    slot_of((#[trigger] slots[i]).payload@, Some(stream_id)),
                ) == Some(init) && forall|j: int|
                    0 <= j < i ==> slot_init(
                        slot_of((#[trigger] slots[j]).payload@, Some(stream_id)),
                    ) is None,
            None => forall|j: int|
                0 <= j < slots.len() ==> slot_init(
                    slot_of((#[trigger] slots[j]).payload@, Some(stream_id)),
                ) is None,
        },
    decreases slots.len(),
{
    if slots.len() > 0 {
        let first = slot_init(slot_of(slots[0].payload@, Some(stream_id)));
        if first is None {
            let rest = slots.skip(1);
            the_first_initialization_is_found(rest, stream_id);
            assert forall|j: int| 0 < j < slots.len() implies rest[j - 1] == #[trigger] slots[j] by {}
            match first_init(rest, stream_id) {
                Some(init) => {
                    let i = choose|i: int|
                        0 <= i < rest.len() && slot_init(
                            slot_of((#[trigger] rest[i]).payload@, Some(stream_id)),
                        ) == Some(init) && forall|j: int|
                            0 <= j < i ==> slot_init(
                                slot_of((#[trigger] rest[j]).payload@, Some(stream_id)),
                            ) is None;
                    assert(slots[i + 1] == rest[i]);
                    assert forall|j: int| 0 <= j < i + 1 implies slot_init(
                        slot_of((#[trigger] slots[j]).payload@, Some(stream_id)),
                    ) is None by {
                        if j > 0 {
                            assert(slots[j] == rest[j - 1]);
                        }
                    }
                },
                None => {
                    assert forall|j: int| 0 <= j < slots.len() implies slot_init(
                        slot_of((#[trigger] slots[j]).payload@, Some(stream_id)),
                    ) is None by {
                        if j > 0 {
                            assert(slots[j] == rest[j - 1]);
                        }
                    }
                },
            }
        } else {
            assert(slots[0] == slots[0]);
        }
    }
}

/// A segment is the bytes of its parts, one after the other.
pub proof fn segments_are_their_parts(parts: Seq<Vec<u8>>)
    ensures
        all_bytes(parts) == parts.fold_left(
            Seq::<u8>::empty(),
            |bytes: Seq<u8>, part: Vec<u8>| bytes + part@,
        ),
    decreases parts.len(),
{
    reveal_with_fuel(Seq::fold_left, 2);
    if parts.len() > 0 {
        segments_are_their_parts(parts.drop_last());
    }
}

/// A part that is read tells the kind of its stream, and its initialization where it brings one;
/// bytes without media of the stream tell nothing.
pub proof fn reads_tell_the_kind(stream: StreamModel, payload: Seq<u8>, stream_id: u64)
    ensures
        ({
            let slot = slot_of(payload, Some(stream_id));
            let after = after_read(stream, payload, stream_id);
            &&& slot_media(slot).len() == 0 ==> after == stream
            &&& slot_media(slot).len() > 0 ==> after.media_kind == Some(slot_media_kind(slot))
            &&& slot_media(slot).len() > 0 && slot_init(slot) is Some ==> after.init == slot_init(
                slot,
            )
            &&& slot_init(slot) is None ==> after.init == stream.init
            &&& after.next_seq == stream.next_seq && after.part_available_unix_us
                == stream.part_available_unix_us && after.canonical_epoch == stream.canonical_epoch
                && after.last_ingest_unix_ms == stream.last_ingest_unix_ms
        }),
{
}

/// A playlist is found in the cache only as the one of its stream and version that was kept at its
/// place.
pub proof fn cached_playlists_are_of_their_version(
    cache: PlaylistCache,
    stream_id: u64,
    place: int,
    version: u64,
    body: Seq<char>,
)
    ensures
        cache.holds(stream_id, place, version) == Some(body) <==> 0 <= place
            < cache.places@.len() && match cache.places@[place] {
            Some(kept) => kept.stream_id == stream_id && kept.version == version && kept.body@
                == body,
            None => false,
        },
{
}

/// A request that found its part returns it, whatever the time; one that did not waits until its
/// deadline and no longer, and gives up there.
pub proof fn waiting_ends_at_the_deadline(deadline_ms: u64, now_ms: u64)
    ensures
        step_while_waiting(deadline_ms, now_ms, true) is Return,
        match step_while_waiting(deadline_ms, now_ms, false) {
            WaitStep::Wait { ms } => ms > 0 && now_ms + ms == deadline_ms,
            WaitStep::GiveUp => now_ms >= deadline_ms,
            WaitStep::Return => false,
        },
{
}

} // verus!
