use std::collections::BTreeMap;

use av_mesh_node::commit::{CommitAction, CommitError, CommitEvent, StreamCommit, WriteOutcome};
use av_mesh_node::live_state::LiveState;
use av_mesh_node::media::{decode_canonical_stream_object, LiveMediaKind, LiveSlotPayload};
use av_mesh_node::playlist::{
    find_init, join_parts, next_part, playlist_for_stream, scan_media_kind, scan_slots,
    segment_parts, tail_slots, wait_step, PlaylistCache, PlaylistTimings, StreamSlot, WaitStep,
    LLHLS_TAIL_WAIT_MS, PART_WAIT_MS,
};
use media_object::ObjectKind::{Discontinuity, Initialization, Media};
use av_mesh_node::window::{
    canonical_gap_count, estimated_storage_bytes, gap_range, latest_present, measure_slots, replica_request_from_slot,
    sorted_unique, stats, stream_telemetry, window_first, CacheStream, LiveConfig, SlotInfo,
};

const NOW: u64 = 1_784_102_400_000;

fn config(window_parts: usize) -> LiveConfig {
    LiveConfig { stream_id: 1, part_target_ms: 50, parts_per_segment: 2, window_parts }
}

fn timings() -> PlaylistTimings {
    PlaylistTimings {
        target_duration: 1,
        part_target: "0.500".into(),
        part_hold_back: "1.500".into(),
        hold_back: "3.000".into(),
        segment_duration: "1.000".into(),
    }
}

fn fmp4_slot(init: Option<&[u8]>, media: &[u8]) -> Vec<u8> {
    let init = init.unwrap_or_default();
    let mut out = b"AVFMP4S1".to_vec();
    out.extend_from_slice(&(init.len() as u32).to_be_bytes());
    out.extend_from_slice(&(media.len() as u32).to_be_bytes());
    out.extend_from_slice(init);
    out.extend_from_slice(media);
    out
}

fn canonical(
    stream: &str,
    epoch: u64,
    sequence: u64,
    kind: media_object::ObjectKind,
    payload: &[u8],
) -> Vec<u8> {
    let track = match kind {
        media_object::ObjectKind::Media | media_object::ObjectKind::Discontinuity => "muxed-fmp4",
        _ => "muxed-fmp4-init",
    };
    let key = media_object::ObjectKey::for_payload(
        "default", stream, track, epoch, 0, sequence, 1, payload,
    )
    .unwrap();
    let object = media_object::MediaObject::builder(key, kind, payload.to_vec())
        .with_metadata("container", b"fmp4".to_vec())
        .build()
        .unwrap();
    media_object::encode(&object).unwrap()
}

/// The slots of one stream, with the operations that a commit asks for.
#[derive(Default)]
struct Slots {
    init: Option<Vec<u8>>,
    slots: BTreeMap<usize, Vec<u8>>,
}

impl Slots {
    fn commit(
        &mut self,
        state: &mut LiveState,
        stream_id: u64,
        payload: &[u8],
    ) -> Result<u64, CommitError> {
        let (mut commit, mut action) = StreamCommit::begin(state, 1, 6, stream_id, payload, NOW)?;
        loop {
            let event = match action {
                CommitAction::ZeroStream => {
                    self.slots.clear();
                    self.init = None;
                    CommitEvent::Zeroed
                }
                CommitAction::SetInitialization(init) => {
                    self.init = Some(init);
                    CommitEvent::Initialized(Ok(()))
                }
                CommitAction::PutIfAbsent { slot, .. } => {
                    let held = self.slots.entry(slot).or_insert_with(|| payload.to_vec());
                    CommitEvent::Written(if held.as_slice() == payload {
                        WriteOutcome::Stored
                    } else {
                        WriteOutcome::Conflict
                    })
                }
                CommitAction::Add { slot } => {
                    self.slots.insert(slot, payload.to_vec());
                    CommitEvent::Written(WriteOutcome::Stored)
                }
                CommitAction::Finished(result) => return result,
            };
            action = commit.resume(state, event, NOW, NOW * 1_000);
        }
    }

    fn infos(&self) -> Vec<SlotInfo> {
        self.slots
            .iter()
            .map(|(slot, payload)| SlotInfo {
                seq: *slot as u64,
                bytes: payload.len(),
                hash: 1,
            })
            .collect()
    }

    fn gaps(&self, state: &LiveState) -> Option<u64> {
        let stream = state.streams.get(&1).unwrap();
        let range = gap_range(stream.subscription_base_object, stream.latest_canonical_object, 6);
        let found = match range {
            Some((from, to)) => (from..=to)
                .map(|sequence| self.slots.contains_key(&(sequence as usize)))
                .collect(),
            None => Vec::new(),
        };
        canonical_gap_count(range, &found)
    }
}

#[test]
fn canonical_source_epoch_switch_resets_only_the_stream_and_rejects_stale_objects() {
    let mut state = LiveState::new(NOW * 1_000, 0, NOW);
    let mut other = Slots::default();
    other.commit(&mut state, 5, b"other-stream").unwrap();
    let mut slots = Slots::default();
    for sequence in 0..=1 {
        let payload = format!("epoch-41-{sequence}");
        let object = canonical("1", 41, sequence, Media, payload.as_bytes());
        assert_eq!(slots.commit(&mut state, 1, &object).unwrap(), sequence);
    }
    let inherited = state.streams.get(&1).unwrap();
    assert_eq!(inherited.canonical_epoch, Some(41));
    assert_eq!(inherited.latest_canonical_object, Some(1));
    assert_eq!(
        inherited.canonical_epoch_activation_delay_us, None,
        "an epoch inherited by a newly started relay has no activation measurement"
    );

    let init = canonical("1", 42, 0, Initialization, b"epoch-42-init");
    slots.commit(&mut state, 1, &init).unwrap();
    let media = canonical("1", 42, 0, Media, b"epoch-42-0");
    slots.commit(&mut state, 1, &media).unwrap();
    let switched = state.streams.get(&1).unwrap();
    assert_eq!(switched.canonical_epoch, Some(42));
    assert_eq!(
        switched.canonical_epoch_activation_delay_us,
        Some(NOW * 1_000 - 42)
    );
    assert_eq!(switched.latest_canonical_object, Some(0));
    assert_eq!(slots.gaps(&state), Some(0));
    assert_eq!(slots.init.as_deref(), Some(&b"epoch-42-init"[..]));
    assert!(!slots.slots.contains_key(&1));
    assert_eq!(state.streams.get(&5).unwrap().next_seq, Some(1));

    let stale = canonical("1", 41, 2, Media, b"stale-epoch-41-2");
    let error = slots.commit(&mut state, 1, &stale).unwrap_err();
    assert!(error.message().contains("stale canonical source epoch"));
    assert_eq!(state.streams.get(&1).unwrap().canonical_epoch, Some(42));

    for (sequence, gaps) in [(1, 0), (3, 1), (2, 0)] {
        let payload = format!("epoch-42-{sequence}");
        let object = canonical("1", 42, sequence, Media, payload.as_bytes());
        slots.commit(&mut state, 1, &object).unwrap();
        assert_eq!(slots.gaps(&state), Some(gaps));
    }
    assert_eq!(state.streams.get(&1).unwrap().latest_canonical_object, Some(3));
    let account = stats(&state, &config(6), &slots.infos(), slots.gaps(&state), Vec::new(), NOW);
    assert_eq!(account.head_object, Some(3));
    assert_eq!(account.canonical_epoch, Some(42));
    assert_eq!(account.gap_count, Some(0));
}

#[test]
fn commits_report_what_went_wrong() {
    let mut state = LiveState::new(NOW * 1_000, 0, NOW);
    let mut slots = Slots::default();
    assert_eq!(
        slots.commit(&mut state, 1, b"MOBJ-not-an-object").unwrap_err().message(),
        "invalid canonical media-object envelope"
    );
    let elsewhere = canonical("7", 1, 0, Media, b"x");
    assert_eq!(
        slots.commit(&mut state, 1, &elsewhere).unwrap_err().message(),
        "canonical media-object stream 7 does not match carrier stream 1"
    );
    let first = canonical("1", 1, 0, Media, b"first");
    slots.commit(&mut state, 1, &first).unwrap();
    slots.commit(&mut state, 1, &first).unwrap();
    let second = canonical("1", 1, 0, Media, b"second");
    assert_eq!(
        slots.commit(&mut state, 1, &second).unwrap_err().message(),
        "canonical media-object identity conflict for stream 1 sequence 0"
    );
    let (mut commit, action) =
        StreamCommit::begin(&mut state, 1, 6, 9, b"plain", NOW).unwrap();
    assert!(matches!(action, CommitAction::Add { slot: 0 }));
    let failed = commit.resume(
        &mut state,
        CommitEvent::Written(WriteOutcome::Failed("full".into())),
        NOW,
        NOW * 1_000,
    );
    match failed {
        CommitAction::Finished(Err(error)) => assert_eq!(
            error.message(),
            "stream-prefixed chunk cache write failed: full"
        ),
        other => panic!("{other:?}"),
    }
    let init = canonical("1", 1, 0, media_object::ObjectKind::Initialization, b"init");
    let (mut commit, action) = StreamCommit::begin(&mut state, 1, 6, 1, &init, NOW).unwrap();
    assert!(matches!(action, CommitAction::SetInitialization(_)));
    match commit.resume(
        &mut state,
        CommitEvent::Initialized(Err("full".into())),
        NOW,
        NOW * 1_000,
    ) {
        CommitAction::Finished(Err(error)) => assert_eq!(
            error.message(),
            "stream initialization cache write failed: full"
        ),
        other => panic!("{other:?}"),
    }
    let third = canonical("1", 1, 3, Media, b"third");
    let (mut commit, _) = StreamCommit::begin(&mut state, 1, 6, 1, &third, NOW).unwrap();
    match commit.resume(
        &mut state,
        CommitEvent::Written(WriteOutcome::Failed("full".into())),
        NOW,
        NOW * 1_000,
    ) {
        CommitAction::Finished(Err(error)) => {
            assert_eq!(error.message(), "canonical stream cache write failed: full")
        }
        other => panic!("{other:?}"),
    }
}

#[test]
fn objects_are_committed_once_by_their_own_numbers_in_any_order() {
    let mut state = LiveState::new(NOW * 1_000, 0, NOW);
    let mut slots = Slots::default();
    let init = canonical("77", 0, 0, Initialization, b"ftypmoov");
    slots.commit(&mut state, 77, &init).unwrap();
    let one = canonical("77", 0, 1, Media, b"moofmdat-one");
    let zero = canonical("77", 0, 0, Media, b"moofmdat-zero");
    assert_eq!(slots.commit(&mut state, 77, &one).unwrap(), 1);
    assert_eq!(slots.commit(&mut state, 77, &zero).unwrap(), 0);
    assert_eq!(slots.init.as_deref(), Some(&b"ftypmoov"[..]));
    assert_eq!(state.stream_init(77).as_deref(), Some(&b"ftypmoov"[..]));
    assert_eq!(
        state.read_part(77, &slots.slots[&0]).as_deref(),
        Some(&b"moofmdat-zero"[..])
    );
    assert_eq!(
        state.read_part(77, &slots.slots[&1]).as_deref(),
        Some(&b"moofmdat-one"[..])
    );
    assert_eq!(state.streams.get(&77).unwrap().next_seq, Some(2));
    assert_eq!(state.streams.get(&77).unwrap().subscription_base_object, Some(1));

    let held = slots.slots.clone();
    let there = state.part_available_unix_us(77, 0);
    assert_eq!(slots.commit(&mut state, 77, &zero).unwrap(), 0);
    assert_eq!(slots.slots, held);
    assert_eq!(state.part_available_unix_us(77, 0), there);

    let conflicting = canonical("77", 0, 0, Media, b"different-object-at-zero");
    assert_eq!(
        slots.commit(&mut state, 77, &conflicting).unwrap_err().message(),
        "canonical media-object identity conflict for stream 77 sequence 0"
    );
    assert_eq!(slots.slots, held);
    assert_eq!(
        state.read_part(77, &slots.slots[&0]).as_deref(),
        Some(&b"moofmdat-zero"[..])
    );
    assert_eq!(state.streams.get(&77).unwrap().latest_canonical_object, Some(1));

    let elsewhere = canonical("78", 0, 2, Media, b"cross-stream-object");
    assert!(slots.commit(&mut state, 77, &elsewhere).is_err());
    assert_eq!(slots.slots, held);
    assert_eq!(state.read_part(77, &elsewhere), None);
}

#[test]
fn requests_wait_until_their_deadline() {
    assert_eq!(wait_step(3_000, 5_000, true), WaitStep::Return);
    assert_eq!(wait_step(3_000, 3_000, false), WaitStep::GiveUp);
    assert_eq!(wait_step(3_000, 2_750, false), WaitStep::Wait { ms: 250 });
    assert_eq!(PART_WAIT_MS, 3_000);
    assert_eq!(LLHLS_TAIL_WAIT_MS, 250);
}

#[test]
fn fmp4_stream_slots_emit_mp4_playlist_and_media() {
    let mut state = LiveState::new(NOW * 1_000, 0, NOW);
    let mut slots = Slots::default();
    slots
        .commit(&mut state, 77, &fmp4_slot(Some(b"ftypmoov"), b"moofmdat-a"))
        .unwrap();
    slots
        .commit(&mut state, 77, &fmp4_slot(None, b"moofmdat-b"))
        .unwrap();
    let stored: Vec<StreamSlot> = slots
        .slots
        .iter()
        .map(|(slot, payload)| StreamSlot {
            seq: *slot as u64,
            payload: payload.clone(),
            hash: 3,
        })
        .collect();
    let scan = scan_slots(&stored, 77);
    assert_eq!(scan.available, vec![0, 1]);
    assert_eq!(scan_media_kind(&scan, None), LiveMediaKind::Fmp4);
    let hint = state.media_kind_hint(77);
    let playlist = playlist_for_stream(&timings(), 2, Some(1), &scan, hint, true);
    assert!(playlist.contains("#EXT-X-MAP:URI=\"init.mp4\""));
    assert!(playlist.contains("part0.mp4"));
    assert!(playlist.contains("part1.mp4"));
    assert!(playlist.contains("seg0.mp4"));
    assert!(playlist.contains("#EXT-X-PRELOAD-HINT:TYPE=PART,URI=\"part2.mp4\""));
    assert!(!playlist.contains("AVFMP4S1"));

    assert_eq!(find_init(&stored, 77).as_deref(), Some(&b"ftypmoov"[..]));
    assert_eq!(state.stream_init(77).as_deref(), Some(&b"ftypmoov"[..]));
    assert_eq!(
        state.read_part(77, &stored[0].payload).as_deref(),
        Some(&b"moofmdat-a"[..])
    );
    assert!(state.part_available_unix_us(77, 0).is_some_and(|us| us > 0));
    let numbers = segment_parts(0, 2).unwrap();
    let parts: Vec<Vec<u8>> = numbers
        .iter()
        .map(|number| state.read_part(77, &stored[*number as usize].payload).unwrap())
        .collect();
    assert_eq!(join_parts(&parts), b"moofmdat-amoofmdat-b");
    assert_eq!(
        next_part(&mut state, 77, &stored),
        Some((0, b"moofmdat-a".to_vec(), 3))
    );
}

#[test]
fn playlist_uses_replicated_cache_parts() {
    let slot = |seq: u64| StreamSlot {
        seq,
        payload: format!("part{seq}").into_bytes(),
        hash: 1,
    };
    let scan = scan_slots(&vec![slot(0), slot(1)], 1);
    let playlist = playlist_for_stream(&timings(), 2, Some(1), &scan, None, false);
    assert!(playlist.contains("#EXT-X-PART:DURATION=0.500,URI=\"part0.ts\"\n"));
    assert!(playlist.contains("part1.ts"));
    assert!(playlist.contains("seg0.ts"));
    let scan = scan_slots(&vec![slot(0)], 77);
    let playlist = playlist_for_stream(&timings(), 2, Some(0), &scan, None, false);
    assert!(playlist.contains("part0.ts"));
    assert!(!playlist.contains("seg0"));
    assert!(playlist.contains("#EXT-X-PRELOAD-HINT"));
    let none = scan_slots(&Vec::new(), 1);
    let empty = playlist_for_stream(&timings(), 2, None, &none, None, false);
    assert!(empty.starts_with("#EXTM3U\n#EXT-X-VERSION:9\n"));
    assert!(!empty.contains("#EXT-X-PART:"));
}

#[test]
fn cached_playlist_invalidates_when_a_stream_slot_changes() {
    let mut cache = PlaylistCache::new(4);
    let body = "playlist".to_owned();
    cache.cache_playlist(1, 2, 10, Some(10), &body);
    assert_eq!(cache.cached_playlist(1, 2, 10), Some(body.clone()));
    assert_eq!(cache.cached_playlist(1, 2, 11), None);
    assert_eq!(cache.cached_playlist(2, 2, 10), None);
    cache.cache_playlist(1, 2, 11, Some(12), &body);
    assert_eq!(cache.cached_playlist(1, 2, 11), None);
    cache.forget_stream(1);
    assert_eq!(cache.cached_playlist(1, 2, 10), None);
}

#[test]
fn canonical_slots_are_read_for_their_stream_only() {
    let media = canonical("1", 0, 0, Media, b"media");
    assert_eq!(LiveSlotPayload::decode_for_stream(&media, 1).media(), b"media");
    assert!(!LiveSlotPayload::decode_for_stream(&media, 2).has_media());
    assert!(LiveSlotPayload::decode(&media).has_media());
    let init = canonical("1", 0, 0, Initialization, b"init");
    let slot = LiveSlotPayload::decode(&init);
    assert_eq!(slot.init().as_deref(), Some(&b"init"[..]));
    assert!(!slot.has_media());
    let gap = canonical("1", 0, 0, Discontinuity, b"gap");
    assert!(!LiveSlotPayload::decode(&gap).has_media());
    assert!(matches!(
        LiveSlotPayload::decode(b"MOBJ?"),
        LiveSlotPayload::Invalid
    ));
    assert_eq!(LiveSlotPayload::decode(b"raw").media(), b"raw");
    assert_eq!(LiveSlotPayload::decode(b"raw").media_kind(), LiveMediaKind::Ts);
    let bundle = fmp4_slot(Some(b"i"), b"m");
    assert!(LiveSlotPayload::decode_fmp4_slot(&bundle[..17]).is_none());
    assert!(LiveSlotPayload::decode_fmp4_slot(&bundle).is_some());
    assert!(decode_canonical_stream_object(b"raw").unwrap().is_none());
    assert!(decode_canonical_stream_object(b"MOBJ?").is_err());
    let object = decode_canonical_stream_object(&media).unwrap().unwrap();
    assert_eq!(object.stream, "1");
    assert_eq!(object.payload, b"media");
    assert!(object.is_fmp4());
}

#[test]
fn parts_are_cut_by_size_and_by_time() {
    const TARGET: u64 = 50_000_000;
    let mut state = LiveState::new(0, 1_000, NOW);
    assert!(state.push_payload(b"abc", 1_000, NOW, TARGET, 10).is_none());
    assert!(state.rotate_if_due(false, 1_000 + TARGET - 1, NOW, TARGET).is_none());
    let part = state.rotate_if_due(false, 1_000 + TARGET, NOW + 50, TARGET).unwrap();
    assert_eq!(part.seq, 0);
    assert_eq!(part.data, b"abc");
    assert_eq!(part.bytes, 3);
    assert_eq!(part.duration_ms, 50);
    state.commit_part(1, &part, NOW * 1_000, 6);
    assert_eq!(state.counters.last_committed_seq, Some(0));
    assert_eq!(state.counters.bytes_received, 3);
    assert!(state.rotate_if_due(true, 1_000 + TARGET, NOW, TARGET).is_none());
    state.push_payload(b"xyz", 1_000 + TARGET, NOW, TARGET, 10);
    assert_eq!(state.rotate_if_due(true, 1_000 + TARGET, NOW, TARGET).unwrap().seq, 1);
}

#[test]
fn idle_stream_retirement_releases_cache_and_auxiliary_state() {
    let mut state = LiveState::new(0, 0, NOW);
    let mut slots = Slots::default();
    slots.commit(&mut state, 77, b"payload").unwrap();
    slots.commit(&mut state, 1, b"payload").unwrap();
    assert!(!state.is_idle(77, NOW - 1));
    assert!(state.is_idle(77, NOW));
    assert_eq!(state.idle_streams(1, NOW + 1), vec![77]);
    state.forget_stream(77);
    assert!(state.streams.get(&77).is_none());
    assert_eq!(state.idle_streams(1, NOW + 1), Vec::<u64>::new());
}

#[test]
fn windows_measure_what_they_hold() {
    let slot = |seq: u64, bytes: usize| SlotInfo { seq, bytes, hash: if bytes > 0 { 1 } else { 0 } };
    let slots = vec![slot(0, 5), slot(1, 0), slot(2, 7), slot(3, 0)];
    assert_eq!(window_first(9, 6), 4);
    assert_eq!(window_first(2, 6), 0);
    assert_eq!(latest_present(&slots).unwrap().seq, 2);
    assert_eq!(measure_slots(&slots), (12, 2));
    assert_eq!(estimated_storage_bytes(&vec![12, u64::MAX]), u64::MAX);
    assert_eq!(gap_range(Some(2), Some(9), 6), Some((4, 9)));
    assert_eq!(gap_range(None, Some(9), 6), None);
    assert_eq!(canonical_gap_count(Some((4, 6)), &vec![true, false, false]), Some(2));
    assert_eq!(canonical_gap_count(None, &Vec::new()), None);
    assert_eq!(replica_request_from_slot(3, &vec![true, true, false]), 5);
    assert_eq!(replica_request_from_slot(3, &vec![true]), 4);
    assert_eq!(replica_request_from_slot(3, &Vec::new()), 3);
    assert_eq!(replica_request_from_slot(usize::MAX, &vec![true]), usize::MAX);
    assert_eq!(sorted_unique(&vec![3, 1, 3, 2]), vec![1, 2, 3]);
    assert_eq!(tail_slots(9, Some(7), false, 6), vec![8, 9]);
    assert_eq!(tail_slots(9, None, true, 6), vec![4, 5, 6, 7, 8, 9]);
    let state = LiveState::new(0, 0, NOW);
    let mut counted = LiveState::new(0, 0, NOW);
    counted.count_access_unit(5, NOW);
    assert_eq!(counted.counters.bytes_received, 5);
    assert_eq!(counted.counters.datagrams_received, 1);
    let own = stats(&state, &config(6), &slots, None, vec!["peer:1".into()], NOW);
    assert_eq!(own.mesh_peers, vec!["peer:1"]);
    assert_eq!(own.stream_id_text, "1");
    let accounts = stream_telemetry(
        &"node".to_owned(),
        &config(6),
        &own,
        &state,
        &vec![CacheStream { stream_id: 77, slots, gap_count: None }],
    );
    assert!(accounts.iter().any(|account| account.stream_id == 77
        && account.latest_mesh_part == Some(2)));
}
