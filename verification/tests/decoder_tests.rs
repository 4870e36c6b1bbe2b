use termusic::decoder::calc_time_nanos;
use termusic::decoder::do_container_metadata;
use termusic::decoder::do_inline_metadata;
use termusic::decoder::find_title_metadata;
use termusic::decoder::get_duration;
use termusic::decoder::is_codec_null;
use termusic::decoder::select_track;
use termusic::decoder::CodecKind;
use termusic::decoder::DemuxError;
use termusic::decoder::MediaTitleType;
use termusic::decoder::MetaTag;
use termusic::decoder::MetadataTrigger;
use termusic::decoder::PacketAction;
use termusic::decoder::SampleBuffer;
use termusic::decoder::SampleStep;
use termusic::decoder::SeekAttempt;
use termusic::decoder::StdTagValue;
use termusic::decoder::Symphonia;
use termusic::decoder::SymphoniaDecoderError;
use termusic::decoder::TimeBase;
use termusic::decoder::TrackMeta;

fn audio_track(id: u32, codec: CodecKind) -> TrackMeta {
    TrackMeta {
        id,
        codec,
        time_base: Some(TimeBase { numer: 1, denom: 44100 }),
        n_frames: Some(44100),
    }
}

fn engine(listener: bool) -> Symphonia {
    Symphonia::new(&audio_track(1, CodecKind::OtherAudio), listener)
}

/// Feed one decoded segment through the routing and decode steps, as the
/// pull path would, returning the segment's samples when it played.
fn feed(
    engine: &mut Symphonia,
    ts: u64,
    samples: &Vec<i16>,
    decode_fails: bool,
) -> Option<Vec<i16>> {
    match engine.packet_action(1, ts) {
        PacketAction::Skip => None,
        PacketAction::Decode => {
            if decode_fails {
                // a malformed packet: non-fatal, the loop reads on
                let fatal = Symphonia::decode_error_fatal(&DemuxError::DecodeError(
                    "bad packet".to_string(),
                ));
                assert!(!fatal);
                None
            } else {
                engine.apply_decoded(ts, 1, 44100, samples, samples.len());
                let mut got: Vec<i16> = Vec::new();
                loop {
                    match engine.next_sample() {
                        SampleStep::Sample(s) => got.push(s),
                        _ => break,
                    }
                }
                Some(got)
            }
        }
    }
}

#[test]
fn track_selector_skips_null_codec_default() {
    // a 3-track container where track 0 is video (null codec) and track 1
    // is audio: the selector must choose track 1
    let tracks = vec![
        audio_track(0, CodecKind::Null),
        audio_track(1, CodecKind::OtherAudio),
        audio_track(2, CodecKind::OtherAudio),
    ];
    assert_eq!(select_track(&tracks, Some(0)), Some(1));
    assert_eq!(select_track(&tracks, None), Some(1));
    assert_eq!(select_track(&tracks, Some(2)), Some(2));
    let none = vec![audio_track(0, CodecKind::Null)];
    assert_eq!(select_track(&none, Some(0)), None);
    assert!(is_codec_null(&none[0]));
}

#[test]
fn decode_error_mid_stream_keeps_playing() {
    // a packet decode error on packet 5 of 10: packets 1-4 and 6-10 still
    // yield their samples, only packet 5 contributes none
    let mut e = engine(false);
    let mut yielded: Vec<i16> = Vec::new();
    for packet in 1u64..=10 {
        let samples: Vec<i16> = vec![packet as i16; 4];
        let fails = packet == 5;
        if let Some(got) = feed(&mut e, packet * 4, &samples, fails) {
            yielded.extend(got);
        }
    }
    let expected: Vec<i16> = (1u64..=10)
        .filter(|p| *p != 5)
        .flat_map(|p| vec![p as i16; 4])
        .collect();
    assert_eq!(yielded, expected);
}

#[test]
fn end_of_stream_is_permanent() {
    let mut e = engine(false);
    let samples: Vec<i16> = vec![7, 8];
    assert_eq!(e.packet_action(1, 0), PacketAction::Decode);
    e.apply_decoded(0, 1, 44100, &samples, 2);
    assert!(matches!(e.next_sample(), SampleStep::Sample(7)));
    assert!(matches!(e.next_sample(), SampleStep::Sample(8)));
    assert!(matches!(e.next_sample(), SampleStep::NeedRefill));
    e.end_of_stream();
    for _ in 0..100 {
        assert!(matches!(e.next_sample(), SampleStep::Ended));
    }
}

#[test]
fn buffer_reuse_only_grows() {
    let mut b = SampleBuffer::new();
    assert_eq!(b.alloc_count(), 0);
    let big: Vec<i16> = vec![1; 64];
    b.maybe_reuse_buffer(&big, 32);
    assert_eq!(b.alloc_count(), 1);
    // equal capacity: no reallocation
    let same: Vec<i16> = vec![2; 64];
    b.maybe_reuse_buffer(&same, 32);
    assert_eq!(b.alloc_count(), 1);
    // smaller: still no reallocation, and no stale tail is readable
    let small: Vec<i16> = vec![3; 8];
    b.maybe_reuse_buffer(&small, 4);
    assert_eq!(b.alloc_count(), 1);
    assert_eq!(b.len(), 8);
    assert_eq!(b.frame_len(), 4);
    assert_eq!(b.sample_at(7), 3);
    // strictly larger: exactly one reallocation, sized to the segment
    let larger: Vec<i16> = vec![4; 65];
    b.maybe_reuse_buffer(&larger, 65);
    assert_eq!(b.alloc_count(), 2);
    assert_eq!(b.len(), 65);
}

#[test]
fn seek_records_threshold_and_skips() {
    // seeking may land before the target: packets before the requested
    // timestamp are discarded, and the first at or past it plays
    let mut e = engine(false);
    let reset = e.try_seek(&SeekAttempt::SeekedTo { required_ts: 100, actual_ts: 40 });
    assert!(!reset);  // not the mp3 family
    assert_eq!(e.packet_action(1, 40), PacketAction::Skip);
    assert_eq!(e.packet_action(1, 99), PacketAction::Skip);
    assert_eq!(e.packet_action(2, 100), PacketAction::Skip);  // other track
    assert_eq!(e.packet_action(1, 100), PacketAction::Decode);
    // the threshold is cleared once reached
    assert_eq!(e.packet_action(1, 40), PacketAction::Decode);
}

#[test]
fn later_seek_clears_stale_threshold() {
    // seek far ahead, landing short: a threshold is pending
    let mut e = engine(true);
    e.try_seek(&SeekAttempt::SeekedTo { required_ts: 5000, actual_ts: 4000 });
    assert_eq!(e.packet_action(1, 4000), PacketAction::Skip);
    // seek back to the start, landing on target: the old threshold is
    // gone, the first packet plays, and container metadata re-fires
    e.try_seek(&SeekAttempt::SeekedTo { required_ts: 0, actual_ts: 0 });
    assert_eq!(e.packet_action(1, 0), PacketAction::Decode);
    let samples: Vec<i16> = vec![1; 2];
    let trigger = e.apply_decoded(0, 1, 44100, &samples, 2);
    assert_eq!(trigger, MetadataTrigger::Container);
}

#[test]
fn seek_failure_is_noop_and_mp3_resets() {
    let mut e = engine(false);
    let samples: Vec<i16> = vec![5; 6];
    e.packet_action(1, 0);
    e.apply_decoded(0, 2, 48000, &samples, 3);
    assert!(matches!(e.next_sample(), SampleStep::Sample(5)));
    let reset = e.try_seek(&SeekAttempt::Failed);
    assert!(!reset);
    // a failed underlying seek changes nothing: playback continues
    assert!(matches!(e.next_sample(), SampleStep::Sample(5)));

    let mut mp3 = Symphonia::new(&audio_track(1, CodecKind::Mp3), false);
    assert!(mp3.try_seek(&SeekAttempt::SeekedTo { required_ts: 0, actual_ts: 0 }));
}

#[test]
fn seek_to_zero_reemits_container_metadata() {
    let mut e = engine(true);
    let samples: Vec<i16> = vec![1; 4];
    // play past the start
    assert_eq!(e.packet_action(1, 0), PacketAction::Decode);
    e.apply_decoded(0, 1, 44100, &samples, 4);
    assert_eq!(e.packet_action(1, 4410), PacketAction::Decode);
    let mid = e.apply_decoded(4410, 1, 44100, &samples, 4);
    assert_eq!(mid, MetadataTrigger::Inline);
    // seek back to zero, decode the first packet again
    e.try_seek(&SeekAttempt::SeekedTo { required_ts: 0, actual_ts: 0 });
    let trigger = e.apply_decoded(0, 1, 44100, &samples, 4);
    assert_eq!(trigger, MetadataTrigger::Container);
    // container extraction emits exactly one reset, then the title
    let tags = vec![
        MetaTag { std: Some(StdTagValue::Other) },
        MetaTag { std: Some(StdTagValue::TrackTitle("Morning Show".to_string())) },
    ];
    let events = do_container_metadata(&Some(tags));
    assert_eq!(
        events,
        vec![
            MediaTitleType::Reset,
            MediaTitleType::Value("Morning Show".to_string())
        ]
    );
    let none = do_container_metadata(&None);
    assert_eq!(none, vec![MediaTitleType::Reset]);
}

#[test]
fn no_listener_means_no_extraction() {
    let mut e = engine(false);
    assert!(!e.needs_metadata());
    let samples: Vec<i16> = vec![1; 4];
    e.packet_action(1, 0);
    let trigger = e.apply_decoded(0, 1, 44100, &samples, 4);
    // even at position zero, with no listener the trigger stays off
    assert_eq!(trigger, MetadataTrigger::NoListener);
}

#[test]
fn inline_metadata_only_with_title() {
    let with = vec![MetaTag { std: Some(StdTagValue::TrackTitle("Live".to_string())) }];
    assert_eq!(
        do_inline_metadata(&Some(with)),
        vec![MediaTitleType::Value("Live".to_string())]
    );
    let without = vec![MetaTag { std: None }];
    assert_eq!(do_inline_metadata(&Some(without)), vec![]);
    assert_eq!(do_inline_metadata(&None), vec![]);
    assert_eq!(
        find_title_metadata(&vec![MetaTag { std: Some(StdTagValue::Other) }]),
        None
    );
}

#[test]
fn total_duration_matches_drained_stream() {
    // a one-second single-track file: the duration computed before
    // decoding equals the elapsed position a full contiguous drain
    // reaches (the sum of the per-segment deltas)
    let track = audio_track(1, CodecKind::OtherAudio);
    let total = get_duration(&track).unwrap();
    assert_eq!(total, 1_000_000_000);
    let mut e = Symphonia::new(&track, false);
    let frames_per_packet: u64 = 4410;
    let mut ts: u64 = 0;
    let samples: Vec<i16> = vec![0; frames_per_packet as usize];
    let mut delta_sum: u128 = 0;
    let mut last: u128 = 0;
    while ts < 44100 {
        e.packet_action(1, ts);
        e.apply_decoded(ts + frames_per_packet, 1, 44100, &samples, samples.len());
        let tb = TimeBase { numer: 1, denom: 44100 };
        let now = calc_time_nanos(&tb, ts + frames_per_packet);
        delta_sum += now - last;
        last = now;
        ts += frames_per_packet;
    }
    assert_eq!(delta_sum, total);
}

#[test]
fn construction_error_mapping() {
    let e = Symphonia::common_new(Err(DemuxError::Unsupported("mystery".to_string())));
    assert!(matches!(e, Err(SymphoniaDecoderError::UnrecognizedFormat)));
    let e = Symphonia::common_new(Err(DemuxError::IoError("gone".to_string())));
    match e {
        Err(SymphoniaDecoderError::IoError(m)) => assert_eq!(m, "gone"),
        _ => panic!("wrong mapping"),
    }
    let e = Symphonia::common_new(Err(DemuxError::ResetRequired));
    assert!(matches!(e, Err(SymphoniaDecoderError::ResetRequired)));
    let e = Symphonia::common_new(Ok(None));
    assert!(matches!(e, Err(SymphoniaDecoderError::NoStreams)));
    assert_eq!(
        Symphonia::common_new(Err(DemuxError::ResetRequired))
            .unwrap_err()
            .message(),
        "Reset required"
    );
}

#[test]
fn engine_reports_latest_spec() {
    let mut e = engine(false);
    let samples: Vec<i16> = vec![0; 6];
    e.packet_action(1, 0);
    e.apply_decoded(0, 2, 48000, &samples, 3);
    assert_eq!(e.channels(), 2);
    assert_eq!(e.sample_rate(), 48000);
    assert_eq!(e.current_frame_len(), Some(3));
    assert_eq!(e.total_duration(), Some(1_000_000_000));
    // a mid-stream spec change is reflected, not the construction-time one
    e.packet_action(1, 6);
    e.apply_decoded(6, 1, 22050, &samples, 6);
    assert_eq!(e.channels(), 1);
    assert_eq!(e.sample_rate(), 22050);
}

#[test]
fn calc_time_exact() {
    let tb = TimeBase { numer: 1, denom: 90000 };
    assert_eq!(calc_time_nanos(&tb, 90000), 1_000_000_000);
    assert_eq!(calc_time_nanos(&tb, 45000), 500_000_000);
    assert_eq!(calc_time_nanos(&tb, 0), 0);
    let odd = TimeBase { numer: 3, denom: 7 };
    assert_eq!(calc_time_nanos(&odd, 5), 5_000_000_000u128 * 3 / 7);
}
