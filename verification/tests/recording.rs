use snipd::capture::win::{Bounds, VirtualDesktop};
use snipd::capture::CaptureKind;
use snipd::clock::LocalTime;
use snipd::commands::{start_recording, stop_recording};
use snipd::config::{NamingMode, Settings};
use snipd::record::audio::{
    describe, gap_frames, packet, probe_format, settled_ns, silence, to_pcm16, AudioFormat,
    SoundTrack, SourceFormat,
};
use snipd::record::encoder::{pack, Encoder, H264_PROFILE_HIGH};
use snipd::record::{
    announce_recording, bar_position, start, Pace, Pacer, RecordingOutcome, RecordingRequest,
    RecordingStatus,
};

const DESKTOP: VirtualDesktop = VirtualDesktop { x: 0, y: 0, width: 1920, height: 1080 };

fn request(width: u32, height: u32) -> RecordingRequest {
    RecordingRequest {
        bounds: Bounds { x: 0, y: 0, width, height },
        fps: 30,
        scale_percent: 100,
        bitrate_mbps: 12,
    }
}

fn percent(side: u32, percent: u32) -> u32 {
    (side as u64 * percent as u64 / 100) as u32
}

#[test]
fn recordings_are_planned() {
    let plan = start(request(1280, 720), DESKTOP, percent, |pixels| {
        assert_eq!(pixels, 1280 * 720 * 30);
        1_000_000
    })
    .unwrap();
    assert_eq!((plan.target_width, plan.target_height), (1280, 720));
    assert_eq!((plan.fps, plan.bitrate), (30, 12_000_000));
}

#[test]
fn wishes_are_kept_within_bounds() {
    let wild = RecordingRequest { fps: 500, scale_percent: 3, bitrate_mbps: 0, ..request(64, 64) };
    let plan = start(wild, DESKTOP, percent, |_| 70_000_000).unwrap();
    assert_eq!(plan.fps, 60);
    // A quarter of the side, and the least that can be encoded.
    assert_eq!((plan.target_width, plan.target_height), (16, 16));
    assert_eq!(plan.bitrate, 60_000_000);
    let slow = RecordingRequest { fps: 1, bitrate_mbps: 0, ..request(64, 64) };
    let plan = start(slow, DESKTOP, percent, |_| 5).unwrap();
    assert_eq!((plan.fps, plan.bitrate), (5, 1_000_000));
    let starved = start(request(64, 64), DESKTOP, percent, |_| 20_000_000).unwrap();
    assert_eq!(starved.bitrate, 20_000_000);
}

#[test]
fn areas_have_to_be_on_the_desktop() {
    let off = RecordingRequest {
        bounds: Bounds { x: 5000, y: 0, width: 100, height: 100 },
        ..request(1, 1)
    };
    assert_eq!(
        start(off, DESKTOP, percent, |_| 0).unwrap_err(),
        "the recording area is off screen"
    );
    assert_eq!(
        start(request(15, 100), DESKTOP, percent, |_| 0).unwrap_err(),
        "the recording area is too small"
    );
    let edge = RecordingRequest {
        bounds: Bounds { x: 1900, y: 0, width: 100, height: 100 },
        ..request(1, 1)
    };
    assert_eq!(start(edge, DESKTOP, percent, |_| 0).unwrap().source.width, 20);
}

#[test]
fn frames_keep_to_their_schedule() {
    let mut pacer = Pacer::new(25);
    assert_eq!(pacer.interval_ns, 40_000_000);
    assert_eq!(pacer.pace(0), Pace::Grab(0));
    pacer.advance(true);
    assert_eq!(pacer.pace(10_000_000), Pace::Grab(30_000_000));
    // A whole frame late is still in time.
    assert_eq!(pacer.pace(80_000_000), Pace::Grab(0));
    pacer.advance(false);
    assert_eq!((pacer.index, pacer.written, pacer.dropped), (2, 1, 1));
}

#[test]
fn late_frames_are_passed_over() {
    let mut pacer = Pacer::new(10);
    assert_eq!(pacer.pace(350_000_000), Pace::Skip);
    assert_eq!((pacer.index, pacer.written, pacer.dropped), (3, 0, 3));
    assert_eq!(pacer.pace(350_000_000), Pace::Grab(0));
    pacer.advance(true);
    assert_eq!(pacer.written + pacer.dropped, pacer.index);
}

#[test]
fn frames_are_timed_by_their_number() {
    let mut encoder = Encoder::create(10, 5, 11, 7, 30).unwrap();
    assert_eq!((encoder.target_width, encoder.target_height), (10, 6));
    let first = encoder.write_frame(200).unwrap();
    assert_eq!((first.size, first.time, first.duration), (200, 0, 333_333));
    encoder.count_frame();
    let second = encoder.write_frame(999).unwrap();
    assert_eq!(second.time, first.time + first.duration);
    assert_eq!(encoder.frames_written(), 1);
    assert_eq!(encoder.write_frame(199).unwrap_err(), "frame is 199 bytes, expected 200");
}

#[test]
fn videos_have_even_sides() {
    assert_eq!(
        Encoder::create(9, 9, 1, 100, 30).unwrap_err(),
        "the recording area is too small"
    );
    let e = Encoder::create(9, 9, 2, 3, 0).unwrap();
    assert_eq!((e.target_width, e.target_height, e.frame_duration), (2, 2, 10_000_000));
}

#[test]
fn frames_are_declared_from_the_top_down() {
    let e = Encoder::create(1366, 768, 1366, 768, 30).unwrap();
    assert_eq!(e.stride, 5464);
    assert_eq!(e.profile, H264_PROFILE_HIGH);
    assert_eq!(H264_PROFILE_HIGH, 100);
}

#[test]
fn sizes_are_packed() {
    assert_eq!(pack(1920, 1080), 0x0000_0780_0000_0438);
    assert_eq!(pack(u32::MAX, 0), 0xffff_ffff_0000_0000);
    assert_ne!(pack(1, 2), pack(2, 1));
}

#[test]
fn sound_formats_are_told_apart() {
    let stereo = probe_format(48_000, 6).unwrap();
    assert_eq!(stereo, AudioFormat { sample_rate: 48_000, channels: 2 });
    assert_eq!(stereo.bytes_per_frame(), 4);
    assert_eq!(probe_format(44_100, 1).unwrap().channels, 1);
    assert_eq!(
        probe_format(0, 2).unwrap_err(),
        "the playback device reported an unusable format"
    );
    assert!(probe_format(48_000, 0).is_err());
    assert!(describe(3, 32, 2, 0).float);
    assert!(describe(0xfffe, 32, 2, 3).float);
    assert!(!describe(0xfffe, 16, 2, 1).float);
    assert!(!describe(1, 16, 2, 3).float);
}

#[test]
fn samples_become_sixteen_bits() {
    let target = AudioFormat { sample_rate: 48_000, channels: 2 };
    let wide = SourceFormat { float: false, bits: 32, channels: 2 };
    let data = vec![1, 2, 3, 4, 5, 6, 7, 8];
    assert_eq!(to_pcm16(&data, 1, wide, target, |_, _, _, _| (0, 0)), vec![3, 4, 7, 8]);
    let narrow = SourceFormat { float: false, bits: 16, channels: 1 };
    // One channel is repeated.
    assert_eq!(
        to_pcm16(&vec![1, 2, 3, 4], 2, narrow, target, |_, _, _, _| (0, 0)),
        vec![1, 2, 1, 2, 3, 4, 3, 4]
    );
    let many = SourceFormat { float: false, bits: 16, channels: 3 };
    assert_eq!(
        to_pcm16(&vec![1, 2, 3, 4, 5, 6], 1, many, target, |_, _, _, _| (0, 0)),
        vec![1, 2, 3, 4]
    );
    let float = SourceFormat { float: true, bits: 32, channels: 1 };
    let mono = AudioFormat { sample_rate: 48_000, channels: 1 };
    let half = 0.5f32.to_le_bytes().to_vec();
    let out = to_pcm16(&half, 1, float, mono, |a, b, c, d| {
        let value = (f32::from_le_bytes([a, b, c, d]).clamp(-1.0, 1.0) * 32767.0) as i16;
        let bytes = value.to_le_bytes();
        (bytes[0], bytes[1])
    });
    assert_eq!(out, 16383i16.to_le_bytes().to_vec());
    let odd = SourceFormat { float: false, bits: 24, channels: 1 };
    assert_eq!(to_pcm16(&Vec::new(), 2, odd, mono, |_, _, _, _| (9, 9)), vec![0; 4]);
}

#[test]
fn silence_is_written_out() {
    let target = AudioFormat { sample_rate: 48_000, channels: 2 };
    assert_eq!(silence(3, target), vec![0; 12]);
    let source = SourceFormat { float: false, bits: 16, channels: 2 };
    let none = packet(None, 0, source, target, |_, _, _, _| (0, 0));
    assert!(none.is_none());
    let quiet = packet(None, 2, source, target, |_, _, _, _| (0, 0)).unwrap();
    assert_eq!(quiet.bytes, vec![0; 8]);
    let loud = packet(Some(&vec![1, 2, 3, 4]), 1, source, target, |_, _, _, _| (0, 0)).unwrap();
    assert_eq!(loud.bytes, vec![1, 2, 3, 4]);
}

#[test]
fn gaps_in_the_sound_are_counted() {
    assert_eq!(gap_frames(1_000_000_000, 48_000, 0), 48_000);
    assert_eq!(gap_frames(1_000_000_000, 44_100, 44_000), 100);
    assert_eq!(gap_frames(1_000_000, 44_100, 0), 44);
    assert_eq!(gap_frames(1_000_000_000, 48_000, 48_001), 0);
    assert_eq!(gap_frames(u64::MAX, u32::MAX, 0), 79_228_162_495_817_593_515);
    assert_eq!(settled_ns(2_500_000_000), 1_500_000_000);
    assert_eq!(settled_ns(999), 0);
}

#[test]
fn the_sound_keeps_time() {
    let format = AudioFormat { sample_rate: 1_000, channels: 1 };
    let source = SourceFormat { float: false, bits: 16, channels: 1 };
    let mut track = SoundTrack::new(format);
    // Three frames were played before the first packet.
    let data = vec![1, 2, 3, 4];
    let first = track.with_packet(3_000_000, Some(&data), 2, source, |_, _, _, _| (0, 0)).unwrap();
    assert_eq!(first.bytes, vec![0, 0, 0, 0, 0, 0, 1, 2, 3, 4]);
    track.count(first.bytes.len());
    assert_eq!(track.frames, 5);
    // The next follows at once.
    let next = track.with_packet(5_000_000, Some(&data), 2, source, |_, _, _, _| (0, 0)).unwrap();
    assert_eq!(next.bytes, data);
    // It is not handed on, so that silence takes its place.
    let quiet = track.with_packet(8_000_000, None, 1, source, |_, _, _, _| (9, 9)).unwrap();
    assert_eq!(quiet.bytes, vec![0; 8]);
    track.count(quiet.bytes.len());
    assert_eq!(track.frames, 9);
    assert!(track.with_packet(9_000_000, None, 0, source, |_, _, _, _| (9, 9)).is_none());
    assert!(track.silence_until(9_000_000).is_none());
    let rest = track.silence_until(12_500_000).unwrap();
    assert_eq!(rest.bytes, vec![0; 6]);
    track.count(rest.bytes.len());
    assert_eq!(track.frames, 12);
}

#[test]
fn the_stop_button_is_at_the_top() {
    assert_eq!(bar_position(DESKTOP), (826, 24));
    let narrow = VirtualDesktop { x: -10, y: -5, width: 101, height: 50 };
    assert_eq!(bar_position(narrow), (-93, 19));
}

#[test]
fn a_recording_is_told_to_the_library() {
    let outcome = RecordingOutcome {
        path: "/v/a.mp4".to_string(),
        file_name: "a.mp4".to_string(),
        width: 640,
        height: 480,
        frames: 90,
        dropped: 1,
        duration_ms: 3000,
        bytes: 77,
    };
    let at = LocalTime::new(1_789_907_525, 250_000_000, 7200).unwrap();
    let record = announce_recording(&outcome, &at);
    assert_eq!(record.id, "rec-20260920143205250");
    assert_eq!(record.kind, CaptureKind::Recording);
    assert_eq!(record.taken_at, "2026-09-20T14:32:05.250+02:00");
    assert_eq!((record.width, record.height, record.bytes), (640, 480, 77));
    assert!(record.source.is_none() && record.warnings.is_empty());
    assert!(!RecordingStatus::idle().recording);
}

const AREA: Bounds = Bounds { x: 5, y: 6, width: 70, height: 80 };

#[test]
fn recordings_share_the_counter() {
    let at = LocalTime::new(1_789_907_525, 0, 0).unwrap();
    let mut s = Settings::with_directory("/shots".to_string());
    s.naming.mode = NamingMode::Prefix;
    s.naming.counter = 7;
    let begun =
        start_recording(AREA, false, Ok("/shots".to_string()), &mut s, at, at, |_| false).unwrap();
    assert_eq!(begun.directory, "/shots");
    assert_eq!(begun.name.file_name, "Screenshot_007.mp4");
    assert_eq!(s.naming.counter, 8);
}

#[test]
fn recordings_are_made_as_the_user_set() {
    let at = LocalTime::new(1_789_907_525, 0, 0).unwrap();
    let mut s = Settings::with_directory("/shots".to_string());
    s.recording.fps = 60;
    s.recording.scale_percent = 50;
    s.recording.bitrate_mbps = 25;
    let begun =
        start_recording(AREA, false, Ok("/shots".to_string()), &mut s, at, at, |_| false).unwrap();
    let asked =
        RecordingRequest { bounds: AREA, fps: 60, scale_percent: 50, bitrate_mbps: 25 };
    assert_eq!(begun.request, asked);
}

#[test]
fn one_recording_at_a_time() {
    let at = LocalTime::new(1_789_907_525, 0, 0).unwrap();
    let mut s = Settings::with_directory("/shots".to_string());
    let busy = start_recording(AREA, true, Err("gone".to_string()), &mut s, at, at, |_| false);
    assert_eq!(busy.err().unwrap(), "a recording is already in progress");
    let homeless = start_recording(AREA, false, Err("gone".to_string()), &mut s, at, at, |_| false);
    assert_eq!(homeless.err().unwrap(), "gone");
    assert_eq!(s.naming.counter, 1);
    assert!(stop_recording(true).is_ok());
    assert_eq!(stop_recording(false).unwrap_err(), "nothing is recording");
}
