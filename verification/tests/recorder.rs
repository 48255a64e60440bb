//! The life of a recorded clip.

use std::sync::Arc;

use motioncap::buffer::{RingBuffer, TimestampedAudio, TimestampedFrame};
use motioncap::ffmpeg::ProcessExit;
use motioncap::frame::RgbFrame;
use motioncap::paths::LocalTime;
use motioncap::recorder::{
    audio_bytes, audio_tmp_path, video_tmp_path, RecordingEvent, RecordingEventParams, SeedOutcome,
};
use motioncap::single::Single;
use motioncap::time::{Clock, Duration, Instant};

const MILLI: i128 = 1_000_000;

fn at_millis(millis: i128) -> Instant {
    Instant { nanos: millis * MILLI }
}

fn single(value: f32) -> Single {
    Single { bits: value.to_bits() }
}

fn started_at() -> LocalTime {
    LocalTime { year: 2026, month: 3, day: 5, hour: 13, minute: 45, second: 30 }
}

fn params(final_clip_path: &str) -> RecordingEventParams {
    RecordingEventParams {
        final_clip_path: final_clip_path.to_string(),
        output_dir: "/out".to_string(),
        started_at: started_at(),
        width: 2,
        height: 2,
        frame_rate: 5,
        audio_sample_rate: 8000,
        audio_channels: 1,
        clip_timeline_start: at_millis(0),
    }
}

fn event() -> RecordingEvent<&'static str> {
    RecordingEvent::start_at(
        params("/out/2026-03-05/2026-03-05_13-45-30_person.mp4"),
        "encoder",
        at_millis(1000),
    )
}

fn image() -> RgbFrame {
    RgbFrame::from_raw(2, 2, vec![0; 12]).unwrap()
}

fn frame_at(timestamp: Instant) -> TimestampedFrame {
    TimestampedFrame { timestamp, image: Arc::new(image()) }
}

fn audio_at(timestamp: Instant) -> TimestampedAudio {
    TimestampedAudio { timestamp, samples: Arc::new(vec![single(0.0); 100]) }
}

fn succeeded() -> ProcessExit {
    ProcessExit { success: true, status: "exit status: 0".to_string(), stderr: String::new() }
}

fn failed(stderr: &str) -> ProcessExit {
    ProcessExit {
        success: false,
        status: "exit status: 1".to_string(),
        stderr: stderr.to_string(),
    }
}

#[test]
fn temporary_files_are_beside_the_clip() {
    let clip = "/out/2026-03-05/2026-03-05_13-45-30_person.mp4";
    let event = event();
    assert_eq!(
        video_tmp_path(clip),
        "/out/2026-03-05/2026-03-05_13-45-30_person.video.tmp.mp4"
    );
    assert_eq!(
        audio_tmp_path(clip),
        "/out/2026-03-05/2026-03-05_13-45-30_person.audio.tmp.pcm"
    );
    assert_eq!(event.video_tmp_path, video_tmp_path(clip));
    assert_eq!(event.audio_tmp_path, audio_tmp_path(clip));
}

#[test]
fn started_recording_begins_its_clocks_at_once() {
    let clock = Clock::start();
    let event = RecordingEvent::start(params("/out/a.mp4"), (), &clock);
    assert!(!event.camera_stalled(&clock));
    assert!(event.quiet_for(&clock) < Duration::from_secs(1));
    assert!(event.state.next_frame_due.is_none());
}

#[test]
fn seeding_writes_the_resampled_pre_buffer_and_anchors_the_tick() {
    let mut event = event();
    let frames: Vec<TimestampedFrame> = (0..6).map(|i| frame_at(at_millis(i * 100))).collect();
    let audio = vec![audio_at(at_millis(0)), audio_at(at_millis(470))];
    let written: Vec<Instant> =
        event.frames_to_seed(&frames).iter().map(|f| f.timestamp).collect();
    assert_eq!(written, vec![at_millis(0), at_millis(200), at_millis(400)]);
    event.seed_at(&frames, &audio, SeedOutcome::Written, at_millis(1100));
    assert_eq!(event.state.last_frame_drain_at, at_millis(400));
    assert_eq!(event.state.next_frame_due, Some(at_millis(600)));
    assert_eq!(event.state.last_real_frame_at, at_millis(1100));
    assert_eq!(event.state.last_audio_drain_at, at_millis(470));
}

#[test]
fn seeding_that_fails_part_way_keeps_what_was_not_reached() {
    let frames = vec![frame_at(at_millis(0))];
    let audio = vec![audio_at(at_millis(470))];

    let mut no_frames = event();
    no_frames.seed_at(&frames, &audio, SeedOutcome::FramesFailed, at_millis(1100));
    assert_eq!(no_frames.state.last_frame_drain_at, at_millis(1000));
    assert_eq!(no_frames.state.next_frame_due, None);

    let mut no_audio = event();
    no_audio.seed_at(&frames, &audio, SeedOutcome::AudioFailed, at_millis(1100));
    assert_eq!(no_audio.state.last_frame_drain_at, at_millis(0));
    assert_eq!(no_audio.state.last_audio_drain_at, at_millis(1000));
}

#[test]
fn seeding_nothing_changes_nothing() {
    let clock = Clock::start();
    let mut event = event();
    event.seed(&[], &[], SeedOutcome::Written, &clock);
    assert_eq!(event.state.last_frame_drain_at, at_millis(1000));
    assert_eq!(event.state.last_audio_drain_at, at_millis(1000));
    assert_eq!(event.state.last_real_frame_at, at_millis(1000));
}

fn write_all(event: &mut RecordingEvent<&'static str>, frames: &[TimestampedFrame]) -> Vec<Instant> {
    let mut written = Vec::new();
    let mut from = 0;
    while let Some(k) = event.next_due_frame(frames, from) {
        written.push(frames[k].timestamp);
        from = k + 1;
    }
    written
}

#[test]
fn drained_frames_are_written_once_each_at_the_frame_rate() {
    let mut ring = RingBuffer::new(Duration::from_secs(10));
    let mut event = event();
    event.seed_at(&[frame_at(at_millis(0))], &[], SeedOutcome::Written, at_millis(1000));
    for i in 1..7 {
        ring.push_frame_at(image(), at_millis(i * 90));
    }
    let first = event.drain_frames_at(&ring, at_millis(1200));
    assert_eq!(first.len(), 6);
    assert_eq!(write_all(&mut event, &first), vec![at_millis(270), at_millis(450)]);
    assert_eq!(event.state.last_frame_drain_at, at_millis(540));
    assert_eq!(event.state.last_real_frame_at, at_millis(1200));

    for i in 7..9 {
        ring.push_frame_at(image(), at_millis(i * 90));
    }
    let second = event.drain_frames_at(&ring, at_millis(1300));
    assert_eq!(second.len(), 2);
    assert_eq!(write_all(&mut event, &second), vec![at_millis(630)]);

    let third = event.drain_frames_at(&ring, at_millis(9000));
    assert!(third.is_empty());
    assert_eq!(event.state.last_real_frame_at, at_millis(1300));
    assert!(event.camera_stalled_at(at_millis(9000)));
}

#[test]
fn frames_after_a_failed_write_are_left_for_their_tick() {
    let mut event = event();
    let frames: Vec<TimestampedFrame> = (0..4).map(|i| frame_at(at_millis(i * 200))).collect();
    assert_eq!(event.next_due_frame(&frames, 0), Some(0));
    // The write fails here: nothing further is looked at.
    assert_eq!(event.state.next_frame_due, Some(at_millis(200)));
}

#[test]
fn drained_audio_is_handed_out_once() {
    let clock = Clock::start();
    let mut ring = RingBuffer::new(Duration::from_secs(100));
    let mut event = event();
    ring.push_audio_at(vec![single(0.1)], at_millis(900));
    ring.push_audio_at(vec![single(0.2)], at_millis(1100));
    ring.push_audio_at(vec![single(0.3)], at_millis(1200));
    let chunks = event.drain_audio(&ring);
    assert_eq!(chunks.len(), 2);
    assert_eq!(chunks[0].samples[0], single(0.2));
    assert_eq!(event.state.last_audio_drain_at, at_millis(1200));
    assert!(event.drain_audio(&ring).is_empty());
    assert!(event.drain_frames(&ring, &clock).is_empty());
}

#[test]
fn audio_is_written_as_little_endian_singles() {
    let samples = [single(0.5), single(-1.0), single(f32::MAX)];
    let mut expected = Vec::new();
    for value in [0.5f32, -1.0, f32::MAX] {
        expected.extend_from_slice(&value.to_le_bytes());
    }
    assert_eq!(audio_bytes(&samples), expected);
    assert!(audio_bytes(&[]).is_empty());
}

#[test]
fn records_go_through_to_the_clip() {
    let clock = Clock::start();
    let mut event = event();
    event.record_motion(single(0.05), at_millis(200));
    event.record_detection("person", single(0.9), at_millis(300), &clock);
    event.record_detection_at("dog", single(0.8), at_millis(400), at_millis(2000));
    assert_eq!(event.quiet_for_at(at_millis(2500)), Duration::from_millis(500));
    event.touch_at(at_millis(3000));
    assert_eq!(event.quiet_for_at(at_millis(3000)), Duration::from_millis(0));
    event.touch(&clock);
    assert_eq!(event.state.motion_events.len(), 1);
    assert_eq!(event.state.detections.len(), 2);
}

#[test]
fn finish_errors_when_video_encoder_exits_nonzero() {
    let (handle, encoding) = event().finish();
    assert_eq!(handle, "encoder");
    let err = encoding.encoder_exited(&failed("width not divisible by 2\n")).err().unwrap();
    assert_eq!(
        err,
        "ffmpeg video encoder exited with exit status: 1: width not divisible by 2"
    );
}

#[test]
fn finish_errors_when_audio_mux_fails() {
    let (_, encoding) = event().finish();
    let muxing = encoding.encoder_exited(&succeeded()).ok().unwrap();
    let err = muxing.mux_exited(&failed(" no such file ")).err().unwrap();
    assert_eq!(err, "ffmpeg audio mux exited with exit status: 1: no such file");
}

#[test]
fn finished_clip_is_named_after_every_class_seen() {
    let mut event = event();
    event.record_detection_at("person", single(0.9), at_millis(300), at_millis(1000));
    event.record_detection_at("cat", single(0.7), at_millis(500), at_millis(1200));
    event.record_detection_at("person", single(0.6), at_millis(700), at_millis(1400));
    event.record_motion(single(0.05), at_millis(700));
    let (_, encoding) = event.finish();
    let muxing = encoding.encoder_exited(&succeeded()).ok().unwrap();
    assert_eq!(
        muxing.args.join(" "),
        "-y -i /out/2026-03-05/2026-03-05_13-45-30_person.video.tmp.mp4 -f f32le -ar 8000 -ac 1 \
         -i /out/2026-03-05/2026-03-05_13-45-30_person.audio.tmp.pcm -c:v copy -af apad -c:a aac \
         -shortest /out/2026-03-05/2026-03-05_13-45-30_person.mp4"
    );
    let publishing = muxing.mux_exited(&succeeded()).ok().unwrap();
    assert_eq!(
        publishing.video_tmp_path,
        "/out/2026-03-05/2026-03-05_13-45-30_person.video.tmp.mp4"
    );
    assert_eq!(
        publishing.audio_tmp_path,
        "/out/2026-03-05/2026-03-05_13-45-30_person.audio.tmp.pcm"
    );
    assert_eq!(publishing.day_dir, "/out/2026-03-05");
    assert_eq!(publishing.clip_path, "/out/2026-03-05/2026-03-05_13-45-30_person.mp4");
    assert_eq!(
        publishing.rename_to.as_deref(),
        Some("/out/2026-03-05/2026-03-05_13-45-30_cat_person.mp4")
    );
    assert_eq!(
        publishing.sidecar_path,
        "/out/2026-03-05/2026-03-05_13-45-30_cat_person.json"
    );
    assert_eq!(publishing.sidecar.detections.len(), 3);
    assert_eq!(publishing.sidecar.motion_events.len(), 1);
}

#[test]
fn finished_clip_keeps_a_name_that_is_right_already() {
    let mut event = event();
    event.record_detection_at("person", single(0.9), at_millis(300), at_millis(1000));
    let (_, encoding) = event.finish();
    let muxing = encoding.encoder_exited(&succeeded()).ok().unwrap();
    let publishing = muxing.mux_exited(&succeeded()).ok().unwrap();
    assert_eq!(publishing.rename_to, None);
    assert_eq!(publishing.sidecar_path, "/out/2026-03-05/2026-03-05_13-45-30_person.json");
}
