//! Retention, eviction and queries of the ring buffer.

use motioncap::buffer::RingBuffer;
use motioncap::frame::RgbFrame;
use motioncap::single::Single;
use motioncap::time::{Clock, Duration, Instant};

const BLANK_FRAME_DIM: u32 = 1;

fn ample_retention() -> Duration {
    Duration::from_secs(10)
}

fn short_retention() -> Duration {
    Duration::from_millis(10)
}

fn blank_frame() -> RgbFrame {
    RgbFrame::from_raw(BLANK_FRAME_DIM, BLANK_FRAME_DIM, vec![0, 0, 0]).unwrap()
}

fn at_millis(millis: i128) -> Instant {
    Instant { nanos: millis * 1_000_000 }
}

fn sample(value: f32) -> Single {
    Single { bits: value.to_bits() }
}

#[test]
fn new_buffer_has_no_latest_frame() {
    let buffer = RingBuffer::new(ample_retention());
    assert!(buffer.latest_frame().is_none());
}

#[test]
fn latest_frame_returns_most_recently_pushed() {
    let clock = Clock::start();
    let mut buffer = RingBuffer::new(ample_retention());
    buffer.push_frame(blank_frame(), &clock);
    buffer.push_frame(blank_frame(), &clock);
    let latest = buffer.latest_frame();
    assert!(latest.is_some());
}

#[test]
fn latest_frame_is_the_last_pushed_one() {
    let mut buffer = RingBuffer::new(ample_retention());
    buffer.push_frame_at(blank_frame(), at_millis(1));
    buffer.push_frame_at(blank_frame(), at_millis(7));
    assert_eq!(buffer.latest_frame().unwrap().timestamp, at_millis(7));
}

#[test]
fn snapshot_returns_oldest_first() {
    let mut buffer = RingBuffer::new(ample_retention());
    buffer.push_frame_at(blank_frame(), at_millis(0));
    buffer.push_frame_at(blank_frame(), at_millis(5));

    let (frames, _) = buffer.snapshot();
    assert_eq!(frames.len(), 2);
    assert!(frames[0].timestamp <= frames[1].timestamp);
}

#[test]
fn frames_since_excludes_frame_exactly_at_since() {
    let clock = Clock::start();
    let mut buffer = RingBuffer::new(ample_retention());
    buffer.push_frame(blank_frame(), &clock);
    let since = buffer.latest_frame().unwrap().timestamp;

    assert!(buffer.frames_since(since).is_empty());
}

#[test]
fn frames_since_includes_frames_strictly_after() {
    let mut buffer = RingBuffer::new(ample_retention());
    buffer.push_frame_at(blank_frame(), at_millis(0));
    let since = buffer.latest_frame().unwrap().timestamp;
    buffer.push_frame_at(blank_frame(), at_millis(5));

    assert_eq!(buffer.frames_since(since).len(), 1);
}

#[test]
fn audio_since_excludes_chunk_exactly_at_since() {
    let clock = Clock::start();
    let mut buffer = RingBuffer::new(ample_retention());
    buffer.push_audio(vec![sample(0.0)], &clock);
    let since = buffer.snapshot().1.last().unwrap().timestamp;

    assert!(buffer.audio_since(since).is_empty());
}

#[test]
fn audio_since_includes_chunks_strictly_after() {
    let mut buffer = RingBuffer::new(ample_retention());
    buffer.push_audio_at(vec![sample(0.0)], at_millis(0));
    let since = buffer.snapshot().1.last().unwrap().timestamp;
    buffer.push_audio_at(vec![sample(1.0)], at_millis(5));

    let newer = buffer.audio_since(since);
    assert_eq!(newer.len(), 1);
    assert_eq!(newer[0].samples.to_vec(), vec![sample(1.0)]);
}

#[test]
fn frames_older_than_retention_are_evicted_on_next_push() {
    let mut buffer = RingBuffer::new(short_retention());
    buffer.push_frame_at(blank_frame(), at_millis(0));
    buffer.push_frame_at(blank_frame(), at_millis(30));

    let (frames, _) = buffer.snapshot();
    assert_eq!(frames.len(), 1);
}

#[test]
fn audio_older_than_retention_is_evicted_on_next_push() {
    let mut buffer = RingBuffer::new(short_retention());
    buffer.push_audio_at(vec![sample(0.0)], at_millis(0));
    buffer.push_audio_at(vec![sample(1.0)], at_millis(30));

    let (_, audio) = buffer.snapshot();
    assert_eq!(audio.len(), 1);
}

#[test]
fn entry_exactly_at_the_retention_is_kept() {
    let mut buffer = RingBuffer::new(short_retention());
    buffer.push_frame_at(blank_frame(), at_millis(0));
    buffer.push_frame_at(blank_frame(), at_millis(10));
    assert_eq!(buffer.snapshot().0.len(), 2);
    buffer.push_frame_at(blank_frame(), Instant { nanos: 10_000_001 });
    assert_eq!(buffer.snapshot().0.len(), 2);
}

#[test]
fn pushed_frame_survives_even_without_retention() {
    let mut buffer = RingBuffer::new(Duration::from_nanos(0));
    buffer.push_frame_at(blank_frame(), at_millis(3));
    buffer.push_frame_at(blank_frame(), at_millis(4));
    let (frames, _) = buffer.snapshot();
    assert_eq!(frames.len(), 1);
    assert_eq!(frames[0].timestamp, at_millis(4));
}

#[test]
fn pushing_audio_leaves_frames_alone() {
    let mut buffer = RingBuffer::new(short_retention());
    buffer.push_frame_at(blank_frame(), at_millis(0));
    buffer.push_audio_at(vec![sample(0.5)], at_millis(500));
    let (frames, audio) = buffer.snapshot();
    assert_eq!(frames.len(), 1);
    assert_eq!(audio.len(), 1);
}

#[test]
fn consecutive_drains_hand_out_every_frame_once() {
    let mut buffer = RingBuffer::new(ample_retention());
    for i in 0..3 {
        buffer.push_frame_at(blank_frame(), at_millis(i * 10));
    }
    let first = buffer.frames_since(at_millis(-1));
    assert_eq!(first.len(), 3);
    let drained_to = first.last().unwrap().timestamp;
    assert!(buffer.frames_since(drained_to).is_empty());
    for i in 3..5 {
        buffer.push_frame_at(blank_frame(), at_millis(i * 10));
    }
    let second = buffer.frames_since(drained_to);
    let stamps: Vec<Instant> = second.iter().map(|f| f.timestamp).collect();
    assert_eq!(stamps, vec![at_millis(30), at_millis(40)]);
}

#[test]
fn shared_frame_is_the_pushed_picture() {
    let mut buffer = RingBuffer::new(ample_retention());
    let frame = RgbFrame::from_raw(1, 2, vec![1, 2, 3, 4, 5, 6]).unwrap();
    buffer.push_frame_at(frame, at_millis(0));
    let (frames, _) = buffer.snapshot();
    assert_eq!(*frames[0].image.as_raw(), vec![1, 2, 3, 4, 5, 6]);
    assert_eq!(frames[0].image.dimensions(), (1, 2));
}

#[test]
fn frame_buffer_has_to_match_its_dimensions() {
    assert!(RgbFrame::from_raw(2, 2, vec![0; 11]).is_none());
    assert!(RgbFrame::from_raw(2, 2, vec![0; 12]).is_some());
    assert!(RgbFrame::from_raw(u32::MAX, u32::MAX, vec![]).is_none());
}

#[test]
fn clock_reading_counts_from_the_start() {
    assert_eq!(Clock::reading(0, 0).nanos, 0);
    assert_eq!(Clock::reading(2, 5).nanos, 2_000_000_005);
    assert_eq!(Clock::reading(u64::MAX, 999_999_999).nanos, 18_446_744_073_709_551_615_999_999_999);
}

#[test]
fn clock_never_goes_back_and_goes_on() {
    let clock = Clock::start();
    let first = clock.now();
    assert!(first.nanos >= 0);
    let waited = std::time::Instant::now();
    while waited.elapsed() < std::time::Duration::from_millis(2) {}
    let second = clock.now();
    assert!(second.duration_since(first).nanos >= 2_000_000);
}
