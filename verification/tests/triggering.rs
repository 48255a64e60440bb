//! What a poll does to a recording.

use motioncap::buffer::RingBuffer;
use motioncap::confirmation::{ActiveEventPending, PendingConfirmation, PreTriggerPending};
use motioncap::detect::Detection;
use motioncap::event_lifecycle::ActiveEvent;
use motioncap::frame::RgbFrame;
use motioncap::motion::{changed_ratio, MotionReading};
use motioncap::paths::LocalTime;
use motioncap::recorder::{RecordingEvent, RecordingEventParams};
use motioncap::single::Single;
use motioncap::time::{Duration, Instant};
use motioncap::triggering::{
    detection_wanted, evaluate_active_event, recording_started_at, try_start_recording,
    AudioParams, RECORDING_FRAME_RATE, RECORDING_POLL_INTERVAL,
};

const SECOND: i128 = 1_000_000_000;
const TEST_MOTION_THRESHOLD: f32 = 0.01;

fn at(secs: i128) -> Instant {
    Instant { nanos: secs * SECOND }
}

fn single(value: f32) -> Single {
    Single { bits: value.to_bits() }
}

fn detection(class_name: &'static str) -> Detection {
    Detection { class_name, confidence: single(0.9) }
}

fn quiet() -> MotionReading {
    MotionReading::new(single(0.0), single(TEST_MOTION_THRESHOLD))
}

fn moving() -> MotionReading {
    MotionReading::new(single(0.25), single(TEST_MOTION_THRESHOLD))
}

fn started_at() -> LocalTime {
    LocalTime { year: 2026, month: 3, day: 5, hour: 13, minute: 45, second: 30 }
}

fn audio() -> AudioParams {
    AudioParams { sample_rate: 8000, channels: 1 }
}

fn recording() -> RecordingEvent<()> {
    RecordingEvent::start_at(
        RecordingEventParams {
            final_clip_path: "/out/2026-03-05/2026-03-05_13-45-30.mp4".to_string(),
            output_dir: "/out".to_string(),
            started_at: started_at(),
            width: 64,
            height: 64,
            frame_rate: 15,
            audio_sample_rate: 8000,
            audio_channels: 1,
            clip_timeline_start: at(0),
        },
        (),
        at(0),
    )
}

fn live_at(now: Instant) -> ActiveEvent<()> {
    let mut event = recording();
    event.state.last_real_frame_at = now;
    ActiveEvent::Active(event)
}

fn pending(class_name: &'static str, first_seen: Instant) -> Option<PendingConfirmation> {
    Some(PendingConfirmation { class_name, first_seen })
}

fn image(width: u32, height: u32) -> RgbFrame {
    let len = usize::try_from(width * height * 3).unwrap();
    RgbFrame::from_raw(width, height, vec![50; len]).unwrap()
}

fn detected(names: &[&'static str]) -> Result<Vec<Detection>, String> {
    Ok(names.iter().map(|name| detection(name)).collect())
}

#[test]
fn recording_rate_and_poll_interval() {
    assert_eq!(RECORDING_FRAME_RATE, 15);
    assert_eq!(RECORDING_POLL_INTERVAL, 66_000_000);
    assert_eq!(RECORDING_POLL_INTERVAL, u128::from(1000 / RECORDING_FRAME_RATE) * 1_000_000);
}

#[test]
fn motion_trips_only_above_the_threshold() {
    assert!(!MotionReading::new(single(0.01), single(0.01)).tripped);
    assert!(MotionReading::new(single(0.010_000_01), single(0.01)).tripped);
    assert!(!MotionReading::new(single(f32::NAN), single(0.01)).tripped);
    assert!(MotionReading::new(single(1.0), single(0.01)).tripped);
}

#[test]
fn changed_ratio_returns_zero_for_non_positive_total_pixels() {
    let ratio = f32::from_bits(changed_ratio(0, 0).bits);
    assert!((ratio - 0.0).abs() < f32::EPSILON);
}

#[test]
fn changed_ratio_is_the_single_precision_quotient() {
    for total in 1..600u32 {
        for changed in 0..=total {
            let expected = changed as f32 / total as f32;
            assert_eq!(changed_ratio(changed, total).bits, expected.to_bits());
        }
    }
    let mut seed: u64 = 88_172_645_463_325_252;
    for i in 0..300_000u32 {
        seed ^= seed << 13;
        seed ^= seed >> 7;
        seed ^= seed << 17;
        let a = ((seed >> 32) as u32) >> (i % 31);
        let b = (seed as u32) >> (i % 17);
        let (changed, total) = if a <= b { (a, b) } else { (b, a) };
        if total > 0 {
            let expected = changed as f32 / total as f32;
            assert_eq!(changed_ratio(changed, total).bits, expected.to_bits(), "{changed}/{total}");
        }
    }
}

#[test]
fn evaluate_active_event_returns_ok_when_event_already_closed() {
    let mut active_event = ActiveEvent::<()>::Idle;
    let mut seen = ActiveEventPending::default();

    let result = evaluate_active_event::<(), String>(
        &mut active_event,
        quiet(),
        None,
        at(1),
        Duration::from_secs(60),
        &mut seen,
        at(1),
        at(1),
    );

    assert!(result.is_ok());
    assert!(!active_event.is_some());
}

#[test]
fn evaluate_active_event_no_motion_leaves_event_untouched_and_open() {
    let mut active_event = live_at(at(1));
    let mut seen = ActiveEventPending::default();

    let closed = evaluate_active_event::<(), String>(
        &mut active_event,
        quiet(),
        None,
        at(1),
        Duration::from_secs(60),
        &mut seen,
        at(1),
        at(1),
    )
    .unwrap();

    assert!(closed.is_none());
    let event = active_event.as_recording_mut().unwrap();
    assert!(event.state.motion_events.is_empty());
    assert_eq!(event.state.last_trigger_at, at(0));
}

#[test]
fn evaluate_active_event_motion_without_confirmation_records_motion_only() {
    let mut active_event = live_at(at(3));
    let mut seen = ActiveEventPending::default();

    let closed = evaluate_active_event(
        &mut active_event,
        moving(),
        Some(detected(&[])),
        at(2),
        Duration::from_secs(60),
        &mut seen,
        at(3),
        at(3),
    )
    .unwrap();

    assert!(closed.is_none());
    let event = active_event.as_recording_mut().unwrap();
    assert_eq!(event.state.motion_events.len(), 1);
    assert_eq!(event.state.motion_events[0].offset, Duration::from_secs(2));
    assert_eq!(event.state.motion_events[0].changed_ratio, single(0.25));
    assert!(event.state.detections.is_empty());
    assert_eq!(event.state.last_trigger_at, at(0));
}

#[test]
fn evaluate_active_event_closes_when_quiet_window_elapsed() {
    let mut active_event = live_at(at(1));
    let mut seen = ActiveEventPending::default();

    let closed = evaluate_active_event::<(), String>(
        &mut active_event,
        quiet(),
        None,
        at(1),
        Duration::from_secs(0),
        &mut seen,
        at(1),
        at(1),
    )
    .unwrap();

    assert!(closed.is_some());
    assert!(!active_event.is_some());
}

#[test]
fn unconfirmed_sighting_extends_but_is_not_recorded() {
    let mut active_event = live_at(at(3));
    let mut seen = ActiveEventPending::default();
    let closed = evaluate_active_event(
        &mut active_event,
        moving(),
        Some(detected(&["cat"])),
        at(2),
        Duration::from_secs(60),
        &mut seen,
        at(3),
        at(3),
    )
    .unwrap();
    assert!(closed.is_none());
    assert_eq!(seen.0.as_ref().unwrap().class_name, "cat");
    let event = active_event.as_recording_mut().unwrap();
    assert!(event.state.detections.is_empty());
    assert_eq!(event.state.last_trigger_at, at(3));
}

#[test]
fn confirmed_sighting_is_recorded_and_extends() {
    let mut active_event = live_at(at(3));
    let mut seen = ActiveEventPending(pending("cat", at(1)));
    evaluate_active_event(
        &mut active_event,
        moving(),
        Some(detected(&["person", "cat"])),
        at(2),
        Duration::from_secs(60),
        &mut seen,
        at(3),
        at(4),
    )
    .unwrap();
    let event = active_event.as_recording_mut().unwrap();
    assert_eq!(event.state.detections.len(), 2);
    assert_eq!(event.state.detections[1].class_name, "cat");
    assert_eq!(event.state.detections[1].offset, Duration::from_secs(2));
    assert_eq!(event.state.all_classes, vec!["cat".to_string(), "person".to_string()]);
    assert_eq!(event.state.last_trigger_at, at(4));
    assert_eq!(seen.0.unwrap().first_seen, at(3));
}

#[test]
fn recent_sighting_lets_bare_motion_extend_until_it_expires() {
    let mut active_event = live_at(at(4));
    let mut seen = ActiveEventPending(pending("cat", at(0)));
    evaluate_active_event(
        &mut active_event,
        moving(),
        Some(detected(&[])),
        at(4),
        Duration::from_secs(60),
        &mut seen,
        at(4),
        at(4),
    )
    .unwrap();
    assert_eq!(active_event.as_recording_mut().unwrap().state.last_trigger_at, at(4));
    evaluate_active_event(
        &mut active_event,
        moving(),
        Some(detected(&[])),
        at(5),
        Duration::from_secs(60),
        &mut seen,
        at(6),
        at(5),
    )
    .unwrap();
    assert!(!seen.is_some());
    let event = active_event.as_recording_mut().unwrap();
    assert_eq!(event.state.last_trigger_at, at(4));
    assert_eq!(event.state.motion_events.len(), 2);
}

#[test]
fn failed_detection_leaves_the_recording_alone() {
    let mut active_event = live_at(at(99));
    let mut seen = ActiveEventPending(pending("cat", at(0)));
    let result = evaluate_active_event(
        &mut active_event,
        moving(),
        Some(Err("inference failed")),
        at(4),
        Duration::from_secs(0),
        &mut seen,
        at(99),
        at(99),
    );
    assert_eq!(result.err(), Some("inference failed"));
    assert!(seen.is_some());
    assert!(active_event.as_recording_mut().unwrap().state.motion_events.is_empty());
}

#[test]
fn try_start_recording_no_motion_does_not_start_a_recording() {
    let mut seen = PreTriggerPending(pending("person", at(0)));
    assert!(!detection_wanted(&quiet(), None, 10, at(60), &mut seen));
    assert!(seen.is_some());
}

#[test]
fn try_start_recording_motion_without_confirmation_does_not_start_a_recording() {
    let mut ring = RingBuffer::new(Duration::from_secs(10));
    ring.push_frame_at(image(64, 64), at(0));
    let mut seen = PreTriggerPending::default();
    assert!(detection_wanted(&moving(), None, 10, at(1), &mut seen));
    for poll in 1..3 {
        let plan = try_start_recording(
            detected(&[]),
            &ring,
            "/out",
            audio(),
            started_at(),
            &mut seen,
            at(poll),
        );
        assert!(plan.unwrap().is_none());
    }
    let first = try_start_recording(
        detected(&["dog"]),
        &ring,
        "/out",
        audio(),
        started_at(),
        &mut seen,
        at(3),
    );
    assert!(first.unwrap().is_none());
    assert!(seen.is_some());
}

#[test]
fn try_start_recording_skips_when_ring_buffer_has_no_frames_yet() {
    let ring = RingBuffer::new(Duration::from_secs(10));
    let mut seen = PreTriggerPending(pending("person", at(0)));
    let plan = try_start_recording(
        detected(&["person"]),
        &ring,
        "/out",
        audio(),
        started_at(),
        &mut seen,
        at(1),
    );
    assert!(plan.unwrap().is_none());
    assert_eq!(seen.0.unwrap().first_seen, at(1));
}

#[test]
fn try_start_recording_skips_when_reconnected_too_recently() {
    let mut seen = PreTriggerPending(pending("person", at(59)));
    assert!(!detection_wanted(&moving(), Some(at(60)), 10, at(60), &mut seen));
    assert_eq!(seen.0.as_ref().map(|p| p.class_name), Some("person"));
    assert!(!detection_wanted(&moving(), Some(at(60)), 10, at(65), &mut seen));
    assert!(!seen.is_some());
    assert!(detection_wanted(&moving(), Some(at(60)), 10, at(70), &mut seen));
}

#[test]
fn confirmed_trigger_plans_a_recording_from_the_pre_buffer() {
    let mut ring = RingBuffer::new(Duration::from_secs(10));
    ring.push_frame_at(image(64, 48), at(1));
    ring.push_frame_at(image(64, 48), at(2));
    ring.push_audio_at(vec![single(0.5)], at(2));
    let mut seen = PreTriggerPending(pending("dog", at(2)));
    let plan = try_start_recording(
        detected(&["person", "dog"]),
        &ring,
        "/out",
        audio(),
        started_at(),
        &mut seen,
        at(3),
    )
    .unwrap()
    .unwrap();
    assert_eq!(plan.day_dir, "/out/2026-03-05");
    assert_eq!(
        plan.params.final_clip_path,
        "/out/2026-03-05/2026-03-05_13-45-30_dog_person.mp4"
    );
    assert_eq!(plan.params.output_dir, "/out");
    assert_eq!((plan.params.width, plan.params.height), (64, 48));
    assert_eq!(plan.params.frame_rate, 15);
    assert_eq!((plan.params.audio_sample_rate, plan.params.audio_channels), (8000, 1));
    assert_eq!(plan.params.clip_timeline_start, at(1));
    assert_eq!(plan.pre_frames.len(), 2);
    assert_eq!(plan.pre_audio.len(), 1);
    assert!(seen.is_some());

    let mut active_event = ActiveEvent::Idle;
    recording_started_at(&mut active_event, plan, "encoder", &moving(), at(2), &mut seen, at(4));
    assert!(!seen.is_some());
    assert!(active_event.as_recording_mut().is_none());
    match active_event {
        ActiveEvent::Pending(pending) => {
            assert_eq!(pending.pre_frames.len(), 2);
            assert_eq!(pending.event.state.motion_events.len(), 1);
            assert_eq!(pending.event.state.detections.len(), 2);
            assert_eq!(pending.event.state.detections[0].offset, Duration::from_secs(1));
            assert_eq!(pending.event.state.last_trigger_at, at(4));
            assert_eq!(pending.event.handle, "encoder");
        }
        _ => panic!("a started recording is pending"),
    }
}

#[test]
fn failed_detection_starts_nothing_and_keeps_the_sighting() {
    let ring = RingBuffer::new(Duration::from_secs(10));
    let mut seen = PreTriggerPending(pending("dog", at(0)));
    let result = try_start_recording(
        Err("no model"),
        &ring,
        "/out",
        audio(),
        started_at(),
        &mut seen,
        at(99),
    );
    assert_eq!(result.err(), Some("no model"));
    assert!(seen.is_some());
}
