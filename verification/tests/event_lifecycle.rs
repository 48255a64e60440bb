//! The recording in progress.

use std::sync::Arc;

use motioncap::buffer::{RingBuffer, TimestampedFrame};
use motioncap::event_lifecycle::{
    close_event_if_done, close_event_if_done_at, finish_event_on_shutdown, pre_buffer_written_at,
    seed_and_drain_active_event, seed_pending_at, ActiveEvent, PendingEvent, ShutdownStep,
    WriterStep,
};
use motioncap::frame::RgbFrame;
use motioncap::paths::LocalTime;
use motioncap::recorder::{RecordingEvent, RecordingEventParams, SeedOutcome};
use motioncap::time::{Clock, Duration, Instant};
use motioncap::writer_drained::WriterDrained;
use motioncap::writer_loop::WriterTask;

fn test_pending_recording_event(clip_timeline_start: Instant, clock: &Clock) -> RecordingEvent<u8> {
    RecordingEvent::start(
        RecordingEventParams {
            final_clip_path: "/out/2026-03-05/2026-03-05_13-45-30.mp4".to_string(),
            output_dir: "/out".to_string(),
            started_at: LocalTime {
                year: 2026,
                month: 3,
                day: 5,
                hour: 13,
                minute: 45,
                second: 30,
            },
            width: 2,
            height: 2,
            frame_rate: 5,
            audio_sample_rate: 8000,
            audio_channels: 1,
            clip_timeline_start,
        },
        7,
        clock,
    )
}

fn image() -> RgbFrame {
    RgbFrame::from_raw(2, 2, vec![0; 12]).unwrap()
}

fn test_recording_event(clock: &Clock) -> RecordingEvent<u8> {
    let start = clock.now();
    let mut event = test_pending_recording_event(start, clock);
    let frames = [TimestampedFrame { timestamp: start, image: Arc::new(image()) }];
    event.seed(&frames, &[], SeedOutcome::Written, clock);
    event
}

fn pending(clock: &Clock) -> PendingEvent<u8> {
    PendingEvent {
        event: test_recording_event(clock),
        pre_frames: Vec::new(),
        pre_audio: Vec::new(),
    }
}

fn one_minute() -> Duration {
    Duration::from_secs(60)
}

fn no_time() -> Duration {
    Duration::from_secs(0)
}

fn drained() -> WriterDrained {
    let mut writer_drained = WriterDrained::default();
    writer_drained.signal();
    writer_drained
}

#[test]
fn active_event_none_is_not_some() {
    assert!(!ActiveEvent::<u8>::Idle.is_some());
}

#[test]
fn active_event_none_has_no_recording_mut() {
    let mut event = ActiveEvent::<u8>::Idle;
    assert!(event.as_recording_mut().is_none());
}

#[test]
fn active_event_none_take_returns_none() {
    let mut event = ActiveEvent::<u8>::Idle;
    assert!(event.take().is_none());
}

#[test]
fn active_event_active_is_some_and_has_recording_mut() {
    let clock = Clock::start();
    let mut event = ActiveEvent::Active(test_recording_event(&clock));

    assert!(event.is_some());
    assert!(event.as_recording_mut().is_some());

    assert_eq!(event.take().unwrap().finish().0, 7);
}

#[test]
fn active_event_pending_is_some_but_has_no_recording_mut() {
    let clock = Clock::start();
    let mut event = ActiveEvent::Pending(pending(&clock));

    assert!(event.is_some());
    assert!(event.as_recording_mut().is_none());

    assert_eq!(event.take().unwrap().finish().0, 7);
}

#[test]
fn active_event_take_collapses_pending_and_active_to_the_wrapped_event() {
    let clock = Clock::start();
    let mut pending = ActiveEvent::Pending(pending(&clock));
    assert!(pending.take().is_some());
    assert!(matches!(pending, ActiveEvent::Idle));

    let mut active = ActiveEvent::Active(test_recording_event(&clock));
    let taken = active.take();
    assert!(taken.is_some());
    assert!(matches!(active, ActiveEvent::Idle));
}

#[test]
fn close_event_if_done_noop_when_neither_condition_met() {
    let clock = Clock::start();
    let mut event = ActiveEvent::Active(test_recording_event(&clock));

    assert!(close_event_if_done(&mut event, one_minute(), &clock).is_none());

    assert!(event.is_some());
}

#[test]
fn close_event_if_done_closes_on_quiet_timeout() {
    let clock = Clock::start();
    let mut event = ActiveEvent::Active(test_recording_event(&clock));

    let closed = close_event_if_done(&mut event, no_time(), &clock).unwrap();

    assert!(!closed.stalled);
    assert!(!event.is_some());
}

#[test]
fn close_event_if_done_closes_on_camera_stall() {
    let clock = Clock::start();
    let mut event = ActiveEvent::Active(test_recording_event(&clock));

    let stalled_at = Instant { nanos: clock.now().nanos - 1_550_000_000 };
    event.as_recording_mut().unwrap().state.last_real_frame_at = stalled_at;

    let closed = close_event_if_done(&mut event, one_minute(), &clock).unwrap();

    assert!(closed.stalled);
    assert!(!event.is_some());
}

#[test]
fn close_event_if_done_is_noop_on_pending_or_none() {
    let clock = Clock::start();
    let mut event = ActiveEvent::Pending(pending(&clock));

    assert!(close_event_if_done(&mut event, no_time(), &clock).is_none());
    assert!(event.is_some());

    let mut none_event = ActiveEvent::<u8>::Idle;
    assert!(close_event_if_done(&mut none_event, no_time(), &clock).is_none());
    assert!(!none_event.is_some());
}

#[test]
fn quiet_window_ends_exactly_with_the_post_buffer() {
    let clock = Clock::start();
    let mut inner = test_recording_event(&clock);
    inner.state.last_trigger_at = Instant { nanos: 0 };
    inner.state.last_real_frame_at = Instant { nanos: 15_000_000_000 };
    let mut event = ActiveEvent::Active(inner);
    let post_buffer = Duration::from_secs(15);
    let just_before = Instant { nanos: 14_999_999_999 };
    assert!(close_event_if_done_at(&mut event, post_buffer, just_before).is_none());
    let then = Instant { nanos: 15_000_000_000 };
    assert!(close_event_if_done_at(&mut event, post_buffer, then).is_some());
}

#[test]
fn finish_event_on_shutdown_noop_on_none() {
    let mut active_event = ActiveEvent::<u8>::Idle;

    let step = finish_event_on_shutdown(&mut active_event, &drained());

    assert!(matches!(step, ShutdownStep::Nothing));
    assert!(!active_event.is_some());
}

#[test]
fn finish_event_on_shutdown_finishes_an_active_event() {
    let clock = Clock::start();
    let mut active_event = ActiveEvent::Active(test_recording_event(&clock));

    let step = finish_event_on_shutdown(&mut active_event, &drained());

    assert!(!active_event.is_some());
    assert!(matches!(step, ShutdownStep::Finish(_)));
}

#[test]
fn finish_event_on_shutdown_seeds_then_finishes_a_pending_event() {
    let clock = Clock::start();
    let mut active_event = ActiveEvent::Pending(pending(&clock));

    let step = finish_event_on_shutdown(&mut active_event, &drained());

    assert!(!active_event.is_some());
    match step {
        ShutdownStep::SeedThenFinish(pending) => {
            let event = seed_pending_at(pending, SeedOutcome::Written, clock.now());
            assert_eq!(event.finish().0, 7);
        }
        _ => panic!("a pending event has to be seeded first"),
    }
}

#[test]
fn finish_event_on_shutdown_waits_for_the_writer() {
    let clock = Clock::start();
    let mut active_event = ActiveEvent::Active(test_recording_event(&clock));
    let step = finish_event_on_shutdown(&mut active_event, &WriterDrained::default());
    assert!(matches!(step, ShutdownStep::Wait));
    assert!(active_event.is_some());
}

#[test]
fn seed_and_drain_active_event_seeds_a_pending_event_into_active() {
    let clock = Clock::start();
    let clip_timeline_start = clock.now();
    let event = test_pending_recording_event(clip_timeline_start, &clock);

    let mut active_event = ActiveEvent::Pending(PendingEvent {
        event,
        pre_frames: vec![TimestampedFrame {
            timestamp: clip_timeline_start,
            image: Arc::new(image()),
        }],
        pre_audio: Vec::new(),
    });

    match seed_and_drain_active_event(&mut active_event) {
        WriterStep::Seed(pending) => {
            assert_eq!(pending.event.frames_to_seed(&pending.pre_frames).len(), 1);
            pre_buffer_written_at(&mut active_event, pending, SeedOutcome::Written, clock.now());
        }
        _ => panic!("a pending event has to be seeded first"),
    }

    let event = active_event.as_recording_mut().unwrap();
    assert_eq!(event.state.last_frame_drain_at, clip_timeline_start);
}

#[test]
fn seed_and_drain_active_event_drains_new_frames_into_an_already_active_event() {
    let clock = Clock::start();
    let mut active_event = ActiveEvent::Active(test_recording_event(&clock));
    let mut ring_buffer = RingBuffer::new(Duration::from_secs(10));
    ring_buffer.push_frame(image(), &clock);

    assert!(matches!(seed_and_drain_active_event(&mut active_event), WriterStep::Drain));

    let event = active_event.as_recording_mut().unwrap();
    assert_eq!(event.drain_frames(&ring_buffer, &clock).len(), 1);
    assert!(active_event.is_some());
}

#[test]
fn seed_and_drain_active_event_is_noop_on_none() {
    let mut active_event = ActiveEvent::<u8>::Idle;

    assert!(matches!(seed_and_drain_active_event(&mut active_event), WriterStep::Idle));

    assert!(!active_event.is_some());
}

#[test]
fn writer_drained_signal_then_wait_returns_immediately() {
    let mut drained = WriterDrained::default();
    drained.signal();
    assert!(drained.wait());
}

#[test]
fn writer_drained_holds_back_until_signaled() {
    let mut drained = WriterDrained::default();
    assert!(!drained.wait());
    drained.signal();
    assert!(drained.wait());
    drained.signal();
    assert!(drained.wait());
}

#[test]
fn run_recording_writer_loop_drains_and_signals_on_immediate_shutdown() {
    let mut writer_drained = WriterDrained::default();
    let mut drains = 0;
    let mut task = WriterTask::Look;
    while task != WriterTask::Stop {
        match task {
            WriterTask::LastDrain => {
                assert!(!writer_drained.wait());
                drains += 1;
            }
            WriterTask::Signal => writer_drained.signal(),
            WriterTask::Look => {}
            other => panic!("unexpected step {other:?}"),
        }
        task = task.next(true);
    }
    assert_eq!(drains, 1);
    assert!(writer_drained.wait());
}

#[test]
fn writer_goes_on_draining_until_shutdown() {
    let mut task = WriterTask::Look;
    let mut seen = Vec::new();
    for _ in 0..6 {
        task = task.next(false);
        seen.push(task);
    }
    assert_eq!(
        seen,
        vec![
            WriterTask::Sleep,
            WriterTask::Drain,
            WriterTask::Look,
            WriterTask::Sleep,
            WriterTask::Drain,
            WriterTask::Look,
        ]
    );
    assert_eq!(WriterTask::Sleep.next(true), WriterTask::Drain);
    assert_eq!(WriterTask::Stop.next(false), WriterTask::Stop);
}
