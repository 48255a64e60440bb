//! Camera stalls and reconnects.

use motioncap::clip_state::MAX_FRAME_STALL;
use motioncap::detection_loop::{DetectionLoop, LoopEvent, LoopTask, PollAction};
use motioncap::liveness::{
    frame_liveness_advanced, frame_liveness_advanced_at, reset_liveness_after_reconnect,
    FrameLiveness,
};
use motioncap::reconnect;
use motioncap::reconnect::{
    maybe_reconnect_camera, should_reconnect, CAMERA_RECONNECT_COOLDOWN, CAMERA_RECONNECT_STALL,
};
use motioncap::time::{Clock, Duration, Instant};

const SECOND: i128 = 1_000_000_000;
const TEST_PRE_BUFFER_SECS: u32 = 10;

fn earlier(now: Instant, nanos: i128) -> Instant {
    Instant { nanos: now.nanos - nanos }
}

fn stalled_since(unchanged_since: Instant) -> FrameLiveness {
    FrameLiveness { timestamp: unchanged_since, unchanged_since, warned: true }
}

#[test]
fn liveness_frame_liveness_advanced_true_on_first_observation() {
    let clock = Clock::start();
    let mut last_seen = None;
    let ts = clock.now();

    assert!(frame_liveness_advanced(&mut last_seen, ts, &clock));
    assert!(last_seen.is_some());
}

#[test]
fn liveness_frame_liveness_advanced_true_on_new_timestamp() {
    let clock = Clock::start();
    let mut last_seen = Some(FrameLiveness {
        timestamp: clock.now(),
        unchanged_since: clock.now(),
        warned: true,
    });

    let new_ts = clock.now().plus(Duration::from_millis(100));
    assert!(frame_liveness_advanced(&mut last_seen, new_ts, &clock));
    assert_eq!(last_seen.unwrap().timestamp, new_ts);
}

#[test]
fn liveness_frame_liveness_advanced_true_on_same_timestamp_within_stall_threshold() {
    let clock = Clock::start();
    let ts = clock.now();
    let mut last_seen =
        Some(FrameLiveness { timestamp: ts, unchanged_since: clock.now(), warned: false });

    assert!(frame_liveness_advanced(&mut last_seen, ts, &clock));
}

#[test]
fn liveness_frame_liveness_advanced_false_and_warns_once_past_stall_threshold() {
    let clock = Clock::start();
    let ts = clock.now();
    let mut last_seen = Some(FrameLiveness {
        timestamp: ts,
        unchanged_since: earlier(
            clock.now(),
            i128::try_from(MAX_FRAME_STALL).unwrap() + 50_000_000,
        ),
        warned: false,
    });

    assert!(!frame_liveness_advanced(&mut last_seen, ts, &clock));
    assert!(last_seen.as_ref().unwrap().warned);

    assert!(!frame_liveness_advanced(&mut last_seen, ts, &clock));
    assert!(last_seen.unwrap().warned);
}

#[test]
fn liveness_reset_liveness_after_reconnect_resets_warned_and_clock_but_not_timestamp() {
    let clock = Clock::start();
    let original_ts = earlier(clock.now(), 30 * SECOND);
    let mut last_seen = Some(FrameLiveness {
        timestamp: original_ts,
        unchanged_since: original_ts,
        warned: true,
    });

    reset_liveness_after_reconnect(&mut last_seen, &clock);

    let seen = last_seen.unwrap();
    assert_eq!(seen.timestamp, original_ts);
    assert!(!seen.warned);
    assert!(seen.unchanged_since > original_ts);
}

#[test]
fn liveness_reset_liveness_after_reconnect_is_noop_on_none() {
    let clock = Clock::start();
    let mut last_seen: Option<FrameLiveness> = None;
    reset_liveness_after_reconnect(&mut last_seen, &clock);
    assert!(last_seen.is_none());
}

#[test]
fn reconnect_frame_liveness_advanced_true_on_first_observation() {
    let clock = Clock::start();
    let mut last_seen = None;
    let ts = clock.now();

    assert!(reconnect::frame_liveness_advanced(&mut last_seen, ts, &clock));
    assert!(last_seen.is_some());
}

#[test]
fn reconnect_frame_liveness_advanced_true_on_new_timestamp() {
    let clock = Clock::start();
    let mut last_seen = Some(reconnect::FrameLiveness {
        timestamp: clock.now(),
        unchanged_since: clock.now(),
        warned: true,
    });

    let new_ts = clock.now().plus(Duration::from_millis(100));
    assert!(reconnect::frame_liveness_advanced(&mut last_seen, new_ts, &clock));
    assert_eq!(last_seen.unwrap().timestamp, new_ts);
}

#[test]
fn reconnect_frame_liveness_advanced_true_on_same_timestamp_within_stall_threshold() {
    let clock = Clock::start();
    let ts = clock.now();
    let mut last_seen = Some(reconnect::FrameLiveness {
        timestamp: ts,
        unchanged_since: clock.now(),
        warned: false,
    });

    assert!(reconnect::frame_liveness_advanced(&mut last_seen, ts, &clock));
}

#[test]
fn reconnect_frame_liveness_advanced_false_and_warns_once_past_stall_threshold() {
    let clock = Clock::start();
    let ts = clock.now();
    let mut last_seen = Some(reconnect::FrameLiveness {
        timestamp: ts,
        unchanged_since: earlier(
            clock.now(),
            i128::try_from(MAX_FRAME_STALL).unwrap() + 50_000_000,
        ),
        warned: false,
    });

    assert!(!reconnect::frame_liveness_advanced(&mut last_seen, ts, &clock));
    assert!(last_seen.as_ref().unwrap().warned);

    assert!(!reconnect::frame_liveness_advanced(&mut last_seen, ts, &clock));
    assert!(last_seen.unwrap().warned);
}

#[test]
fn reconnect_reset_liveness_after_reconnect_resets_warned_and_clock_but_not_timestamp() {
    let clock = Clock::start();
    let original_ts = earlier(clock.now(), 30 * SECOND);
    let mut last_seen = Some(reconnect::FrameLiveness {
        timestamp: original_ts,
        unchanged_since: original_ts,
        warned: true,
    });

    reconnect::reset_liveness_after_reconnect(&mut last_seen, &clock);

    let seen = last_seen.unwrap();
    assert_eq!(seen.timestamp, original_ts);
    assert!(!seen.warned);
    assert!(seen.unchanged_since > original_ts);
}

#[test]
fn reconnect_reset_liveness_after_reconnect_is_noop_on_none() {
    let clock = Clock::start();
    let mut last_seen: Option<reconnect::FrameLiveness> = None;
    reconnect::reset_liveness_after_reconnect(&mut last_seen, &clock);
    assert!(last_seen.is_none());
}

#[test]
fn should_reconnect_false_when_no_stall_tracked() {
    let now = Clock::start().now();
    assert!(!should_reconnect(None, None, now));
}

#[test]
fn should_reconnect_false_below_reconnect_stall_threshold() {
    let now = Clock::start().now();
    let seen = FrameLiveness {
        timestamp: now,
        unchanged_since: earlier(now, 5 * SECOND),
        warned: false,
    };
    assert!(!should_reconnect(Some(&seen), None, now));
}

fn long_stall(now: Instant) -> FrameLiveness {
    FrameLiveness {
        timestamp: now,
        unchanged_since: earlier(now, i128::try_from(CAMERA_RECONNECT_STALL).unwrap() + SECOND),
        warned: false,
    }
}

#[test]
fn should_reconnect_true_past_stall_threshold_with_no_prior_attempt() {
    let now = Clock::start().now();
    let seen = long_stall(now);
    assert!(should_reconnect(Some(&seen), None, now));
}

#[test]
fn should_reconnect_false_past_stall_threshold_but_within_cooldown() {
    let now = Clock::start().now();
    let seen = long_stall(now);
    let last_attempt = earlier(now, SECOND);
    assert!(!should_reconnect(Some(&seen), Some(last_attempt), now));
}

#[test]
fn should_reconnect_true_past_stall_threshold_and_past_cooldown() {
    let now = Clock::start().now();
    let seen = long_stall(now);
    let last_attempt =
        earlier(now, i128::try_from(CAMERA_RECONNECT_COOLDOWN).unwrap() + SECOND);
    assert!(should_reconnect(Some(&seen), Some(last_attempt), now));
}

#[test]
fn reconnect_pre_buffer_ready_true_when_no_reconnect_tracked() {
    let now = Clock::start().now();
    assert!(reconnect::pre_buffer_ready(None, TEST_PRE_BUFFER_SECS, now));
}

#[test]
fn reconnect_pre_buffer_ready_false_before_pre_buffer_secs_have_elapsed() {
    let now = Clock::start().now();
    let reconnected_at = earlier(now, 4 * SECOND);
    assert!(!reconnect::pre_buffer_ready(Some(reconnected_at), TEST_PRE_BUFFER_SECS, now));
}

#[test]
fn reconnect_pre_buffer_ready_true_once_pre_buffer_secs_have_elapsed() {
    let now = Clock::start().now();
    let reconnected_at = earlier(now, 10 * SECOND);
    assert!(reconnect::pre_buffer_ready(Some(reconnected_at), TEST_PRE_BUFFER_SECS, now));
}

#[test]
fn reconnect_pre_buffer_ready_true_immediately_when_pre_buffer_secs_is_zero() {
    let now = Clock::start().now();
    assert!(reconnect::pre_buffer_ready(Some(now), 0, now));
}

#[test]
fn stall_begins_exactly_at_the_limit() {
    let ts = Instant { nanos: 0 };
    let mut last_seen = None;
    assert!(frame_liveness_advanced_at(&mut last_seen, ts, ts));
    assert!(frame_liveness_advanced_at(&mut last_seen, ts, Instant { nanos: 1_499_999_999 }));
    assert!(!last_seen.as_ref().unwrap().warned);
    assert!(!frame_liveness_advanced_at(&mut last_seen, ts, Instant { nanos: 1_500_000_000 }));
    assert!(last_seen.as_ref().unwrap().warned);
    let fresh = Instant { nanos: 1_600_000_000 };
    assert!(frame_liveness_advanced_at(&mut last_seen, fresh, fresh));
    assert!(!last_seen.unwrap().warned);
}

#[test]
fn should_reconnect_false_exactly_at_the_cooldown() {
    let now = Instant { nanos: 100 * SECOND };
    let seen = stalled_since(earlier(now, 16 * SECOND));
    let cooldown = i128::try_from(CAMERA_RECONNECT_COOLDOWN).unwrap();
    assert!(!should_reconnect(Some(&seen), Some(earlier(now, cooldown)), now));
    assert!(should_reconnect(Some(&seen), Some(earlier(now, cooldown + 1)), now));
}

#[test]
fn reconnect_attempts_keep_the_cooldown() {
    let seen = stalled_since(Instant { nanos: 0 });
    let mut attempt = None;
    assert!(!maybe_reconnect_camera(Some(&seen), &mut attempt, Instant { nanos: 15 * SECOND - 1 }));
    assert_eq!(attempt, None);
    let first = Instant { nanos: 15 * SECOND };
    assert!(maybe_reconnect_camera(Some(&seen), &mut attempt, first));
    assert_eq!(attempt, Some(first));
    assert!(!maybe_reconnect_camera(Some(&seen), &mut attempt, Instant { nanos: 25 * SECOND }));
    assert_eq!(attempt, Some(first));
    let second = Instant { nanos: 25 * SECOND + 1 };
    assert!(maybe_reconnect_camera(Some(&seen), &mut attempt, second));
    assert_eq!(attempt, Some(second));
    assert!(!maybe_reconnect_camera(None, &mut attempt, Instant { nanos: 99 * SECOND }));
}

#[test]
fn loop_skips_until_the_first_frame() {
    let mut state = DetectionLoop::new();
    assert_eq!(state.poll(None, false, Instant { nanos: 0 }), PollAction::Skip);
    assert!(state.last_frame_seen.is_none());
}

#[test]
fn loop_evaluates_live_frames_and_checks_stalled_ones() {
    let mut state = DetectionLoop::new();
    let frame = Instant { nanos: 0 };
    assert_eq!(state.poll(Some(frame), false, frame), PollAction::TryStart);
    assert_eq!(state.poll(Some(frame), true, Instant { nanos: SECOND }), PollAction::EvaluateActive);
    let late = Instant { nanos: 2 * SECOND };
    assert_eq!(state.poll(Some(frame), true, late), PollAction::CheckStall);
    assert_eq!(state.poll(Some(frame), false, late), PollAction::CheckStall);
    let fresh = Instant { nanos: 3 * SECOND };
    assert_eq!(state.poll(Some(fresh), false, fresh), PollAction::TryStart);
}

#[test]
fn loop_forgets_the_active_sighting_once_nothing_is_recorded() {
    let mut state = DetectionLoop::new();
    let frame = Instant { nanos: 0 };
    state.active_pending_confirmation.0 = Some(motioncap::confirmation::PendingConfirmation {
        class_name: "cat",
        first_seen: frame,
    });
    state.poll(Some(frame), true, frame);
    assert!(state.active_pending_confirmation.is_some());
    state.poll(Some(frame), false, frame);
    assert!(!state.active_pending_confirmation.is_some());
}

#[test]
fn rebuilt_stream_restarts_the_clocks() {
    let mut state = DetectionLoop::new();
    let frame = Instant { nanos: 0 };
    state.poll(Some(frame), false, frame);
    let dead = Instant { nanos: 20 * SECOND };
    assert_eq!(state.poll(Some(frame), false, dead), PollAction::CheckStall);
    assert!(state.reconnect_wanted(dead));
    state.stream_rebuilt(dead);
    assert_eq!(state.reconnected_at, Some(dead));
    let soon = Instant { nanos: 21 * SECOND };
    assert_eq!(state.poll(Some(frame), false, soon), PollAction::TryStart);
    let later = Instant { nanos: 31 * SECOND };
    assert_eq!(state.poll(Some(frame), false, later), PollAction::CheckStall);
    assert!(!state.reconnect_wanted(later));
    assert!(state.reconnect_wanted(Instant { nanos: 35 * SECOND }));
}

#[test]
fn start_failures_are_reported_once_per_interval() {
    let mut state = DetectionLoop::new();
    assert!(state.start_failed(Instant { nanos: 0 }));
    assert!(!state.start_failed(Instant { nanos: 30 * SECOND - 1 }));
    assert!(state.start_failed(Instant { nanos: 30 * SECOND }));
    assert!(!state.start_failed(Instant { nanos: 31 * SECOND }));
}

fn run(polled: PollAction, failed: bool) -> Vec<LoopTask> {
    let event = LoopEvent { shutdown: false, polled, failed };
    let mut task = LoopTask::Look;
    let mut seen = Vec::new();
    for _ in 0..6 {
        task = task.next(event);
        seen.push(task);
    }
    seen
}

#[test]
fn loop_goes_on_whatever_fails() {
    for failed in [false, true] {
        assert_eq!(
            run(PollAction::CheckStall, failed),
            vec![
                LoopTask::Sleep,
                LoopTask::Poll,
                LoopTask::Close,
                LoopTask::Reconnect,
                LoopTask::Look,
                LoopTask::Sleep,
            ]
        );
        assert_eq!(
            run(PollAction::EvaluateActive, failed)[1..5],
            [LoopTask::Poll, LoopTask::Evaluate, LoopTask::Look, LoopTask::Sleep]
        );
        assert_eq!(
            run(PollAction::TryStart, failed)[1..5],
            [LoopTask::Poll, LoopTask::Start, LoopTask::Look, LoopTask::Sleep]
        );
        assert_eq!(
            run(PollAction::Skip, failed)[1..4],
            [LoopTask::Poll, LoopTask::Look, LoopTask::Sleep]
        );
    }
}

#[test]
fn loop_ends_on_shutdown_with_what_came_of_the_finish() {
    let event = LoopEvent { shutdown: true, polled: PollAction::TryStart, failed: false };
    let failure = LoopEvent { failed: true, ..event };
    assert_eq!(LoopTask::Look.next(event), LoopTask::Finish);
    assert_eq!(LoopTask::Look.next(failure), LoopTask::Finish);
    assert_eq!(LoopTask::Finish.next(event), LoopTask::Stop { failed: false });
    assert_eq!(LoopTask::Finish.next(failure), LoopTask::Stop { failed: true });
    assert_eq!(LoopTask::Stop { failed: true }.next(event), LoopTask::Stop { failed: true });
    // A shutdown is only looked for between polls.
    assert_eq!(LoopTask::Evaluate.next(event), LoopTask::Look);
}
