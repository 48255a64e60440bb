//! What the detection loop does on each poll and from poll to poll, and what it
//! remembers in between.

use vstd::prelude::*;

use crate::confirmation::{ActiveEventPending, PreTriggerPending};
use crate::liveness::{
    frame_liveness_advanced_at, reset_liveness_after_reconnect_at, FrameLiveness,
};
use crate::reconnect::maybe_reconnect_camera;
use crate::time::Instant;

verus! {

/// Refresh rate of the live preview window.
pub const PREVIEW_FRAME_RATE: u32 = 30;

/// Time between two refreshes of the preview, in nanoseconds: one frame at its
/// rate, in whole milliseconds.
pub const PREVIEW_POLL_INTERVAL: u128 = 33_000_000;

/// The least time between two reports that a recording could not be started,
/// in nanoseconds. A lasting failure, such as an output directory that cannot
/// be written, recurs on every confirmed detection.
pub const START_RECORDING_ERROR_LOG_INTERVAL: u128 = 30_000_000_000;

/// What to do on a poll.
#[derive(Clone, Copy, Debug, PartialEq, Eq, Structural)]
pub enum PollAction {
    /// Nothing: the camera has not delivered yet.
    Skip,
    /// The camera has stalled: close a recording that is done, and rebuild the
    /// capture stream if it is time to. The recording has to be looked at all
    /// the same, for a stalled camera is what it is to be closed for.
    CheckStall,
    /// Evaluate the frame for the recording in progress.
    EvaluateActive,
    /// Evaluate the frame for starting a recording.
    TryStart,
}

/// What the detection loop remembers between polls.
pub struct DetectionLoop {
    /// The latest frame evaluated, and since when it has been the latest.
    pub last_frame_seen: Option<FrameLiveness>,
    /// When the capture stream was last tried to be rebuilt.
    pub last_reconnect_attempt: Option<Instant>,
    /// When the capture stream was last rebuilt.
    pub reconnected_at: Option<Instant>,
    /// A sighting that awaits its repetition to start a recording.
    pub pending_confirmation: PreTriggerPending,
    /// A sighting that awaits its repetition to extend the recording in
    /// progress.
    pub active_pending_confirmation: ActiveEventPending,
    /// When a failure to start a recording was last reported.
    pub last_start_error_logged: Option<Instant>,
}

/// What a poll calls for: `latest_frame` is the latest frame's timestamp,
/// `recording` whether a recording is in progress.
pub open spec fn action_for(
    last_frame_seen: Option<FrameLiveness>,
    latest_frame: Option<Instant>,
    recording: bool,
    now: Instant,
) -> PollAction {
    match latest_frame {
        None => PollAction::Skip,
        Some(timestamp) => if !crate::liveness::live(last_frame_seen, timestamp, now) {
            PollAction::CheckStall
        } else if recording {
            PollAction::EvaluateActive
        } else {
            PollAction::TryStart
        },
    }
}

/// Whether a failure to start a recording is to be reported at `now`.
pub open spec fn report_due(last_logged: Option<Instant>, now: Instant) -> bool {
    match last_logged {
        Some(at) => now.since(at) >= START_RECORDING_ERROR_LOG_INTERVAL,
        None => true,
    }
}

impl DetectionLoop {
    /// Nothing seen and nothing done yet.
    pub fn new() -> (r: DetectionLoop)
        ensures
            r.last_frame_seen is None,
            r.last_reconnect_attempt is None,
            r.reconnected_at is None,
            r.pending_confirmation.0 is None,
            r.active_pending_confirmation.0 is None,
            r.last_start_error_logged is None,
    {
        DetectionLoop {
            last_frame_seen: None,
            last_reconnect_attempt: None,
            reconnected_at: None,
            pending_confirmation: PreTriggerPending(None),
            active_pending_confirmation: ActiveEventPending(None),
            last_start_error_logged: None,
        }
    }

    /// Decides at `now` what to do with the latest frame. A frame the camera
    /// delivered a while ago is never evaluated again. While no recording is
    /// in progress, no sighting is kept that could extend one.
    pub fn poll(
        &mut self,
        latest_frame: Option<Instant>,
        recording: bool,
        now: Instant,
    ) -> (r: PollAction)
        ensures
            r == action_for(old(self).last_frame_seen, latest_frame, recording, now),
            final(self).last_frame_seen == match latest_frame {
                Some(timestamp) => Some(
                    crate::liveness::seen_after(old(self).last_frame_seen, timestamp, now),
                ),
                None => old(self).last_frame_seen,
            },
            final(self).active_pending_confirmation == if r == PollAction::TryStart {
                ActiveEventPending(None)
            } else {
                old(self).active_pending_confirmation
            },
            *final(self) == (DetectionLoop {
                last_frame_seen: final(self).last_frame_seen,
                active_pending_confirmation: final(self).active_pending_confirmation,
                ..*old(self)
            }),
    {
        let timestamp: Instant = match latest_frame {
            Some(timestamp) => timestamp,
            None => {
                return PollAction::Skip;
            },
        };
        if !frame_liveness_advanced_at(&mut self.last_frame_seen, timestamp, now) {
            return PollAction::CheckStall;
        }
        if recording {
            return PollAction::EvaluateActive;
        }
        self.active_pending_confirmation = ActiveEventPending(None);
        PollAction::TryStart
    }

    /// Decides at `now` whether to rebuild the capture stream of a stalled
    /// camera, and takes note of the attempt if so.
    pub fn reconnect_wanted(&mut self, now: Instant) -> (r: bool)
        ensures
            r == crate::reconnect::reconnect_due(
                old(self).last_frame_seen,
                old(self).last_reconnect_attempt,
                now,
            ),
            *final(self) == (DetectionLoop {
                last_reconnect_attempt: if r {
                    Some(now)
                } else {
                    old(self).last_reconnect_attempt
                },
                ..*old(self)
            }),
    {
        maybe_reconnect_camera(
            self.last_frame_seen.as_ref(),
            &mut self.last_reconnect_attempt,
            now,
        )
    }

    /// Takes note that the capture stream was rebuilt at `now`: the stall
    /// clocks restart, and so does the wait for the pre-buffer to refill.
    pub fn stream_rebuilt(&mut self, now: Instant)
        ensures
            *final(self) == (DetectionLoop {
                last_frame_seen: crate::liveness::seen_after_reconnect(
                    old(self).last_frame_seen,
                    now,
                ),
                reconnected_at: Some(now),
                ..*old(self)
            }),
    {
        reset_liveness_after_reconnect_at(&mut self.last_frame_seen, now);
        self.reconnected_at = Some(now);
    }

    /// Decides at `now` whether to report that a recording could not be
    /// started, and takes note of the report if so.
    pub fn start_failed(&mut self, now: Instant) -> (r: bool)
        ensures
            r == report_due(old(self).last_start_error_logged, now),
            *final(self) == (DetectionLoop {
                last_start_error_logged: if r {
                    Some(now)
                } else {
                    old(self).last_start_error_logged
                },
                ..*old(self)
            }),
    {
        let due: bool = match self.last_start_error_logged {
            Some(at) => now.duration_since(at).nanos >= START_RECORDING_ERROR_LOG_INTERVAL,
            None => true,
        };
        if due {
            self.last_start_error_logged = Some(now);
        }
        due
    }
}

/// No recording starts on a trigger within the pre-buffer's time of a
/// reconnect. (A pre-buffer of no length is ready at once.)
pub proof fn no_start_right_after_a_reconnect(
    rebuilt_at: Instant,
    pre_buffer_secs: u32,
    frame_timestamp: Instant,
)
    requires
        pre_buffer_secs > 0,
        frame_timestamp.nanos < rebuilt_at.nanos + pre_buffer_secs * 1_000_000_000,
    ensures
        !crate::clip_state::refilled(Some(rebuilt_at), pre_buffer_secs, frame_timestamp),
{
}

/// Reports of a lasting failure to start are at least the interval apart.
pub proof fn reports_keep_their_distance(reported_at: Instant, now: Instant)
    requires
        report_due(Some(reported_at), now),
    ensures
        now.nanos - reported_at.nanos >= START_RECORDING_ERROR_LOG_INTERVAL,
{
}

/// A camera that delivers nothing new is not evaluated: from the stall limit
/// on every poll of the same frame only checks for the stall.
pub proof fn stalled_frames_are_not_evaluated(
    seen: FrameLiveness,
    recording: bool,
    now: Instant,
)
    requires
        now.nanos - seen.unchanged_since.nanos >= crate::clip_state::MAX_FRAME_STALL,
    ensures
        action_for(Some(seen), Some(seen.timestamp), recording, now) == PollAction::CheckStall,
{
}

/// Steps of the detection loop.
#[derive(Clone, Copy, Debug, PartialEq, Eq, Structural)]
pub enum LoopTask {
    /// Look for a shutdown request.
    Look,
    /// Sleep until the next poll.
    Sleep,
    /// Take the latest frame and decide what to do with it, by
    /// [`DetectionLoop::poll`].
    Poll,
    /// Close the recording in progress if it is done.
    Close,
    /// Rebuild the capture stream if [`DetectionLoop::reconnect_wanted`].
    Reconnect,
    /// Evaluate the frame for the recording in progress.
    Evaluate,
    /// Evaluate the frame for starting a recording.
    Start,
    /// Finish whatever is recorded once the writer has drained.
    Finish,
    /// Leave the loop; `failed` is whether the finish failed.
    Stop {
        /// Whether the finish failed.
        failed: bool,
    },
}

/// What came of a step of the detection loop.
#[derive(Clone, Copy, Debug, PartialEq, Eq, Structural)]
pub struct LoopEvent {
    /// Whether a shutdown was requested, where one was looked for.
    pub shutdown: bool,
    /// What a poll called for.
    pub polled: PollAction,
    /// Whether the step failed.
    pub failed: bool,
}

/// The step after `task`, given what came of it.
pub open spec fn task_after(task: LoopTask, event: LoopEvent) -> LoopTask {
    match task {
        LoopTask::Look => if event.shutdown {
            LoopTask::Finish
        } else {
            LoopTask::Sleep
        },
        LoopTask::Sleep => LoopTask::Poll,
        LoopTask::Poll => match event.polled {
            PollAction::Skip => LoopTask::Look,
            PollAction::CheckStall => LoopTask::Close,
            PollAction::EvaluateActive => LoopTask::Evaluate,
            PollAction::TryStart => LoopTask::Start,
        },
        LoopTask::Close => LoopTask::Reconnect,
        LoopTask::Reconnect | LoopTask::Evaluate | LoopTask::Start => LoopTask::Look,
        LoopTask::Finish => LoopTask::Stop { failed: event.failed },
        LoopTask::Stop { failed } => LoopTask::Stop { failed },
    }
}

impl LoopTask {
    /// The step after this one, given what came of it.
    pub fn next(self, event: LoopEvent) -> (r: LoopTask)
        ensures
            r == task_after(self, event),
    {
        match self {
            LoopTask::Look => {
                if event.shutdown {
                    LoopTask::Finish
                } else {
                    LoopTask::Sleep
                }
            },
            LoopTask::Sleep => LoopTask::Poll,
            LoopTask::Poll => match event.polled {
                PollAction::Skip => LoopTask::Look,
                PollAction::CheckStall => LoopTask::Close,
                PollAction::EvaluateActive => LoopTask::Evaluate,
                PollAction::TryStart => LoopTask::Start,
            },
            LoopTask::Close => LoopTask::Reconnect,
            LoopTask::Reconnect | LoopTask::Evaluate | LoopTask::Start => LoopTask::Look,
            LoopTask::Finish => LoopTask::Stop { failed: event.failed },
            LoopTask::Stop { failed } => LoopTask::Stop { failed },
        }
    }
}

/// The step that the loop has come to after the given events.
pub open spec fn task_reached(events: Seq<LoopEvent>) -> LoopTask
    decreases events.len(),
{
    if events.len() == 0 {
        LoopTask::Look
    } else {
        task_after(task_reached(events.drop_last()), events.last())
    }
}

/// Whether event `i` is that a shutdown was looked for and seen.
pub open spec fn saw_shutdown(events: Seq<LoopEvent>, i: int) -> bool {
    &&& 0 <= i < events.len()
    &&& task_reached(events.take(i)) == LoopTask::Look
    &&& events[i].shutdown
}

/// The loop finishes and stops only after a shutdown request was seen, no
/// matter what failed before; and it stops with what came of the finish.
pub proof fn loop_ends_on_shutdown_alone(events: Seq<LoopEvent>)
    ensures
        task_reached(events) is Finish || task_reached(events) is Stop ==> exists|i: int|
            saw_shutdown(events, i),
        task_reached(events) matches LoopTask::Stop { failed } ==> exists|i: int|
            0 <= i < events.len() && #[trigger] task_reached(events.take(i)) == LoopTask::Finish
                && events[i].failed == failed,
    decreases events.len(),
{
    if events.len() > 0 {
        let before = events.drop_last();
        let last = events.len() - 1;
        loop_ends_on_shutdown_alone(before);
        assert(events.take(last) =~= before);
        let task = task_reached(before);
        if task is Finish || task is Stop {
            let i = choose|i: int| saw_shutdown(before, i);
            assert(before.take(i) =~= events.take(i));
            assert(saw_shutdown(events, i));
        } else if task is Look && events.last().shutdown {
            assert(saw_shutdown(events, last));
        }
        if let LoopTask::Stop { failed } = task {
            let i = choose|i: int|
                0 <= i < before.len() && #[trigger] task_reached(before.take(i))
                    == LoopTask::Finish && before[i].failed == failed;
            assert(before.take(i) =~= events.take(i));
            assert(task_reached(events.take(i)) == LoopTask::Finish);
        } else if task is Finish {
            assert(task_reached(events.take(last)) == LoopTask::Finish);
        }
    }
}

/// A step that fails leads where it would have led had it not, but for the
/// finish; a failed close, rebuild, evaluation or start is followed by the
/// next poll, unless a shutdown is seen first.
pub proof fn failures_do_not_divert_the_loop(task: LoopTask, event: LoopEvent)
    ensures
        task !is Finish ==> task_after(task, event) == task_after(
            task,
            LoopEvent { failed: !event.failed, ..event },
        ),
        task is Reconnect || task is Evaluate || task is Start ==> task_after(task, event)
            == LoopTask::Look,
        task is Look && !event.shutdown ==> task_after(task, event) == LoopTask::Sleep,
        task is Sleep ==> task_after(task, event) == LoopTask::Poll,
{
}

/// A poll of a frame that has gone stale reaches neither an evaluation nor a
/// start: a recording that is done is closed, a rebuild is considered, whatever
/// comes of the close, and the loop goes on.
pub proof fn stale_frame_only_closes_and_reconnects(
    last_frame_seen: Option<FrameLiveness>,
    timestamp: Instant,
    recording: bool,
    now: Instant,
    polled: LoopEvent,
    closed: LoopEvent,
    rebuilt: LoopEvent,
)
    requires
        !crate::liveness::live(last_frame_seen, timestamp, now),
        polled.polled == action_for(last_frame_seen, Some(timestamp), recording, now),
    ensures
        task_after(LoopTask::Poll, polled) == LoopTask::Close,
        task_after(LoopTask::Close, closed) == LoopTask::Reconnect,
        task_after(LoopTask::Reconnect, rebuilt) == LoopTask::Look,
{
}

/// Every poll of a live frame is evaluated, whether the frame is new or recurs
/// for less than a second and a half: for the recording in progress if there is
/// one, and otherwise for starting one. Nothing is skipped but a poll without
/// any frame.
pub proof fn live_frames_are_always_evaluated(
    last_frame_seen: Option<FrameLiveness>,
    timestamp: Instant,
    recording: bool,
    now: Instant,
    event: LoopEvent,
)
    requires
        event.polled == action_for(last_frame_seen, Some(timestamp), recording, now),
        last_frame_seen is Some && last_frame_seen->0.timestamp.nanos == timestamp.nanos
            ==> now.nanos - last_frame_seen->0.unchanged_since.nanos
            < 1_500_000_000,
    ensures
        event.polled == if recording {
            PollAction::EvaluateActive
        } else {
            PollAction::TryStart
        },
        task_after(LoopTask::Poll, event) == if recording {
            LoopTask::Evaluate
        } else {
            LoopTask::Start
        },
        action_for(last_frame_seen, None, recording, now) == PollAction::Skip,
{
}

/// A poll is skipped only if there is no frame at all.
pub proof fn no_frame_is_skipped(
    last_frame_seen: Option<FrameLiveness>,
    latest_frame: Option<Instant>,
    recording: bool,
    now: Instant,
)
    ensures
        (action_for(last_frame_seen, latest_frame, recording, now) == PollAction::Skip) == (
        latest_frame is None),
{
}

/// A frame that stays the latest is evaluated on every poll until the stall
/// limit has passed since it was first polled, and never after; what is done
/// with it depends on the recording alone.
pub proof fn frame_is_evaluated_until_it_is_stale(
    last_frame_seen: Option<FrameLiveness>,
    timestamp: Instant,
    polls: Seq<Instant>,
    recording: bool,
    now: Instant,
)
    requires
        polls.len() > 0,
        last_frame_seen is Some ==> last_frame_seen->0.timestamp.nanos != timestamp.nanos,
    ensures
        action_for(
            crate::liveness::seen_after_all(last_frame_seen, timestamp, polls),
            Some(timestamp),
            recording,
            now,
        ) == if now.nanos - polls[0].nanos < 1_500_000_000 {
            if recording {
                PollAction::EvaluateActive
            } else {
                PollAction::TryStart
            }
        } else {
            PollAction::CheckStall
        },
{
    crate::liveness::frame_is_live_for_the_stall_limit(last_frame_seen, timestamp, polls, now);
}

/// A first failure to start is reported at once, and a lasting one again as
/// soon as 30 seconds have passed.
pub proof fn failure_is_reported_when_due(reported_at: Instant, now: Instant)
    ensures
        report_due(None, now),
        now.nanos - reported_at.nanos >= 30_000_000_000 ==> report_due(
            Some(reported_at),
            now,
        ),
{
}

/// A shutdown request that is seen ends the loop in two steps: the recording
/// is finished, and the loop left for good.
pub proof fn shutdown_is_obeyed(seen: LoopEvent, finished: LoopEvent, more: LoopEvent)
    requires
        seen.shutdown,
    ensures
        task_after(LoopTask::Look, seen) == LoopTask::Finish,
        task_after(LoopTask::Finish, finished) == (LoopTask::Stop { failed: finished.failed }),
        task_after(task_after(LoopTask::Finish, finished), more) == task_after(
            LoopTask::Finish,
            finished,
        ),
{
}

/// Whether the loop looks for a shutdown, or has seen one.
pub open spec fn attentive(task: LoopTask) -> bool {
    task is Look || task is Finish || task is Stop
}

/// Wherever the loop is and whatever happens, within five steps it looks for a
/// shutdown again, unless it is finishing already.
pub proof fn loop_keeps_looking(
    task: LoopTask,
    a: LoopEvent,
    b: LoopEvent,
    c: LoopEvent,
    d: LoopEvent,
    e: LoopEvent,
)
    ensures
        ({
            let first = task_after(task, a);
            let second = task_after(first, b);
            let third = task_after(second, c);
            let fourth = task_after(third, d);
            let fifth = task_after(fourth, e);
            attentive(first) || attentive(second) || attentive(third) || attentive(fourth)
                || attentive(fifth)
        }),
{
}

} // verus!
