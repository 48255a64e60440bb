//! The recording in progress, from its start to its end.

use vstd::prelude::*;

use crate::buffer::{TimestampedAudio, TimestampedFrame};
use crate::recorder::{RecordingEvent, SeedOutcome};
use crate::time::{Clock, Duration, Instant};
use crate::writer_drained::WriterDrained;

verus! {

/// A recording whose encoder runs but whose pre-buffer is not written yet.
/// Writing it is left to the writer thread, so the detection loop is never
/// held up by dozens of frames.
pub struct PendingEvent<H> {
    /// The recording that awaits its pre-buffer.
    pub event: RecordingEvent<H>,
    /// Frames from before the trigger.
    pub pre_frames: Vec<TimestampedFrame>,
    /// Audio from before the trigger.
    pub pre_audio: Vec<TimestampedAudio>,
}

/// The recording in progress, if any.
pub enum ActiveEvent<H> {
    /// No recording is in progress.
    Idle,
    /// The encoder runs, but the pre-buffer is not written yet.
    Pending(PendingEvent<H>),
    /// The pre-buffer is written and live footage follows.
    Active(RecordingEvent<H>),
}

impl<H> ActiveEvent<H> {
    /// Whether a recording, pending or active, is in progress.
    pub fn is_some(&self) -> (r: bool)
        ensures
            r == !(*self is Idle),
    {
        match self {
            ActiveEvent::Idle => false,
            ActiveEvent::Pending(_) => true,
            ActiveEvent::Active(_) => true,
        }
    }

    /// The active recording. A pending one is withheld: writing to it would
    /// come before its pre-buffer.
    pub fn as_recording_mut(&mut self) -> (r: Option<&mut RecordingEvent<H>>)
        ensures
            match r {
                Some(event) => {
                    &&& *old(self) is Active
                    &&& *event == old(self)->Active_0
                    &&& *final(self) == ActiveEvent::Active(*final(event))
                },
                None => !(*old(self) is Active) && *final(self) == *old(self),
            },
    {
        match self {
            ActiveEvent::Active(event) => Some(event),
            _ => None,
        }
    }

    /// Takes the recording in progress, pending or active, if any, and leaves
    /// none behind.
    pub fn take(&mut self) -> (r: Option<RecordingEvent<H>>)
        ensures
            *final(self) is Idle,
            r == match *old(self) {
                ActiveEvent::Idle => None,
                ActiveEvent::Pending(pending) => Some(pending.event),
                ActiveEvent::Active(event) => Some(event),
            },
    {
        let mut taken: ActiveEvent<H> = ActiveEvent::Idle;
        std::mem::swap(&mut taken, self);
        match taken {
            ActiveEvent::Idle => None,
            ActiveEvent::Pending(pending) => Some(pending.event),
            ActiveEvent::Active(event) => Some(event),
        }
    }
}

/// Takes note of how far the pre-buffer of a pending recording was written. A
/// recording goes on even if not all of it was.
pub fn seed_pending_at<H>(pending: PendingEvent<H>, outcome: SeedOutcome, now: Instant) -> (r:
    RecordingEvent<H>)
    requires
        pending.event.state.frame_rate > 0 || pending.pre_frames@.len() == 0 || outcome
            == SeedOutcome::FramesFailed,
    ensures
        r.same_recording(&pending.event),
        r.state == crate::recorder::after_seeding(
            pending.event.state,
            pending.pre_frames@,
            pending.pre_audio@,
            outcome,
            now,
        ),
{
    let mut event: RecordingEvent<H> = pending.event;
    event.seed_at(pending.pre_frames.as_slice(), pending.pre_audio.as_slice(), outcome, now);
    event
}

/// What is left to do with the recording in progress on shutdown.
pub enum ShutdownStep<H> {
    /// The writer has not drained yet; ask again once it has.
    Wait,
    /// There is nothing to finish.
    Nothing,
    /// Write the pre-buffer, then finish. Finished without it, the clip would
    /// be empty and its audio could not be muxed.
    SeedThenFinish(PendingEvent<H>),
    /// Finish the clip.
    Finish(RecordingEvent<H>),
}

/// Takes the recording in progress to finish it on shutdown. Nothing is taken
/// before the writer's last drain: footage captured meanwhile would be lost
/// from the end of the clip.
pub fn finish_event_on_shutdown<H>(
    active_event: &mut ActiveEvent<H>,
    writer_drained: &WriterDrained,
) -> (r: ShutdownStep<H>)
    ensures
        !writer_drained.drained() ==> r is Wait && *final(active_event) == *old(active_event),
        writer_drained.drained() ==> {
            &&& *final(active_event) is Idle
            &&& r == match *old(active_event) {
                ActiveEvent::Idle => ShutdownStep::Nothing,
                ActiveEvent::Pending(pending) => ShutdownStep::SeedThenFinish(pending),
                ActiveEvent::Active(event) => ShutdownStep::Finish(event),
            }
        },
{
    if !writer_drained.wait() {
        return ShutdownStep::Wait;
    }
    let mut taken: ActiveEvent<H> = ActiveEvent::Idle;
    std::mem::swap(&mut taken, active_event);
    match taken {
        ActiveEvent::Idle => ShutdownStep::Nothing,
        ActiveEvent::Pending(pending) => ShutdownStep::SeedThenFinish(pending),
        ActiveEvent::Active(event) => ShutdownStep::Finish(event),
    }
}

/// What the writer does with the recording in progress on a poll.
pub enum WriterStep<H> {
    /// Nothing: there is no recording.
    Idle,
    /// Write the pre-buffer, hand the recording back with
    /// [`pre_buffer_written_at`], then drain into it.
    Seed(PendingEvent<H>),
    /// Drain new frames and audio into the active recording.
    Drain,
}

/// Tells the writer what to do: a pending recording is handed out to have its
/// pre-buffer written first, an active one only takes new footage. The caller
/// keeps the recording locked until it is handed back, so nobody sees it
/// missing in between.
pub fn seed_and_drain_active_event<H>(active_event: &mut ActiveEvent<H>) -> (r: WriterStep<H>)
    ensures
        match *old(active_event) {
            ActiveEvent::Idle => r is Idle && *final(active_event) is Idle,
            ActiveEvent::Pending(pending) => {
                &&& r == WriterStep::Seed(pending)
                &&& *final(active_event) is Idle
            },
            ActiveEvent::Active(_) => r is Drain && *final(active_event) == *old(active_event),
        },
{
    let mut taken: ActiveEvent<H> = ActiveEvent::Idle;
    std::mem::swap(&mut taken, active_event);
    match taken {
        ActiveEvent::Idle => WriterStep::Idle,
        ActiveEvent::Pending(pending) => WriterStep::Seed(pending),
        ActiveEvent::Active(event) => {
            *active_event = ActiveEvent::Active(event);
            WriterStep::Drain
        },
    }
}

/// Hands a recording back after its pre-buffer was written, or as much of it
/// as could be; it is active from then on.
pub fn pre_buffer_written_at<H>(
    active_event: &mut ActiveEvent<H>,
    pending: PendingEvent<H>,
    outcome: SeedOutcome,
    now: Instant,
)
    requires
        pending.event.state.frame_rate > 0 || pending.pre_frames@.len() == 0 || outcome
            == SeedOutcome::FramesFailed,
    ensures
        *final(active_event) is Active,
        final(active_event)->Active_0.same_recording(&pending.event),
        final(active_event)->Active_0.state == crate::recorder::after_seeding(
            pending.event.state,
            pending.pre_frames@,
            pending.pre_audio@,
            outcome,
            now,
        ),
{
    *active_event = ActiveEvent::Active(seed_pending_at(pending, outcome, now));
}

/// A recording that is to be finished.
pub struct ClosedEvent<H> {
    /// The recording.
    pub event: RecordingEvent<H>,
    /// Whether it was closed because the camera stopped delivering frames.
    pub stalled: bool,
}

/// Whether a recording is done at `now`: the camera has stalled, or nothing
/// has triggered for the length of the post-buffer.
pub open spec fn done<H>(event: RecordingEvent<H>, post_buffer: Duration, now: Instant) -> bool {
    event.state.stalled(now) || now.since(event.state.last_trigger_at) >= post_buffer.nanos
}

/// What closing makes of the recording in progress at `now`.
pub open spec fn closed<H>(
    active_event: ActiveEvent<H>,
    post_buffer: Duration,
    now: Instant,
) -> Option<ClosedEvent<H>> {
    match active_event {
        ActiveEvent::Active(event) => if done(event, post_buffer, now) {
            Some(ClosedEvent { event, stalled: event.state.stalled(now) })
        } else {
            None
        },
        _ => None,
    }
}

/// Takes the active recording to finish it, if it is done at `now`: the camera
/// has stalled, which the motion gate cannot notice since no frame reaches it
/// any more, or the quiet window has passed.
pub fn close_event_if_done_at<H>(
    active_event: &mut ActiveEvent<H>,
    post_buffer: Duration,
    now: Instant,
) -> (r: Option<ClosedEvent<H>>)
    ensures
        r == closed(*old(active_event), post_buffer, now),
        r is Some ==> *final(active_event) is Idle,
        r is None ==> *final(active_event) == *old(active_event),
{
    let (stalled, quiet_timed_out): (bool, bool) = match &*active_event {
        ActiveEvent::Active(event) => (
            event.camera_stalled_at(now),
            event.quiet_for_at(now).nanos >= post_buffer.nanos,
        ),
        _ => (false, false),
    };
    if stalled || quiet_timed_out {
        match active_event.take() {
            Some(event) => Some(ClosedEvent { event, stalled }),
            None => None,
        }
    } else {
        None
    }
}

/// [`close_event_if_done_at`] the current moment.
pub fn close_event_if_done<H>(
    active_event: &mut ActiveEvent<H>,
    post_buffer: Duration,
    clock: &Clock,
) -> (r: Option<ClosedEvent<H>>)
    ensures
        exists|now: Instant|
            now.nanos >= 0 && r == #[trigger] closed(*old(active_event), post_buffer, now),
        r is Some ==> *final(active_event) is Idle,
        r is None ==> *final(active_event) == *old(active_event),
{
    let now: Instant = clock.now();
    close_event_if_done_at(active_event, post_buffer, now)
}

/// A recording stays open as long as frames arrive and triggers recur within
/// the post-buffer, and closes at the latest one post-buffer after the last.
pub proof fn recording_closes_with_its_quiet_window<H>(
    event: RecordingEvent<H>,
    post_buffer: Duration,
    now: Instant,
)
    requires
        now.since(event.state.last_real_frame_at) < crate::clip_state::MAX_FRAME_STALL,
    ensures
        done(event, post_buffer, now) == (now.since(event.state.last_trigger_at)
            >= post_buffer.nanos),
{
}

/// An active recording is closed exactly when it has been quiet for the length
/// of the post-buffer or the camera has delivered nothing for a second and
/// a half; it is handed out as it is, and marked by the latter.
pub proof fn recording_is_closed_when_quiet_or_stalled<H>(
    event: RecordingEvent<H>,
    post_buffer: Duration,
    now: Instant,
)
    requires
        event.state.last_trigger_at.nanos <= now.nanos,
    ensures
        ({
            let outcome = closed(ActiveEvent::Active(event), post_buffer, now);
            let quiet = now.nanos - event.state.last_trigger_at.nanos;
            let blind = now.nanos - event.state.last_real_frame_at.nanos;
            &&& outcome is Some <==> quiet >= post_buffer.nanos || blind
                >= 1_500_000_000
            &&& outcome is Some ==> outcome->0.event == event && (outcome->0.stalled <==> blind
                >= 1_500_000_000)
        }),
{
}

/// A recording whose pre-buffer is not written yet is never closed, nor is
/// there anything to close where there is none.
pub proof fn only_active_recordings_are_closed<H>(
    pending: PendingEvent<H>,
    post_buffer: Duration,
    now: Instant,
)
    ensures
        closed(ActiveEvent::<H>::Idle, post_buffer, now) is None,
        closed(ActiveEvent::Pending(pending), post_buffer, now) is None,
{
}

} // verus!
