//! Timing and bookkeeping of a single recorded clip.

use vstd::prelude::*;

use crate::sidecar::{DetectionRecord, MotionEvent};
use crate::single::Single;
use crate::text::insert_text;
use crate::time::{Clock, Duration, Instant};

verus! {

/// How long the camera may go without delivering a real frame before a
/// recording counts as stalled, in nanoseconds: well above ordinary delivery jitter, and short
/// enough that a dead camera ends the recording within a couple of seconds.
pub const MAX_FRAME_STALL: u128 = 1_500_000_000;

/// Whether one second divided by `frame_rate`, as a double-precision quotient,
/// comes out just below (or exactly on) the middle between two nanoseconds and
/// is rounded down. Only three rates do.
pub open spec fn tick_rounds_down(frame_rate: u32) -> bool {
    frame_rate == 1024 || frame_rate == 16_000_000 || frame_rate == 80_000_000
}

/// Nanoseconds of one tick at `frame_rate` frames per second: one second
/// divided by the rate, to the nearest nanosecond. A quotient in the middle
/// goes up, except at the rates of [`tick_rounds_down`].
pub open spec fn tick_nanos(frame_rate: u32) -> int {
    let whole = 1_000_000_000int / (frame_rate as int);
    let rest = 1_000_000_000int % (frame_rate as int);
    if 2 * rest > frame_rate || (2 * rest == frame_rate && !tick_rounds_down(frame_rate)) {
        whole + 1
    } else {
        whole
    }
}

/// Duration of one frame-rate tick at `frame_rate` frames per second. Live
/// writing and the resampling of the pre-buffer both use it, so they cannot
/// drift apart.
pub fn frame_tick(frame_rate: u32) -> (r: Duration)
    requires
        frame_rate > 0,
    ensures
        r.nanos == tick_nanos(frame_rate),
{
    let rate: u64 = frame_rate as u64;
    let whole: u64 = 1_000_000_000 / rate;
    let rest: u64 = 1_000_000_000 % rate;
    let down: bool = frame_rate == 1024 || frame_rate == 16_000_000 || frame_rate == 80_000_000;
    let up: bool = 2 * rest > rate || (2 * rest == rate && !down);
    assert(whole <= 1_000_000_000) by (nonlinear_arith)
        requires
            whole == 1_000_000_000u64 / rate,
            rate > 0,
    ;
    if up {
        Duration { nanos: whole as u128 + 1 }
    } else {
        Duration { nanos: whole as u128 }
    }
}

/// Whether the pre-buffer has had `pre_buffer_secs` to refill at `now`, given
/// when the capture stream was last rebuilt.
pub open spec fn refilled(
    reconnected_at: Option<Instant>,
    pre_buffer_secs: u32,
    now: Instant,
) -> bool {
    match reconnected_at {
        Some(at) => now.since(at) >= pre_buffer_secs * 1_000_000_000,
        None => true,
    }
}

/// `false` while the ring buffer has not yet had `pre_buffer_secs` of time to
/// refill since the capture stream was last rebuilt. A trigger before that
/// would seed a clip with less lead-in than configured. `reconnected_at` is
/// `None` before any reconnect, when the buffer has had the whole run to fill.
pub fn pre_buffer_ready(
    reconnected_at: Option<Instant>,
    pre_buffer_secs: u32,
    now: Instant,
) -> (r: bool)
    ensures
        r == refilled(reconnected_at, pre_buffer_secs, now),
{
    match reconnected_at {
        Some(at) => {
            now.duration_since(at).nanos >= Duration::from_secs(pre_buffer_secs as u64).nanos
        },
        None => true,
    }
}

/// Once the buffer is ready it stays ready until the next reconnect.
pub proof fn pre_buffer_stays_ready(
    reconnected_at: Option<Instant>,
    pre_buffer_secs: u32,
    now: Instant,
    later: Instant,
)
    requires
        refilled(reconnected_at, pre_buffer_secs, now),
        now.nanos <= later.nanos,
    ensures
        refilled(reconnected_at, pre_buffer_secs, later),
{
}

/// Timing and bookkeeping of a single recorded clip: everything about its
/// lifecycle except the encoder and the files.
pub struct ClipState {
    /// Configured video frame rate for this clip.
    pub frame_rate: u32,
    /// Capture timestamp of the clip's first frame (the start of the
    /// pre-buffer window, not the trigger), the zero point of every offset.
    pub clip_timeline_start: Instant,
    /// When the most recent triggering detection occurred.
    pub last_trigger_at: Instant,
    /// Timestamp up to which audio has already been drained.
    pub last_audio_drain_at: Instant,
    /// Timestamp up to which frames have already been drained.
    pub last_frame_drain_at: Instant,
    /// The next frame-rate tick due to be written, if any.
    pub next_frame_due: Option<Instant>,
    /// When the camera last delivered a real frame. A missed tick is never
    /// filled by repeating a frame; the stall is reported instead.
    pub last_real_frame_at: Instant,
    /// Every distinct class detected so far, in alphabetical order.
    pub all_classes: Vec<String>,
    /// Every detection recorded so far.
    pub detections: Vec<DetectionRecord>,
    /// Every motion-gate trip recorded so far.
    pub motion_events: Vec<MotionEvent>,
}

/// Whether a frame at `frame_timestamp` has reached the tick that is due. With
/// no tick scheduled yet every frame has.
pub open spec fn tick_reached(next_due: Option<Instant>, frame_timestamp: Instant) -> bool {
    match next_due {
        Some(due) => frame_timestamp.nanos >= due.nanos,
        None => true,
    }
}

/// The tick scheduled after a frame at `frame_timestamp` was looked at: one
/// tick past the one it reached, or the same one if it reached none.
pub open spec fn next_tick(
    next_due: Option<Instant>,
    frame_timestamp: Instant,
    frame_rate: u32,
) -> Option<Instant> {
    if tick_reached(next_due, frame_timestamp) {
        let due = match next_due {
            Some(due) => due,
            None => frame_timestamp,
        };
        Some(Instant { nanos: due.after(tick_nanos(frame_rate)) as i128 })
    } else {
        next_due
    }
}

impl ClipState {
    /// A clip has a frame rate, and its class list is that of its detections.
    pub open spec fn wf(&self) -> bool {
        &&& self.frame_rate > 0
        &&& crate::text::texts(self.all_classes@) == crate::text::sorted_unique(
            crate::sidecar::detected_classes(self.detections@),
        )
    }

    /// Whether two states agree in everything about frames and audio: the
    /// rate, the timeline, what was drained, the next tick and the last frame.
    pub open spec fn same_media(&self, other: &ClipState) -> bool {
        &&& self.frame_rate == other.frame_rate
        &&& self.clip_timeline_start == other.clip_timeline_start
        &&& self.last_audio_drain_at == other.last_audio_drain_at
        &&& self.last_frame_drain_at == other.last_frame_drain_at
        &&& self.next_frame_due == other.next_frame_due
        &&& self.last_real_frame_at == other.last_real_frame_at
    }

    /// Fresh bookkeeping for a clip that began at `now`.
    pub open spec fn fresh(
        &self,
        frame_rate: u32,
        clip_timeline_start: Instant,
        now: Instant,
    ) -> bool {
        &&& self.frame_rate == frame_rate
        &&& self.clip_timeline_start == clip_timeline_start
        &&& self.last_trigger_at == now
        &&& self.last_audio_drain_at == now
        &&& self.last_frame_drain_at == now
        &&& self.next_frame_due == None::<Instant>
        &&& self.last_real_frame_at == now
        &&& self.all_classes@.len() == 0
        &&& self.detections@.len() == 0
        &&& self.motion_events@.len() == 0
    }

    /// Starts fresh bookkeeping for a clip beginning at `now`, with playback
    /// at `frame_rate`.
    pub fn new_at(frame_rate: u32, clip_timeline_start: Instant, now: Instant) -> (r: ClipState)
        ensures
            r.fresh(frame_rate, clip_timeline_start, now),
            frame_rate > 0 ==> r.wf(),
    {
        let state = ClipState {
            frame_rate,
            clip_timeline_start,
            last_trigger_at: now,
            last_audio_drain_at: now,
            last_frame_drain_at: now,
            next_frame_due: None,
            last_real_frame_at: now,
            all_classes: Vec::new(),
            detections: Vec::new(),
            motion_events: Vec::new(),
        };
        proof {
            assert(crate::sidecar::detected_classes(state.detections@) =~= Seq::empty());
            assert(crate::text::texts(state.all_classes@) =~= Seq::empty());
        }
        state
    }

    /// Starts fresh bookkeeping for a clip beginning now, with playback at
    /// `frame_rate`.
    pub fn new(frame_rate: u32, clip_timeline_start: Instant, clock: &Clock) -> (r: ClipState)
        ensures
            exists|now: Instant| now.nanos >= 0 && r.fresh(frame_rate, clip_timeline_start, now),
            frame_rate > 0 ==> r.wf(),
    {
        let now: Instant = clock.now();
        Self::new_at(frame_rate, clip_timeline_start, now)
    }

    /// Whether the camera has gone the stall limit without a real frame at `now`.
    pub open spec fn stalled(&self, now: Instant) -> bool {
        now.since(self.last_real_frame_at) >= MAX_FRAME_STALL
    }

    /// True once the camera has gone [`MAX_FRAME_STALL`] without delivering a
    /// real frame at `now`: a signal to end the recording, since nothing else
    /// will once frames stop arriving.
    pub fn camera_stalled_at(&self, now: Instant) -> (r: bool)
        ensures
            r == self.stalled(now),
    {
        now.duration_since(self.last_real_frame_at).nanos >= MAX_FRAME_STALL
    }

    /// [`ClipState::camera_stalled_at`] the current moment.
    pub fn camera_stalled(&self, clock: &Clock) -> (r: bool)
        ensures
            exists|now: Instant| now.nanos >= 0 && r == #[trigger] self.stalled(now),
    {
        let now: Instant = clock.now();
        self.camera_stalled_at(now)
    }

    /// Duration of one frame-rate tick at this clip's frame rate.
    pub fn frame_tick(&self) -> (r: Duration)
        requires
            self.frame_rate > 0,
        ensures
            r.nanos == tick_nanos(self.frame_rate),
    {
        frame_tick(self.frame_rate)
    }

    /// Decides whether a newly drained frame at `frame_timestamp` is due to be
    /// written, moving the due tick on by one if so. The first frame ever seen
    /// is due by itself, so draining never waits for a tick before it.
    pub fn should_write_frame(&mut self, frame_timestamp: Instant) -> (r: bool)
        requires
            tick_reached(old(self).next_frame_due, frame_timestamp) ==> old(self).frame_rate > 0,
        ensures
            r == tick_reached(old(self).next_frame_due, frame_timestamp),
            final(self).next_frame_due == next_tick(
                old(self).next_frame_due,
                frame_timestamp,
                old(self).frame_rate,
            ),
            *final(self) == (ClipState {
                next_frame_due: final(self).next_frame_due,
                ..*old(self)
            }),
    {
        let due: Instant = match self.next_frame_due {
            Some(due) => due,
            None => frame_timestamp,
        };
        if frame_timestamp.nanos < due.nanos {
            return false;
        }
        let next_due: Instant = due.plus(self.frame_tick());
        self.next_frame_due = Some(next_due);
        true
    }

    /// Anchors the tick clock to `last_seeded_timestamp`, the capture
    /// timestamp of the last frame seeded, so that live writing goes on one
    /// tick after the pre-buffer's last frame.
    pub fn anchor_next_tick_after_seed(&mut self, last_seeded_timestamp: Instant)
        requires
            old(self).frame_rate > 0,
        ensures
            *final(self) == (ClipState {
                last_frame_drain_at: last_seeded_timestamp,
                next_frame_due: Some(
                    Instant {
                        nanos: last_seeded_timestamp.after(
                            tick_nanos(old(self).frame_rate),
                        ) as i128,
                    },
                ),
                ..*old(self)
            }),
    {
        self.last_frame_drain_at = last_seeded_timestamp;
        let next_due: Instant = last_seeded_timestamp.plus(self.frame_tick());
        self.next_frame_due = Some(next_due);
    }

    /// Whether `self` is `before` with one more detection, seen at `now`.
    pub open spec fn has_detection_added(
        &self,
        before: &ClipState,
        class_name: Seq<char>,
        confidence: Single,
        frame_timestamp: Instant,
        now: Instant,
    ) -> bool {
        &&& self.same_media(before)
        &&& self.last_trigger_at == now
        &&& crate::text::texts(self.all_classes@) == crate::text::with_text(
            crate::text::texts(before.all_classes@),
            class_name,
        )
        &&& self.detections@.len() == before.detections@.len() + 1
        &&& self.detections@.drop_last() == before.detections@
        &&& self.detections@.last().offset.nanos == frame_timestamp.since(
            before.clip_timeline_start,
        )
        &&& self.detections@.last().class_name@ == class_name
        &&& self.detections@.last().confidence == confidence
        &&& self.motion_events == before.motion_events
    }

    /// Records a detection and restarts the quiet window at `now`.
    /// `frame_timestamp` is the capture timestamp of the frame the detection
    /// ran against.
    pub fn record_detection_at(
        &mut self,
        class_name: &str,
        confidence: Single,
        frame_timestamp: Instant,
        now: Instant,
    )
        ensures
            final(self).has_detection_added(
                old(self),
                class_name@,
                confidence,
                frame_timestamp,
                now,
            ),
            old(self).wf() ==> final(self).wf(),
    {
        let offset: Duration = self.offset_secs(frame_timestamp);
        insert_text(&mut self.all_classes, class_name);
        self.detections.push(
            DetectionRecord { offset, class_name: class_name.to_owned(), confidence },
        );
        self.last_trigger_at = now;
        proof {
            let before = crate::sidecar::detected_classes(old(self).detections@);
            let after = crate::sidecar::detected_classes(self.detections@);
            assert(after =~= before.push(class_name@));
            assert(after.drop_last() =~= before);
            assert(self.detections@.drop_last() =~= old(self).detections@);
        }
    }

    /// [`ClipState::record_detection_at`] the current moment.
    pub fn record_detection(
        &mut self,
        class_name: &str,
        confidence: Single,
        frame_timestamp: Instant,
        clock: &Clock,
    )
        ensures
            exists|now: Instant|
                now.nanos >= 0 && final(self).has_detection_added(
                    old(self),
                    class_name@,
                    confidence,
                    frame_timestamp,
                    now,
                ),
            old(self).wf() ==> final(self).wf(),
    {
        let now: Instant = clock.now();
        self.record_detection_at(class_name, confidence, frame_timestamp, now);
    }

    /// Restarts the quiet window at `now` without recording a detection.
    pub fn touch_at(&mut self, now: Instant)
        ensures
            *final(self) == (ClipState { last_trigger_at: now, ..*old(self) }),
    {
        self.last_trigger_at = now;
    }

    /// [`ClipState::touch_at`] the current moment.
    pub fn touch(&mut self, clock: &Clock)
        ensures
            final(self).last_trigger_at.nanos >= 0,
            *final(self) == (ClipState {
                last_trigger_at: final(self).last_trigger_at,
                ..*old(self)
            }),
    {
        let now: Instant = clock.now();
        self.touch_at(now);
    }

    /// Records a motion-gate trip. Purely diagnostic: it does not restart the
    /// quiet window.
    pub fn record_motion(&mut self, changed_ratio: Single, frame_timestamp: Instant)
        ensures
            *final(self) == (ClipState {
                motion_events: final(self).motion_events,
                ..*old(self)
            }),
            final(self).motion_events@ == old(self).motion_events@.push(
                MotionEvent {
                    offset: Duration {
                        nanos: frame_timestamp.since(old(self).clip_timeline_start) as u128,
                    },
                    changed_ratio,
                },
            ),
    {
        let offset: Duration = self.offset_secs(frame_timestamp);
        self.motion_events.push(MotionEvent { offset, changed_ratio });
    }

    /// Time from the clip's timeline start to `frame_timestamp`, zero for a
    /// frame from before it.
    pub fn offset_secs(&self, frame_timestamp: Instant) -> (r: Duration)
        ensures
            r.nanos == frame_timestamp.since(self.clip_timeline_start),
    {
        frame_timestamp.duration_since(self.clip_timeline_start)
    }

    /// How long at `now` it has been since the last trigger or touch.
    pub fn quiet_for_at(&self, now: Instant) -> (r: Duration)
        ensures
            r.nanos == now.since(self.last_trigger_at),
    {
        now.duration_since(self.last_trigger_at)
    }

    /// [`ClipState::quiet_for_at`] the current moment.
    pub fn quiet_for(&self, clock: &Clock) -> (r: Duration)
        ensures
            exists|now: Instant|
                now.nanos >= 0 && r.nanos == #[trigger] now.since(self.last_trigger_at),
    {
        let now: Instant = clock.now();
        self.quiet_for_at(now)
    }

    /// Hands over the accumulated class list and sidecar records.
    pub fn into_parts(self) -> (r: (Vec<String>, Vec<DetectionRecord>, Vec<MotionEvent>))
        ensures
            r == (self.all_classes, self.detections, self.motion_events),
    {
        (self.all_classes, self.detections, self.motion_events)
    }
}

/// A tick is one second divided by the rate, to the nearest nanosecond; in the
/// middle it is the longer one, but for three rates.
pub proof fn tick_is_a_second_over_the_rate(frame_rate: u32)
    requires
        frame_rate > 0,
    ensures
        -frame_rate <= 2 * (tick_nanos(frame_rate) * frame_rate - 1_000_000_000) <= frame_rate,
        frame_rate != 1024 && frame_rate != 16_000_000 && frame_rate != 80_000_000 ==> -frame_rate
            < 2 * (tick_nanos(frame_rate) * frame_rate - 1_000_000_000),
        frame_rate == 1024 || frame_rate == 16_000_000 || frame_rate == 80_000_000 ==> 2 * (
        tick_nanos(frame_rate) * frame_rate - 1_000_000_000) < frame_rate,
{
    let whole = 1_000_000_000int / (frame_rate as int);
    let rest = 1_000_000_000int % (frame_rate as int);
    vstd::arithmetic::div_mod::lemma_fundamental_div_mod(1_000_000_000, frame_rate as int);
    vstd::arithmetic::div_mod::lemma_mod_bound(1_000_000_000, frame_rate as int);
    assert(whole * frame_rate == 1_000_000_000 - rest) by (nonlinear_arith)
        requires
            1_000_000_000 == frame_rate * whole + rest,
    ;
    assert((whole + 1) * frame_rate == whole * frame_rate + frame_rate) by (nonlinear_arith);
}

/// The pre-buffer counts as refilled from the very moment on at which its
/// length has passed since the reconnect, and always without one.
pub proof fn pre_buffer_refills_in_its_own_time(
    rebuilt_at: Instant,
    pre_buffer_secs: u32,
    now: Instant,
)
    ensures
        refilled(None, pre_buffer_secs, now),
        rebuilt_at.nanos + pre_buffer_secs * 1_000_000_000 <= now.nanos ==> refilled(
            Some(rebuilt_at),
            pre_buffer_secs,
            now,
        ),
        rebuilt_at.nanos < now.nanos < rebuilt_at.nanos + pre_buffer_secs * 1_000_000_000
            ==> !refilled(Some(rebuilt_at), pre_buffer_secs, now),
{
}

/// A clip that was just begun takes whatever frame comes first, has been quiet
/// and without a frame since it was begun, and has nothing to its name yet.
pub proof fn clip_begins_with_fresh_clocks(
    state: ClipState,
    frame_rate: u32,
    clip_timeline_start: Instant,
    began: Instant,
    now: Instant,
    frame_timestamp: Instant,
)
    requires
        state.fresh(frame_rate, clip_timeline_start, began),
        began.nanos <= now.nanos,
    ensures
        tick_reached(state.next_frame_due, frame_timestamp),
        now.since(state.last_trigger_at) == now.nanos - began.nanos,
        state.stalled(now) == (now.nanos - began.nanos >= 1_500_000_000),
        frame_timestamp.nanos > began.nanos <==> frame_timestamp.nanos
            > state.last_frame_drain_at.nanos,
        frame_timestamp.nanos > began.nanos <==> frame_timestamp.nanos
            > state.last_audio_drain_at.nanos,
        frame_timestamp.since(state.clip_timeline_start) == frame_timestamp.since(
            clip_timeline_start,
        ),
        state.frame_rate == frame_rate,
        state.all_classes@ == Seq::<String>::empty(),
        state.detections@ == Seq::<DetectionRecord>::empty(),
        state.motion_events@ == Seq::<MotionEvent>::empty(),
{
}

/// A recorded detection is added behind the others with its place on the
/// clip's timeline, its class joins the clip's classes, and the quiet window
/// starts over; the footage is left alone.
pub proof fn detection_joins_the_clip(
    before: ClipState,
    after: ClipState,
    class_name: Seq<char>,
    confidence: Single,
    frame_timestamp: Instant,
    now: Instant,
)
    requires
        after.has_detection_added(&before, class_name, confidence, frame_timestamp, now),
        before.wf(),
    ensures
        ({
            let record = after.detections@.last();
            &&& after.detections@ == before.detections@.push(record)
            &&& record.class_name@ == class_name
            &&& record.confidence == confidence
            &&& frame_timestamp.nanos >= before.clip_timeline_start.nanos
                ==> before.clip_timeline_start.nanos + record.offset.nanos
                == frame_timestamp.nanos
            &&& frame_timestamp.nanos < before.clip_timeline_start.nanos ==> record.offset.nanos
                == 0
        }),
        crate::text::texts(after.all_classes@).to_set() == crate::text::texts(
            before.all_classes@,
        ).to_set().insert(class_name),
        crate::text::alphabetical(crate::text::texts(after.all_classes@)),
        after.last_trigger_at == now,
        after.motion_events == before.motion_events,
        after.last_frame_drain_at == before.last_frame_drain_at,
        after.last_audio_drain_at == before.last_audio_drain_at,
        after.next_frame_due == before.next_frame_due,
        after.last_real_frame_at == before.last_real_frame_at,
        after.clip_timeline_start == before.clip_timeline_start,
        after.frame_rate == before.frame_rate,
{
    let classes = crate::sidecar::detected_classes(before.detections@);
    crate::text::sorted_unique_is_sorted_set(classes);
    crate::text::with_text_keeps_order(crate::text::texts(before.all_classes@), class_name);
    assert(after.detections@ =~= before.detections@.push(after.detections@.last()));
}

/// A frame is written from its tick on, and not before; and the tick moves on
/// by the same step whenever the frame came.
pub proof fn ticks_come_in_even_steps(due: Instant, frame_timestamp: Instant, frame_rate: u32)
    requires
        due.nanos + tick_nanos(frame_rate) <= i128::MAX,
        frame_rate > 0,
    ensures
        tick_reached(Some(due), frame_timestamp) == (frame_timestamp.nanos >= due.nanos),
        frame_timestamp.nanos >= due.nanos ==> {
            let next = next_tick(Some(due), frame_timestamp, frame_rate);
            next is Some && next->0.nanos - due.nanos == tick_nanos(frame_rate)
        },
        frame_timestamp.nanos < due.nanos ==> next_tick(Some(due), frame_timestamp, frame_rate)
            == Some(due),
        frame_timestamp.nanos + tick_nanos(frame_rate) <= i128::MAX ==> {
            let next = next_tick(None, frame_timestamp, frame_rate);
            next is Some && next->0.nanos - frame_timestamp.nanos == tick_nanos(frame_rate)
        },
{
    assert(0 <= 1_000_000_000int / (frame_rate as int)) by (nonlinear_arith)
        requires
            frame_rate > 0,
    ;
}

} // verus!
