//! What a poll of the latest frame does to a recording: start it, extend it,
//! or close it.

use vstd::prelude::*;

use crate::buffer::{RingBuffer, TimestampedAudio, TimestampedFrame};
use crate::clip_state::pre_buffer_ready;
use crate::confirmation::{
    expire_stale_pending, poll_confirmed_detections, ActiveEventPending, PreTriggerPending,
};
use crate::detect::Detection;
use crate::event_lifecycle::{close_event_if_done_at, ActiveEvent, ClosedEvent, PendingEvent};
use crate::motion::MotionReading;
use crate::paths::{clip_path, day_dir, LocalTime};
use crate::recorder::{RecordingEvent, RecordingEventParams};
use crate::sidecar::{DetectionRecord, MotionEvent};
use crate::single::Single;
use crate::time::{Duration, Instant};

verus! {

/// Recorded video frame rate. Somewhat below what the camera delivers under
/// load: a faster writer would only write stale frames again.
pub const RECORDING_FRAME_RATE: u32 = 15;

/// Time between two polls of the writer, in nanoseconds: one frame at the
/// recorded rate, in whole milliseconds.
pub const RECORDING_POLL_INTERVAL: u128 = 66_000_000;

/// Format of the captured audio, fixed at startup.
#[derive(Clone, Copy, Debug)]
pub struct AudioParams {
    /// Sample rate of the captured audio stream, in Hz.
    pub sample_rate: u32,
    /// Number of audio channels in the captured stream.
    pub channels: u16,
}

/// A detection record as plain values: its offset in nanoseconds, its class
/// and its confidence.
pub open spec fn recorded(record: DetectionRecord) -> (u128, Seq<char>, Single) {
    (record.offset.nanos, record.class_name@, record.confidence)
}

/// The class names of a list of detections, in their order.
pub open spec fn class_names(detections: Seq<Detection>) -> Seq<Seq<char>> {
    Seq::new(detections.len(), |i: int| detections[i].class_name@)
}

/// A class list with several names put into it, one after another.
pub open spec fn with_texts(list: Seq<Seq<char>>, names: Seq<Seq<char>>) -> Seq<Seq<char>>
    decreases names.len(),
{
    if names.len() == 0 {
        list
    } else {
        crate::text::with_text(with_texts(list, names.drop_last()), names.last())
    }
}

/// Whether `after` is `before` with every one of the detections recorded at
/// `now`.
pub open spec fn detections_added<H>(
    before: RecordingEvent<H>,
    after: RecordingEvent<H>,
    detections: Seq<Detection>,
    frame_timestamp: Instant,
    now: Instant,
) -> bool {
    &&& after.same_recording(&before)
    &&& after.state.same_media(&before.state)
    &&& after.state.last_trigger_at == if detections.len() == 0 {
        before.state.last_trigger_at
    } else {
        now
    }
    &&& crate::text::texts(after.state.all_classes@) == with_texts(
        crate::text::texts(before.state.all_classes@),
        class_names(detections),
    )
    &&& after.state.detections@.map_values(|r: DetectionRecord| recorded(r))
        == before.state.detections@.map_values(|r: DetectionRecord| recorded(r))
        + detections.map_values(
        |d: Detection|
            (
                frame_timestamp.since(before.state.clip_timeline_start) as u128,
                d.class_name@,
                d.confidence,
            ),
    )
    &&& after.state.motion_events == before.state.motion_events
}

/// Records every one of the detections at `now`.
fn record_all<H>(
    event: &mut RecordingEvent<H>,
    detections: &Vec<Detection>,
    frame_timestamp: Instant,
    now: Instant,
)
    ensures
        detections_added(*old(event), *final(event), detections@, frame_timestamp, now),
        old(event).state.wf() ==> final(event).state.wf(),
{
    let ghost before = *event;
    let ghost names = class_names(detections@);
    let ghost as_record = |d: Detection|
        (
            frame_timestamp.since(before.state.clip_timeline_start) as u128,
            d.class_name@,
            d.confidence,
        );
    let mut i: usize = 0;
    proof {
        assert(detections@.take(0) =~= seq![]);
        assert(class_names(detections@.take(0)) =~= seq![]);
        assert(detections@.take(0).map_values(as_record) =~= seq![]);
    }
    while i < detections.len()
        invariant
            i <= detections@.len(),
            as_record == (|d: Detection|
                (
                    frame_timestamp.since(before.state.clip_timeline_start) as u128,
                    d.class_name@,
                    d.confidence,
                )),
            detections_added(before, *event, detections@.take(i as int), frame_timestamp, now),
            before.state.wf() ==> event.state.wf(),
        decreases detections@.len() - i,
    {
        let ghost mid = *event;
        event.record_detection_at(
            detections[i].class_name,
            detections[i].confidence,
            frame_timestamp,
            now,
        );
        proof {
            let upto = detections@.take(i + 1);
            let done = detections@.take(i as int);
            let d = detections@[i as int];
            let rec = |r: DetectionRecord| recorded(r);
            assert(upto =~= done.push(d));
            assert(class_names(upto).drop_last() =~= class_names(done));
            assert(upto.map_values(as_record) =~= done.map_values(as_record).push(as_record(d)));
            assert(event.state.detections@ =~= mid.state.detections@.push(
                event.state.detections@.last(),
            ));
            assert(event.state.detections@.map_values(rec) =~= mid.state.detections@.map_values(
                rec,
            ).push(recorded(event.state.detections@.last())));
            assert(event.state.detections@.map_values(rec) =~= before.state.detections@.map_values(
                rec,
            ) + upto.map_values(as_record));
        }
        i = i + 1;
    }
    assert(detections@.take(i as int) =~= detections@);
}

/// Whether `after` is `before` with a motion-gate trip recorded, and nothing
/// else.
pub open spec fn motion_added<H>(
    before: RecordingEvent<H>,
    after: RecordingEvent<H>,
    changed_ratio: Single,
    frame_timestamp: Instant,
) -> bool {
    &&& after.same_recording(&before)
    &&& after.state == (crate::clip_state::ClipState {
        motion_events: after.state.motion_events,
        ..before.state
    })
    &&& after.state.motion_events@ == before.state.motion_events@.push(
        MotionEvent {
            offset: Duration {
                nanos: frame_timestamp.since(before.state.clip_timeline_start) as u128,
            },
            changed_ratio,
        },
    )
}

/// Whether `after` is what a poll of an active recording makes of `before`.
/// `confirmed` is what the poll confirmed, if motion tripped and anything
/// was; `seen` is whether a class was seen recently, confirmed or not.
pub open spec fn polled<H>(
    before: RecordingEvent<H>,
    after: RecordingEvent<H>,
    motion: MotionReading,
    confirmed: Option<Seq<Detection>>,
    seen: bool,
    frame_timestamp: Instant,
    now: Instant,
) -> bool {
    if !motion.tripped {
        after == before
    } else {
        exists|moved: RecordingEvent<H>|
            {
                &&& #[trigger] motion_added(before, moved, motion.changed_ratio, frame_timestamp)
                &&& match confirmed {
                    Some(detections) => detections_added(
                        moved,
                        after,
                        detections,
                        frame_timestamp,
                        now,
                    ),
                    None => {
                        &&& after.same_recording(&moved)
                        &&& after.state == if seen {
                            crate::clip_state::ClipState { last_trigger_at: now, ..moved.state }
                        } else {
                            moved.state
                        }
                    },
                }
            }
    }
}

/// What a poll confirms: the detections, if motion tripped and they repeat a
/// pending sighting.
pub open spec fn poll_confirms(
    motion: MotionReading,
    detections: Seq<Detection>,
    pending: ActiveEventPending,
    polled_at: Instant,
) -> Option<Seq<Detection>> {
    if motion.tripped && crate::confirmation::repeats(pending.0, detections, polled_at) {
        Some(detections)
    } else {
        None
    }
}

/// Takes a poll of the latest frame into the active recording: `motion` is the
/// motion gate's reading, `detected` what the detector, called at `polled_at`, made
/// of the frame; it is called only if motion tripped. Records both, and hands
/// the recording out if it is done at `now`.
///
/// A detection has to pass the repeat-sighting gate here as well: on its own,
/// a class that is reported over and over in an empty room would keep the
/// recording open for minutes. And a bare trip of the motion gate extends the
/// recording only while a class was seen recently, or sensor noise would keep
/// it open after the subject has left.
pub fn evaluate_active_event<H, E>(
    active_event: &mut ActiveEvent<H>,
    motion: MotionReading,
    detected: Option<Result<Vec<Detection>, E>>,
    frame_timestamp: Instant,
    post_buffer: Duration,
    pending_confirmation: &mut ActiveEventPending,
    polled_at: Instant,
    now: Instant,
) -> (r: Result<Option<ClosedEvent<H>>, E>)
    requires
        motion.tripped ==> detected is Some,
    ensures
        motion.tripped && detected->0 is Err ==> {
            &&& r == Err::<Option<ClosedEvent<H>>, E>(detected->0->Err_0)
            &&& *final(active_event) == *old(active_event)
            &&& *final(pending_confirmation) == *old(pending_confirmation)
        },
        !motion.tripped ==> *final(pending_confirmation) == *old(pending_confirmation),
        motion.tripped && detected->0 is Ok ==> final(pending_confirmation).0
            == crate::confirmation::pending_after(
            old(pending_confirmation).0,
            detected->0->Ok_0@,
            polled_at,
        ),
        motion.tripped ==> detected->0 is Ok ==> r is Ok,
        !motion.tripped ==> r is Ok,
        r is Ok && !(*old(active_event) is Active) ==> r->Ok_0 is None && *final(active_event)
            == *old(active_event),
        r is Ok && *old(active_event) is Active ==> exists|after: RecordingEvent<H>|
            {
                &&& #[trigger] polled(
                    old(active_event)->Active_0,
                    after,
                    motion,
                    poll_confirms(
                        motion,
                        detected->0->Ok_0@,
                        *old(pending_confirmation),
                        polled_at,
                    ),
                    final(pending_confirmation).0 is Some,
                    frame_timestamp,
                    now,
                )
                &&& r->Ok_0 == crate::event_lifecycle::closed(
                    ActiveEvent::Active(after),
                    post_buffer,
                    now,
                )
                &&& r->Ok_0 is Some ==> *final(active_event) is Idle
                &&& r->Ok_0 is None ==> *final(active_event) == ActiveEvent::Active(after)
                &&& old(active_event)->Active_0.state.wf() ==> after.state.wf()
            },
{
    let ghost given = detected;
    let mut confirmed: Option<Vec<Detection>> = None;
    if motion.tripped {
        if let Some(result) = detected {
            match poll_confirmed_detections(result, &mut pending_confirmation.0, polled_at) {
                Ok(hits) => {
                    confirmed = hits;
                },
                Err(e) => {
                    return Err(e);
                },
            }
        }
    }
    let seen: bool = pending_confirmation.is_some();
    let mut taken: ActiveEvent<H> = ActiveEvent::Idle;
    std::mem::swap(&mut taken, active_event);
    let mut event: RecordingEvent<H> = match taken {
        ActiveEvent::Active(event) => event,
        other => {
            // Closed elsewhere while the detector ran, or not seeded yet.
            *active_event = other;
            return Ok(None);
        },
    };
    let ghost before = event;
    if motion.tripped {
        event.record_motion(motion.changed_ratio, frame_timestamp);
        let ghost moved = event;
        assert(motion_added(before, moved, motion.changed_ratio, frame_timestamp));
        if let Some(hits) = &confirmed {
            record_all(&mut event, hits, frame_timestamp, now);
        } else if seen {
            event.touch_at(now);
        }
    }
    assert(polled(
        before,
        event,
        motion,
        poll_confirms(motion, given->0->Ok_0@, *old(pending_confirmation), polled_at),
        seen,
        frame_timestamp,
        now,
    ));
    *active_event = ActiveEvent::Active(event);
    Ok(close_event_if_done_at(active_event, post_buffer, now))
}

/// Decides whether to run the detector on a frame while nothing is recorded:
/// only if the motion gate tripped, and only once the pre-buffer has refilled
/// after a reconnect. While it has not, a stale sighting still expires, and a
/// fresh one is kept, so a subject that stays is recorded as soon as the
/// buffer is ready.
pub fn detection_wanted(
    motion: &MotionReading,
    reconnected_at: Option<Instant>,
    pre_buffer_secs: u32,
    frame_timestamp: Instant,
    pending_confirmation: &mut PreTriggerPending,
) -> (r: bool)
    ensures
        r == (motion.tripped && crate::clip_state::refilled(
            reconnected_at,
            pre_buffer_secs,
            frame_timestamp,
        )),
        final(pending_confirmation).0 == if motion.tripped && !r {
            crate::confirmation::unexpired(old(pending_confirmation).0, frame_timestamp)
        } else {
            old(pending_confirmation).0
        },
{
    if !motion.tripped {
        return false;
    }
    if !pre_buffer_ready(reconnected_at, pre_buffer_secs, frame_timestamp) {
        expire_stale_pending(&mut pending_confirmation.0, frame_timestamp);
        return false;
    }
    true
}

/// A recording that is to be started: the day's folder has to exist and the
/// encoder has to run before it is taken up.
pub struct StartPlan {
    /// What the recording is started with.
    pub params: RecordingEventParams,
    /// The folder that has to exist.
    pub day_dir: String,
    /// Frames from before the trigger.
    pub pre_frames: Vec<TimestampedFrame>,
    /// Audio from before the trigger.
    pub pre_audio: Vec<TimestampedAudio>,
    /// What triggered the recording.
    pub confirmed: Vec<Detection>,
}

impl StartPlan {
    /// Whether this is the plan for a recording of `confirmed` that begins
    /// with what the ring buffer holds.
    pub open spec fn planned(
        &self,
        confirmed: Vec<Detection>,
        ring_buffer: &RingBuffer,
        output_dir: Seq<char>,
        audio: AudioParams,
        started_at: LocalTime,
    ) -> bool {
        let first = ring_buffer.frames()[0];
        &&& self.confirmed == confirmed
        &&& self.pre_frames@ == ring_buffer.frames()
        &&& self.pre_audio@ == ring_buffer.audio()
        &&& self.day_dir@ == crate::paths::day_folder(output_dir, started_at)
        &&& self.params.final_clip_path@ == crate::paths::clip_location(
            output_dir,
            started_at,
            class_names(confirmed@),
        )
        &&& self.params.output_dir@ == output_dir
        &&& self.params.started_at == started_at
        &&& self.params.width == first.image@.width
        &&& self.params.height == first.image@.height
        &&& self.params.frame_rate == RECORDING_FRAME_RATE
        &&& self.params.audio_sample_rate == audio.sample_rate
        &&& self.params.audio_channels == audio.channels
        &&& self.params.clip_timeline_start == first.timestamp
    }
}

/// The class names of a list of detections.
fn names_of(detections: &Vec<Detection>) -> (r: Vec<&'static str>)
    ensures
        crate::text::slice_texts(r@) == class_names(detections@),
{
    let mut out: Vec<&'static str> = Vec::new();
    let mut i: usize = 0;
    while i < detections.len()
        invariant
            i <= detections@.len(),
            out@.len() == i,
            forall|k: int| 0 <= k < i ==> (#[trigger] out@[k])@ == detections@[k].class_name@,
        decreases detections@.len() - i,
    {
        out.push(detections[i].class_name);
        i = i + 1;
    }
    assert(crate::text::slice_texts(out@) =~= class_names(detections@));
    out
}

/// Decides whether to start a recording on what the detector, called at
/// `polled_at`, made of the latest frame. A recording is planned only for
/// detections that repeat a pending sighting, and only if the ring buffer
/// holds a frame: a trigger before the camera has produced anything is
/// skipped.
pub fn try_start_recording<E>(
    detected: Result<Vec<Detection>, E>,
    ring_buffer: &RingBuffer,
    output_dir: &str,
    audio: AudioParams,
    started_at: LocalTime,
    pending_confirmation: &mut PreTriggerPending,
    polled_at: Instant,
) -> (r: Result<Option<StartPlan>, E>)
    requires
        started_at.valid(),
    ensures
        match detected {
            Err(e) => {
                &&& r == Err::<Option<StartPlan>, E>(e)
                &&& *final(pending_confirmation) == *old(pending_confirmation)
            },
            Ok(detections) => {
                &&& r is Ok
                &&& final(pending_confirmation).0 == crate::confirmation::pending_after(
                    old(pending_confirmation).0,
                    detections@,
                    polled_at,
                )
                &&& r->Ok_0 is Some == (crate::confirmation::repeats(
                    old(pending_confirmation).0,
                    detections@,
                    polled_at,
                ) && ring_buffer.frames().len() > 0)
                &&& r->Ok_0 is Some ==> r->Ok_0->0.planned(
                    detections,
                    ring_buffer,
                    output_dir@,
                    audio,
                    started_at,
                )
            },
        },
{
    let confirmed: Vec<Detection> = match poll_confirmed_detections(
        detected,
        &mut pending_confirmation.0,
        polled_at,
    ) {
        Ok(Some(confirmed)) => confirmed,
        Ok(None) => {
            return Ok(None);
        },
        Err(e) => {
            return Err(e);
        },
    };
    let (pre_frames, pre_audio) = ring_buffer.snapshot();
    if pre_frames.len() == 0 {
        return Ok(None);
    }
    let (width, height) = pre_frames[0].image.dimensions();
    let clip_timeline_start: Instant = pre_frames[0].timestamp;
    let classes: Vec<&'static str> = names_of(&confirmed);
    let path: String = clip_path(output_dir, &started_at, classes.as_slice());
    let folder: String = day_dir(output_dir, &started_at);
    Ok(
        Some(
            StartPlan {
                params: RecordingEventParams {
                    final_clip_path: path,
                    output_dir: output_dir.to_owned(),
                    started_at,
                    width,
                    height,
                    frame_rate: RECORDING_FRAME_RATE,
                    audio_sample_rate: audio.sample_rate,
                    audio_channels: audio.channels,
                    clip_timeline_start,
                },
                day_dir: folder,
                pre_frames,
                pre_audio,
                confirmed,
            },
        ),
    )
}

/// Takes up a planned recording at `now`, once its encoder runs: it is pending
/// until the writer has written its pre-buffer. What triggered it is recorded,
/// and the pending sighting is cleared, so that it cannot confirm the first
/// sighting after this recording.
pub fn recording_started_at<H>(
    active_event: &mut ActiveEvent<H>,
    plan: StartPlan,
    handle: H,
    motion: &MotionReading,
    frame_timestamp: Instant,
    pending_confirmation: &mut PreTriggerPending,
    now: Instant,
)
    ensures
        final(pending_confirmation).0 is None,
        *final(active_event) is Pending,
        final(active_event)->Pending_0.pre_frames == plan.pre_frames,
        final(active_event)->Pending_0.pre_audio == plan.pre_audio,
        exists|fresh: RecordingEvent<H>, moved: RecordingEvent<H>|
            {
                &&& fresh.started(plan.params, handle, now)
                &&& #[trigger] motion_added(fresh, moved, motion.changed_ratio, frame_timestamp)
                &&& detections_added(
                    moved,
                    final(active_event)->Pending_0.event,
                    plan.confirmed@,
                    frame_timestamp,
                    now,
                )
            },
        plan.params.frame_rate > 0 && plan.params.started_at.valid()
            ==> final(active_event)->Pending_0.event.wf(),
{
    let ghost params = plan.params;
    let mut event: RecordingEvent<H> = RecordingEvent::start_at(plan.params, handle, now);
    let ghost fresh = event;
    event.record_motion(motion.changed_ratio, frame_timestamp);
    let ghost moved = event;
    assert(motion_added(fresh, moved, motion.changed_ratio, frame_timestamp));
    record_all(&mut event, &plan.confirmed, frame_timestamp, now);
    *active_event = ActiveEvent::Pending(
        PendingEvent { event, pre_frames: plan.pre_frames, pre_audio: plan.pre_audio },
    );
    pending_confirmation.0 = None;
}

/// Bare motion with no recent sighting does not extend a recording: its quiet
/// window runs on as if nothing had moved.
pub proof fn bare_motion_does_not_extend<H>(
    before: RecordingEvent<H>,
    after: RecordingEvent<H>,
    motion: MotionReading,
    frame_timestamp: Instant,
    now: Instant,
)
    requires
        polled(before, after, motion, None, false, frame_timestamp, now),
    ensures
        after.state.last_trigger_at == before.state.last_trigger_at,
        after.state.detections == before.state.detections,
{
}

/// A poll never touches the footage side of a recording: what was drained, the
/// next tick, and when the camera last delivered.
pub proof fn polls_leave_the_footage_alone<H>(
    before: RecordingEvent<H>,
    after: RecordingEvent<H>,
    motion: MotionReading,
    confirmed: Option<Seq<Detection>>,
    seen: bool,
    frame_timestamp: Instant,
    now: Instant,
)
    requires
        polled(before, after, motion, confirmed, seen, frame_timestamp, now),
    ensures
        after.same_recording(&before),
        after.state.same_media(&before.state),
{
}

/// Putting names into an alphabetical list leaves it alphabetical and adds
/// exactly these names.
pub proof fn names_join_the_list(list: Seq<Seq<char>>, names: Seq<Seq<char>>)
    requires
        crate::text::alphabetical(list),
    ensures
        crate::text::alphabetical(with_texts(list, names)),
        with_texts(list, names).to_set() =~= list.to_set().union(names.to_set()),
    decreases names.len(),
{
    if names.len() == 0 {
        assert(names.to_set() =~= Set::<Seq<char>>::empty()) by {
            assert forall|x: Seq<char>| !names.to_set().contains(x) by {
                assert(!names.contains(x));
            }
        }
    } else {
        let init = names.drop_last();
        names_join_the_list(list, init);
        crate::text::with_text_keeps_order(with_texts(list, init), names.last());
        assert(names.to_set() =~= init.to_set().insert(names.last())) by {
            assert(names =~= init.push(names.last()));
            assert forall|x: Seq<char>| names.to_set().contains(x) == init.to_set().insert(
                names.last(),
            ).contains(x) by {
                if init.contains(x) {
                    let k = init.index_of(x);
                    assert(names[k] == x);
                }
                if names.contains(x) {
                    let k = names.index_of(x);
                    if k < init.len() {
                        assert(init[k] == x);
                    }
                }
                if x == names.last() {
                    assert(names[names.len() - 1] == x);
                }
            }
        }
    }
}

/// Recording detections puts every one of them behind those before, at the
/// place of their frame on the clip's timeline, with its class and its score;
/// their classes join the clip's; and the quiet window starts over, unless
/// there are none.
pub proof fn every_detection_is_recorded<H>(
    before: RecordingEvent<H>,
    after: RecordingEvent<H>,
    detections: Seq<Detection>,
    frame_timestamp: Instant,
    now: Instant,
    i: int,
)
    requires
        detections_added(before, after, detections, frame_timestamp, now),
        0 <= i < detections.len(),
    ensures
        after.state.detections@.len() == before.state.detections@.len() + detections.len(),
        ({
            let record = after.state.detections@[before.state.detections@.len() + i];
            &&& record.class_name@ == detections[i].class_name@
            &&& record.confidence == detections[i].confidence
            &&& before.state.clip_timeline_start.nanos <= frame_timestamp.nanos
                ==> before.state.clip_timeline_start.nanos + record.offset.nanos
                == frame_timestamp.nanos
            &&& before.state.clip_timeline_start.nanos > frame_timestamp.nanos
                ==> record.offset.nanos == 0
        }),
        forall|k: int|
            0 <= k < before.state.detections@.len() ==> recorded(
                #[trigger] after.state.detections@[k],
            ) == recorded(before.state.detections@[k]),
        after.state.last_trigger_at == now,
        crate::text::alphabetical(crate::text::texts(before.state.all_classes@))
            ==> crate::text::texts(after.state.all_classes@).to_set() =~= crate::text::texts(
            before.state.all_classes@,
        ).to_set().union(class_names(detections).to_set()),
        class_names(detections)[i] == detections[i].class_name@,
        after.state.motion_events == before.state.motion_events,
{
    let rec = |r: DetectionRecord| recorded(r);
    let as_record = |d: Detection|
        (
            frame_timestamp.since(before.state.clip_timeline_start) as u128,
            d.class_name@,
            d.confidence,
        );
    let all = after.state.detections@.map_values(rec);
    let old_ones = before.state.detections@.map_values(rec);
    let new_ones = detections.map_values(as_record);
    assert(all == old_ones + new_ones);
    assert(all.len() == after.state.detections@.len());
    assert(all[old_ones.len() + i] == new_ones[i]);
    assert forall|k: int| 0 <= k < before.state.detections@.len() implies recorded(
        #[trigger] after.state.detections@[k],
    ) == recorded(before.state.detections@[k]) by {
        assert(all[k] == old_ones[k]);
    }
    if crate::text::alphabetical(crate::text::texts(before.state.all_classes@)) {
        names_join_the_list(
            crate::text::texts(before.state.all_classes@),
            class_names(detections),
        );
    }
}

/// A trip of the motion gate is recorded on every poll of a recording, with its
/// place on the timeline and its reading, confirmed or not; without one a poll
/// changes nothing at all.
pub proof fn every_trip_is_recorded<H>(
    before: RecordingEvent<H>,
    after: RecordingEvent<H>,
    motion: MotionReading,
    confirmed: Option<Seq<Detection>>,
    seen: bool,
    frame_timestamp: Instant,
    now: Instant,
)
    requires
        polled(before, after, motion, confirmed, seen, frame_timestamp, now),
    ensures
        !motion.tripped ==> after == before,
        motion.tripped ==> {
            let trips = after.state.motion_events@;
            &&& trips.len() == before.state.motion_events@.len() + 1
            &&& trips.drop_last() == before.state.motion_events@
            &&& trips.last().changed_ratio == motion.changed_ratio
            &&& before.state.clip_timeline_start.nanos <= frame_timestamp.nanos
                ==> before.state.clip_timeline_start.nanos + trips.last().offset.nanos
                == frame_timestamp.nanos
        },
{
    if motion.tripped {
        let moved = choose|moved: RecordingEvent<H>|
            {
                &&& #[trigger] motion_added(before, moved, motion.changed_ratio, frame_timestamp)
                &&& match confirmed {
                    Some(detections) => detections_added(
                        moved,
                        after,
                        detections,
                        frame_timestamp,
                        now,
                    ),
                    None => {
                        &&& after.same_recording(&moved)
                        &&& after.state == if seen {
                            crate::clip_state::ClipState { last_trigger_at: now, ..moved.state }
                        } else {
                            moved.state
                        }
                    },
                }
            };
        assert(after.state.motion_events == moved.state.motion_events);
        assert(after.state.motion_events@.drop_last() =~= before.state.motion_events@);
    }
}

/// A poll that confirms a detection, or that moves while a class was seen
/// recently, starts the quiet window over: the recording then stays open for
/// the whole post-buffer from now on, as long as the camera delivers.
pub proof fn sightings_extend_the_recording<H>(
    before: RecordingEvent<H>,
    after: RecordingEvent<H>,
    motion: MotionReading,
    confirmed: Option<Seq<Detection>>,
    seen: bool,
    frame_timestamp: Instant,
    now: Instant,
    later: Instant,
    post_buffer: Duration,
)
    requires
        polled(before, after, motion, confirmed, seen, frame_timestamp, now),
        motion.tripped,
        confirmed is Some ==> confirmed->0.len() > 0,
        confirmed is Some || seen,
        now.nanos <= later.nanos < now.nanos + post_buffer.nanos,
        later.nanos - before.state.last_real_frame_at.nanos < 1_500_000_000,
    ensures
        crate::event_lifecycle::closed(ActiveEvent::Active(after), post_buffer, later) is None,
        after.state.last_trigger_at == now,
        confirmed is Some ==> after.state.detections@.len() == before.state.detections@.len()
            + confirmed->0.len(),
        confirmed is None ==> after.state.detections == before.state.detections,
{
    let moved = choose|moved: RecordingEvent<H>|
        {
            &&& #[trigger] motion_added(before, moved, motion.changed_ratio, frame_timestamp)
            &&& match confirmed {
                Some(detections) => detections_added(
                    moved,
                    after,
                    detections,
                    frame_timestamp,
                    now,
                ),
                None => {
                    &&& after.same_recording(&moved)
                    &&& after.state == if seen {
                        crate::clip_state::ClipState { last_trigger_at: now, ..moved.state }
                    } else {
                        moved.state
                    }
                },
            }
        };
    assert(moved.state.detections == before.state.detections);
    assert(moved.state.last_real_frame_at == before.state.last_real_frame_at);
    if let Some(detections) = confirmed {
        every_detection_is_recorded(moved, after, detections, frame_timestamp, now, 0);
    }
}

/// A poll of a recording confirms what it sees, all of it, exactly when motion
/// tripped and one of the detections is of the class that was seen within the
/// five seconds before.
pub proof fn poll_confirms_what_is_seen_again(
    motion: MotionReading,
    detections: Seq<Detection>,
    pending: crate::confirmation::PendingConfirmation,
    polled_at: Instant,
)
    ensures
        ({
            let outcome = poll_confirms(
                motion,
                detections,
                ActiveEventPending(Some(pending)),
                polled_at,
            );
            &&& outcome is Some <==> motion.tripped && polled_at.nanos - pending.first_seen.nanos
                <= 5_000_000_000 && exists|i: int|
                0 <= i < detections.len() && (#[trigger] detections[i]).class_name@
                    == pending.class_name@
            &&& outcome is Some ==> outcome->0 == detections
        }),
        poll_confirms(motion, detections, ActiveEventPending(None), polled_at) is None,
{
    crate::confirmation::only_the_same_class_confirms(pending, detections, polled_at);
    if exists|i: int|
        0 <= i < detections.len() && (#[trigger] detections[i]).class_name@
            == pending.class_name@ {
        let i = choose|i: int|
            0 <= i < detections.len() && (#[trigger] detections[i]).class_name@
                == pending.class_name@;
        crate::confirmation::seen_again_within_the_window_confirms(
            pending,
            detections,
            i,
            polled_at,
        );
    }
}

/// A planned recording begins with all that is buffered, and its timeline with
/// the first buffered frame, so that no buffered frame is before its start; the
/// encoder is set to the size of that frame, at the recorded rate, and the
/// audio to the rate and the channels of the capture. Its file is in the folder
/// that is made for it.
pub proof fn recording_begins_with_the_pre_buffer(
    plan: StartPlan,
    confirmed: Vec<Detection>,
    ring_buffer: &RingBuffer,
    output_dir: Seq<char>,
    audio: AudioParams,
    started_at: LocalTime,
    i: int,
)
    requires
        plan.planned(confirmed, ring_buffer, output_dir, audio, started_at),
        crate::buffer::oldest_first(ring_buffer.frames()),
        0 <= i < ring_buffer.frames().len(),
        started_at.valid(),
        0 <= started_at.year <= 9999,
    ensures
        plan.pre_frames@[i] == ring_buffer.frames()[i],
        plan.pre_frames@.len() == ring_buffer.frames().len(),
        plan.pre_audio@ == ring_buffer.audio(),
        plan.params.clip_timeline_start.nanos <= ring_buffer.frames()[i].timestamp.nanos,
        plan.params.clip_timeline_start == plan.pre_frames@[0].timestamp,
        plan.params.width == plan.pre_frames@[0].image@.width,
        plan.params.height == plan.pre_frames@[0].image@.height,
        plan.params.frame_rate == 15,
        plan.params.audio_sample_rate == audio.sample_rate,
        plan.params.audio_channels == audio.channels,
        plan.params.started_at == started_at,
        plan.confirmed@ == confirmed@,
        plan.day_dir@.is_prefix_of(plan.params.final_clip_path@),
        plan.params.output_dir@.is_prefix_of(plan.day_dir@),
        plan.params.output_dir@ == output_dir,
        plan.params.final_clip_path@.skip(plan.day_dir@.len() as int + 1)
            == crate::paths::timestamp_text(started_at) + (crate::paths::class_suffix(
            crate::text::sorted_unique(class_names(confirmed@)),
        ) + ".mp4"@),
{
    let frames = ring_buffer.frames();
    if i > 0 {
        assert(crate::buffer::Timestamped::stamp(&frames[0]).nanos
            <= crate::buffer::Timestamped::stamp(&frames[i]).nanos);
    }
    crate::paths::clip_goes_into_the_folder_of_its_day(
        output_dir,
        started_at,
        class_names(confirmed@),
    );
}

/// A recording that was just taken up knows what triggered it: the trip of the
/// motion gate and every confirmed detection, and nothing else.
pub proof fn recording_knows_what_triggered_it<H>(
    params: RecordingEventParams,
    handle: H,
    fresh: RecordingEvent<H>,
    moved: RecordingEvent<H>,
    event: RecordingEvent<H>,
    motion: MotionReading,
    confirmed: Seq<Detection>,
    frame_timestamp: Instant,
    now: Instant,
    i: int,
)
    requires
        fresh.started(params, handle, now),
        motion_added(fresh, moved, motion.changed_ratio, frame_timestamp),
        detections_added(moved, event, confirmed, frame_timestamp, now),
        0 <= i < confirmed.len(),
    ensures
        event.handle == handle,
        event.state.detections@.len() == confirmed.len(),
        event.state.detections@[i].class_name@ == confirmed[i].class_name@,
        event.state.detections@[i].confidence == confirmed[i].confidence,
        event.state.motion_events@.len() == 1,
        event.state.motion_events@[0].changed_ratio == motion.changed_ratio,
        event.state.clip_timeline_start == params.clip_timeline_start,
        event.state.frame_rate == params.frame_rate,
        event.audio_sample_rate == params.audio_sample_rate,
        event.audio_channels == params.audio_channels,
        event.final_clip_path == params.final_clip_path,
        event.output_dir == params.output_dir,
        event.started_at == params.started_at,
        event.state.next_frame_due is None,
        event.video_tmp_path@ == crate::paths::with_extension_text(
            params.final_clip_path@,
            "video.tmp.mp4"@,
        ),
        event.audio_tmp_path@ == crate::paths::with_extension_text(
            params.final_clip_path@,
            "audio.tmp.pcm"@,
        ),
        event.state.last_trigger_at == now,
{
    every_detection_is_recorded(moved, event, confirmed, frame_timestamp, now, i);
}

} // verus!
