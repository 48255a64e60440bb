//! The life of one recorded clip, from its start to its final name.
//!
//! Frames are streamed to the encoder as they arrive; audio is collected in a
//! temporary file and muxed in when the clip closes. The encoder and the files
//! belong to the caller; a recording carries the caller's handle on them.

use vstd::prelude::*;
use vstd::string::*;

use crate::buffer::{RingBuffer, TimestampedAudio, TimestampedFrame};
use crate::clip_state::ClipState;
use crate::ffmpeg::{check_exit, check_mux_exit, mux_args, resample_to_frame_rate, ProcessExit};
use crate::paths::{clip_path, day_dir, sidecar_path, with_extension, LocalTime};
use crate::sidecar::{MotionEvent, Sidecar};
use crate::single::Single;
use crate::time::{Clock, Duration, Instant};

verus! {

/// What a recording is started with.
pub struct RecordingEventParams {
    /// Where the muxed clip is written, before it is named after its full
    /// class list.
    pub final_clip_path: String,
    /// Directory that recordings are written under.
    pub output_dir: String,
    /// Wall-clock time the clip started; `final_clip_path` is built from it.
    pub started_at: LocalTime,
    /// Video frame width in pixels.
    pub width: u32,
    /// Video frame height in pixels.
    pub height: u32,
    /// Video frame rate of the encoder.
    pub frame_rate: u32,
    /// Sample rate of the audio that will be written.
    pub audio_sample_rate: u32,
    /// Channel count of the audio that will be written.
    pub audio_channels: u16,
    /// Capture timestamp of the clip's first frame.
    pub clip_timeline_start: Instant,
}

/// A recording in progress. `handle` is whatever the caller writes to.
pub struct RecordingEvent<H> {
    /// The caller's encoder process and audio file.
    pub handle: H,
    /// Temporary raw PCM file that audio is collected in.
    pub audio_tmp_path: String,
    /// Where the muxed clip is written first.
    pub final_clip_path: String,
    /// Directory that recordings are written under.
    pub output_dir: String,
    /// Wall-clock time the clip started.
    pub started_at: LocalTime,
    /// Temporary file that the encoder writes to.
    pub video_tmp_path: String,
    /// Sample rate of the collected audio.
    pub audio_sample_rate: u32,
    /// Channel count of the collected audio.
    pub audio_channels: u16,
    /// Timing and bookkeeping of the clip.
    pub state: ClipState,
}

/// How far writing the pre-buffer got.
#[derive(Clone, Copy, Debug, PartialEq, Eq, Structural)]
pub enum SeedOutcome {
    /// A frame could not be written; nothing after it was tried.
    FramesFailed,
    /// All frames were written, but not all audio.
    AudioFailed,
    /// All frames and all audio were written.
    Written,
}

/// Where the encoder writes the video of a clip.
pub fn video_tmp_path(final_clip_path: &str) -> (r: String)
    ensures
        r@ == crate::paths::with_extension_text(final_clip_path@, "video.tmp.mp4"@),
{
    with_extension(final_clip_path, "video.tmp.mp4")
}

/// Where the audio of a clip is collected.
pub fn audio_tmp_path(final_clip_path: &str) -> (r: String)
    ensures
        r@ == crate::paths::with_extension_text(final_clip_path@, "audio.tmp.pcm"@),
{
    with_extension(final_clip_path, "audio.tmp.pcm")
}

/// The clip state after the frames of a pre-buffer were written at `now`:
/// drained up to the last one written, with the next tick one further.
pub open spec fn after_seeding_frames(
    state: ClipState,
    pre_frames: Seq<TimestampedFrame>,
    now: Instant,
) -> ClipState {
    let written = crate::ffmpeg::resampled(pre_frames, state.frame_rate);
    if written.len() == 0 {
        state
    } else {
        ClipState {
            last_real_frame_at: now,
            last_frame_drain_at: written.last().timestamp,
            next_frame_due: Some(
                Instant {
                    nanos: written.last().timestamp.after(
                        crate::clip_state::tick_nanos(state.frame_rate),
                    ) as i128,
                },
            ),
            ..state
        }
    }
}

/// The clip state after the audio of a pre-buffer was written.
pub open spec fn after_seeding_audio(
    state: ClipState,
    pre_audio: Seq<TimestampedAudio>,
) -> ClipState {
    if pre_audio.len() == 0 {
        state
    } else {
        ClipState { last_audio_drain_at: pre_audio.last().timestamp, ..state }
    }
}

/// The clip state after an attempt to write a pre-buffer.
pub open spec fn after_seeding(
    state: ClipState,
    pre_frames: Seq<TimestampedFrame>,
    pre_audio: Seq<TimestampedAudio>,
    outcome: SeedOutcome,
    now: Instant,
) -> ClipState {
    match outcome {
        SeedOutcome::FramesFailed => state,
        SeedOutcome::AudioFailed => after_seeding_frames(state, pre_frames, now),
        SeedOutcome::Written => after_seeding_audio(
            after_seeding_frames(state, pre_frames, now),
            pre_audio,
        ),
    }
}

/// The clip state once a drain has taken over new frames at `now`.
pub open spec fn after_taking_frames(
    state: ClipState,
    frames: Seq<TimestampedFrame>,
    now: Instant,
) -> ClipState {
    if frames.len() == 0 {
        state
    } else {
        ClipState {
            last_frame_drain_at: frames.last().timestamp,
            last_real_frame_at: now,
            ..state
        }
    }
}

/// The clip state once a drain has taken over new audio.
pub open spec fn after_taking_audio(
    state: ClipState,
    chunks: Seq<TimestampedAudio>,
) -> ClipState {
    after_seeding_audio(state, chunks)
}

/// The bytes of a number, the lowest first.
pub open spec fn little_endian(n: u32) -> Seq<u8> {
    seq![
        (n % 256) as u8,
        ((n / 256) % 256) as u8,
        ((n / 65_536) % 256) as u8,
        (n / 16_777_216) as u8,
    ]
}

/// The bytes of a run of samples.
pub open spec fn sample_bytes(samples: Seq<Single>) -> Seq<u8>
    decreases samples.len(),
{
    if samples.len() == 0 {
        seq![]
    } else {
        sample_bytes(samples.drop_last()) + little_endian(samples.last().bits)
    }
}

/// Raw PCM bytes of audio samples, as they go into the temporary audio file.
pub fn audio_bytes(samples: &[Single]) -> (r: Vec<u8>)
    ensures
        r@ == sample_bytes(samples@),
{
    let mut bytes: Vec<u8> = Vec::new();
    let mut i: usize = 0;
    assert(samples@.take(0) =~= seq![]);
    while i < samples.len()
        invariant
            i <= samples@.len(),
            bytes@ == sample_bytes(samples@.take(i as int)),
        decreases samples@.len() - i,
    {
        let n: u32 = samples[i].bits;
        let ghost before = bytes@;
        bytes.push((n % 256) as u8);
        bytes.push(((n / 256) % 256) as u8);
        bytes.push(((n / 65_536) % 256) as u8);
        bytes.push((n / 16_777_216) as u8);
        proof {
            let upto = samples@.take(i + 1);
            assert(upto.drop_last() =~= samples@.take(i as int));
            assert(bytes@ =~= before + little_endian(n));
        }
        i = i + 1;
    }
    assert(samples@.take(i as int) =~= samples@);
    bytes
}

/// The texts of a list, borrowed.
fn text_refs(list: &Vec<String>) -> (r: Vec<&str>)
    ensures
        crate::text::slice_texts(r@) == crate::text::texts(list@),
{
    let mut out: Vec<&str> = Vec::new();
    let mut i: usize = 0;
    while i < list.len()
        invariant
            i <= list@.len(),
            out@.len() == i,
            forall|k: int| 0 <= k < i ==> (#[trigger] out@[k])@ == list@[k]@,
        decreases list@.len() - i,
    {
        out.push(list[i].as_str());
        i = i + 1;
    }
    assert(crate::text::slice_texts(out@) =~= crate::text::texts(list@));
    out
}

impl<H> RecordingEvent<H> {
    /// Whether two recordings differ in nothing but their clip state.
    pub open spec fn same_recording(&self, other: &RecordingEvent<H>) -> bool {
        &&& self.handle == other.handle
        &&& self.audio_tmp_path == other.audio_tmp_path
        &&& self.final_clip_path == other.final_clip_path
        &&& self.output_dir == other.output_dir
        &&& self.started_at == other.started_at
        &&& self.video_tmp_path == other.video_tmp_path
        &&& self.audio_sample_rate == other.audio_sample_rate
        &&& self.audio_channels == other.audio_channels
    }

    /// A recording with a valid start time and a consistent clip state.
    pub open spec fn wf(&self) -> bool {
        self.started_at.valid() && self.state.wf()
    }

    /// Whether this is the recording that `params` and `handle` start at `now`.
    pub open spec fn started(
        &self,
        params: RecordingEventParams,
        handle: H,
        now: Instant,
    ) -> bool {
        &&& self.handle == handle
        &&& self.final_clip_path == params.final_clip_path
        &&& self.output_dir == params.output_dir
        &&& self.started_at == params.started_at
        &&& self.video_tmp_path@ == crate::paths::with_extension_text(
            params.final_clip_path@,
            "video.tmp.mp4"@,
        )
        &&& self.audio_tmp_path@ == crate::paths::with_extension_text(
            params.final_clip_path@,
            "audio.tmp.pcm"@,
        )
        &&& self.audio_sample_rate == params.audio_sample_rate
        &&& self.audio_channels == params.audio_channels
        &&& self.state.fresh(params.frame_rate, params.clip_timeline_start, now)
    }

    /// Takes up a recording at `now`, once its encoder runs and its audio file
    /// exists. The pre-buffer is not written here: that takes long enough to
    /// show as a jump at the start of the clip, so it is left to the thread
    /// that writes frames at a steady pace.
    pub fn start_at(params: RecordingEventParams, handle: H, now: Instant) -> (r: RecordingEvent<H>)
        ensures
            r.started(params, handle, now),
            params.frame_rate > 0 && params.started_at.valid() ==> r.wf(),
    {
        let video: String = video_tmp_path(params.final_clip_path.as_str());
        let audio: String = audio_tmp_path(params.final_clip_path.as_str());
        RecordingEvent {
            handle,
            audio_tmp_path: audio,
            final_clip_path: params.final_clip_path,
            output_dir: params.output_dir,
            started_at: params.started_at,
            video_tmp_path: video,
            audio_sample_rate: params.audio_sample_rate,
            audio_channels: params.audio_channels,
            state: ClipState::new_at(params.frame_rate, params.clip_timeline_start, now),
        }
    }

    /// [`RecordingEvent::start_at`] the current moment.
    pub fn start(params: RecordingEventParams, handle: H, clock: &Clock) -> (r: RecordingEvent<H>)
        ensures
            exists|now: Instant| now.nanos >= 0 && #[trigger] r.started(params, handle, now),
            params.frame_rate > 0 && params.started_at.valid() ==> r.wf(),
    {
        let now: Instant = clock.now();
        Self::start_at(params, handle, now)
    }

    /// The frames of a pre-buffer to write first: resampled to the clip's
    /// frame rate, since buffered frames come at the camera's own.
    pub fn frames_to_seed<'a>(&self, pre_frames: &'a [TimestampedFrame]) -> (r: Vec<
        &'a TimestampedFrame,
    >)
        ensures
            r@.len() == crate::ffmpeg::resampled(pre_frames@, self.state.frame_rate).len(),
            forall|i: int|
                0 <= i < r@.len() ==> *(#[trigger] r@[i]) == crate::ffmpeg::resampled(
                    pre_frames@,
                    self.state.frame_rate,
                )[i],
    {
        resample_to_frame_rate(pre_frames, self.state.frame_rate)
    }

    /// Takes note of how far the pre-buffer was written: the frames of
    /// [`RecordingEvent::frames_to_seed`], done at `now`, then all of the audio.
    /// Must come before any live frame is drained.
    pub fn seed_at(
        &mut self,
        pre_frames: &[TimestampedFrame],
        pre_audio: &[TimestampedAudio],
        outcome: SeedOutcome,
        now: Instant,
    )
        requires
            old(self).state.frame_rate > 0 || pre_frames@.len() == 0 || outcome
                == SeedOutcome::FramesFailed,
        ensures
            final(self).same_recording(old(self)),
            final(self).state == after_seeding(
                old(self).state,
                pre_frames@,
                pre_audio@,
                outcome,
                now,
            ),
    {
        if outcome == SeedOutcome::FramesFailed {
            return;
        }
        let selected: Vec<&TimestampedFrame> = resample_to_frame_rate(
            pre_frames,
            self.state.frame_rate,
        );
        if selected.len() > 0 {
            let last: Instant = selected[selected.len() - 1].timestamp;
            self.state.last_real_frame_at = now;
            self.state.anchor_next_tick_after_seed(last);
        }
        if outcome == SeedOutcome::Written && pre_audio.len() > 0 {
            self.state.last_audio_drain_at = pre_audio[pre_audio.len() - 1].timestamp;
        }
    }

    /// [`RecordingEvent::seed_at`] the current moment.
    pub fn seed(
        &mut self,
        pre_frames: &[TimestampedFrame],
        pre_audio: &[TimestampedAudio],
        outcome: SeedOutcome,
        clock: &Clock,
    )
        requires
            old(self).state.frame_rate > 0 || pre_frames@.len() == 0 || outcome
                == SeedOutcome::FramesFailed,
        ensures
            final(self).same_recording(old(self)),
            exists|now: Instant|
                now.nanos >= 0 && final(self).state == #[trigger] after_seeding(
                    old(self).state,
                    pre_frames@,
                    pre_audio@,
                    outcome,
                    now,
                ),
    {
        let now: Instant = clock.now();
        self.seed_at(pre_frames, pre_audio, outcome, now);
    }

    /// Takes over, at `now`, every frame captured since the last drain, not
    /// only the newest: what is passed over between two polls shows as a jump
    /// in the picture. [`RecordingEvent::next_due_frame`] then tells which of
    /// them to write.
    pub fn drain_frames_at(&mut self, ring_buffer: &RingBuffer, now: Instant) -> (r: Vec<
        TimestampedFrame,
    >)
        ensures
            r@ == crate::buffer::newer(ring_buffer.frames(), old(self).state.last_frame_drain_at),
            final(self).same_recording(old(self)),
            final(self).state == after_taking_frames(old(self).state, r@, now),
    {
        let new_frames: Vec<TimestampedFrame> = ring_buffer.frames_since(
            self.state.last_frame_drain_at,
        );
        if new_frames.len() > 0 {
            self.state.last_frame_drain_at = new_frames[new_frames.len() - 1].timestamp;
            self.state.last_real_frame_at = now;
        }
        new_frames
    }

    /// [`RecordingEvent::drain_frames_at`] the current moment.
    pub fn drain_frames(&mut self, ring_buffer: &RingBuffer, clock: &Clock) -> (r: Vec<
        TimestampedFrame,
    >)
        ensures
            r@ == crate::buffer::newer(ring_buffer.frames(), old(self).state.last_frame_drain_at),
            final(self).same_recording(old(self)),
            exists|now: Instant|
                now.nanos >= 0 && final(self).state == #[trigger] after_taking_frames(
                    old(self).state,
                    r@,
                    now,
                ),
    {
        let now: Instant = clock.now();
        self.drain_frames_at(ring_buffer, now)
    }

    /// The next of the drained frames, from position `from` on, that is due to
    /// be written, if any; the tick moves on by one for it. A gap in the
    /// footage is never filled with a frame that was not captured: what is not
    /// in `frames` is not written.
    pub fn next_due_frame(&mut self, frames: &[TimestampedFrame], from: usize) -> (r: Option<usize>)
        requires
            from <= frames@.len(),
            old(self).state.frame_rate > 0 || forall|i: int|
                from <= i < frames@.len() ==> !crate::clip_state::tick_reached(
                    old(self).state.next_frame_due,
                    (#[trigger] frames@[i]).timestamp,
                ),
        ensures
            final(self).same_recording(old(self)),
            match r {
                Some(k) => {
                    &&& from <= k < frames@.len()
                    &&& crate::clip_state::tick_reached(
                        old(self).state.next_frame_due,
                        frames@[k as int].timestamp,
                    )
                    &&& forall|i: int|
                        from <= i < k ==> !crate::clip_state::tick_reached(
                            old(self).state.next_frame_due,
                            (#[trigger] frames@[i]).timestamp,
                        )
                    &&& final(self).state == (ClipState {
                        next_frame_due: crate::clip_state::next_tick(
                            old(self).state.next_frame_due,
                            frames@[k as int].timestamp,
                            old(self).state.frame_rate,
                        ),
                        ..old(self).state
                    })
                },
                None => {
                    &&& forall|i: int|
                        from <= i < frames@.len() ==> !crate::clip_state::tick_reached(
                            old(self).state.next_frame_due,
                            (#[trigger] frames@[i]).timestamp,
                        )
                    &&& final(self).state == old(self).state
                },
            },
    {
        let mut i: usize = from;
        while i < frames.len()
            invariant
                old(self).state.frame_rate > 0 || forall|i: int|
                    from <= i < frames@.len() ==> !crate::clip_state::tick_reached(
                        old(self).state.next_frame_due,
                        (#[trigger] frames@[i]).timestamp,
                    ),
                *self == *old(self),
                from <= i <= frames@.len(),
                forall|k: int|
                    from <= k < i ==> !crate::clip_state::tick_reached(
                        self.state.next_frame_due,
                        (#[trigger] frames@[k]).timestamp,
                    ),
            decreases frames@.len() - i,
        {
            if self.state.should_write_frame(frames[i].timestamp) {
                return Some(i);
            }
            i = i + 1;
        }
        None
    }

    /// True once the camera has gone the stall limit without a real frame at
    /// `now`.
    pub fn camera_stalled_at(&self, now: Instant) -> (r: bool)
        ensures
            r == self.state.stalled(now),
    {
        self.state.camera_stalled_at(now)
    }

    /// [`RecordingEvent::camera_stalled_at`] the current moment.
    pub fn camera_stalled(&self, clock: &Clock) -> (r: bool)
        ensures
            exists|now: Instant| now.nanos >= 0 && r == #[trigger] self.state.stalled(now),
    {
        self.state.camera_stalled(clock)
    }

    /// Takes over the audio captured since the last drain, all of which is to
    /// be written, so that a clip has sound for its full length.
    pub fn drain_audio(&mut self, ring_buffer: &RingBuffer) -> (r: Vec<TimestampedAudio>)
        ensures
            r@ == crate::buffer::newer(ring_buffer.audio(), old(self).state.last_audio_drain_at),
            final(self).same_recording(old(self)),
            final(self).state == after_taking_audio(old(self).state, r@),
    {
        let new_chunks: Vec<TimestampedAudio> = ring_buffer.audio_since(
            self.state.last_audio_drain_at,
        );
        if new_chunks.len() > 0 {
            self.state.last_audio_drain_at = new_chunks[new_chunks.len() - 1].timestamp;
        }
        new_chunks
    }

    /// Records a detection and restarts the quiet window at `now`.
    pub fn record_detection_at(
        &mut self,
        class_name: &str,
        confidence: Single,
        frame_timestamp: Instant,
        now: Instant,
    )
        ensures
            final(self).same_recording(old(self)),
            final(self).state.has_detection_added(
                &old(self).state,
                class_name@,
                confidence,
                frame_timestamp,
                now,
            ),
            old(self).state.wf() ==> final(self).state.wf(),
    {
        self.state.record_detection_at(class_name, confidence, frame_timestamp, now);
    }

    /// [`RecordingEvent::record_detection_at`] the current moment.
    pub fn record_detection(
        &mut self,
        class_name: &str,
        confidence: Single,
        frame_timestamp: Instant,
        clock: &Clock,
    )
        ensures
            final(self).same_recording(old(self)),
            exists|now: Instant|
                now.nanos >= 0 && #[trigger] final(self).state.has_detection_added(
                    &old(self).state,
                    class_name@,
                    confidence,
                    frame_timestamp,
                    now,
                ),
            old(self).state.wf() ==> final(self).state.wf(),
    {
        self.state.record_detection(class_name, confidence, frame_timestamp, clock);
    }

    /// Restarts the quiet window at `now` without recording a detection.
    pub fn touch_at(&mut self, now: Instant)
        ensures
            final(self).same_recording(old(self)),
            final(self).state == (ClipState { last_trigger_at: now, ..old(self).state }),
    {
        self.state.touch_at(now);
    }

    /// [`RecordingEvent::touch_at`] the current moment.
    pub fn touch(&mut self, clock: &Clock)
        ensures
            final(self).same_recording(old(self)),
            final(self).state.last_trigger_at.nanos >= 0,
            final(self).state == (ClipState {
                last_trigger_at: final(self).state.last_trigger_at,
                ..old(self).state
            }),
    {
        self.state.touch(clock);
    }

    /// Records a motion-gate trip, which does not restart the quiet window.
    pub fn record_motion(&mut self, changed_ratio: Single, frame_timestamp: Instant)
        ensures
            final(self).same_recording(old(self)),
            final(self).state == (ClipState {
                motion_events: final(self).state.motion_events,
                ..old(self).state
            }),
            final(self).state.motion_events@ == old(self).state.motion_events@.push(
                MotionEvent {
                    offset: Duration {
                        nanos: frame_timestamp.since(old(self).state.clip_timeline_start) as u128,
                    },
                    changed_ratio,
                },
            ),
    {
        self.state.record_motion(changed_ratio, frame_timestamp);
    }

    /// How long at `now` it has been since the last trigger or touch.
    pub fn quiet_for_at(&self, now: Instant) -> (r: Duration)
        ensures
            r.nanos == now.since(self.state.last_trigger_at),
    {
        self.state.quiet_for_at(now)
    }

    /// [`RecordingEvent::quiet_for_at`] the current moment.
    pub fn quiet_for(&self, clock: &Clock) -> (r: Duration)
        ensures
            exists|now: Instant|
                now.nanos >= 0 && r.nanos == #[trigger] now.since(self.state.last_trigger_at),
    {
        self.state.quiet_for(clock)
    }

    /// Begins to close the recording: hands back the handle, whose encoder is
    /// to be told to end and waited for, and what is left to do after that.
    pub fn finish(self) -> (r: (H, Encoding))
        ensures
            r.0 == self.handle,
            r.1.audio_tmp_path == self.audio_tmp_path,
            r.1.final_clip_path == self.final_clip_path,
            r.1.output_dir == self.output_dir,
            r.1.started_at == self.started_at,
            r.1.video_tmp_path == self.video_tmp_path,
            r.1.audio_sample_rate == self.audio_sample_rate,
            r.1.audio_channels == self.audio_channels,
            r.1.all_classes == self.state.all_classes,
            r.1.sidecar.detections == self.state.detections,
            r.1.sidecar.motion_events == self.state.motion_events,
    {
        let (all_classes, detections, motion_events) = self.state.into_parts();
        (
            self.handle,
            Encoding {
                audio_tmp_path: self.audio_tmp_path,
                final_clip_path: self.final_clip_path,
                output_dir: self.output_dir,
                started_at: self.started_at,
                video_tmp_path: self.video_tmp_path,
                audio_sample_rate: self.audio_sample_rate,
                audio_channels: self.audio_channels,
                all_classes,
                sidecar: Sidecar { detections, motion_events },
            },
        )
    }
}

/// A clip whose encoder has been told to end.
pub struct Encoding {
    /// Temporary raw PCM file with the clip's audio.
    pub audio_tmp_path: String,
    /// Where the muxed clip is written first.
    pub final_clip_path: String,
    /// Directory that recordings are written under.
    pub output_dir: String,
    /// Wall-clock time the clip started.
    pub started_at: LocalTime,
    /// Temporary file with the clip's video.
    pub video_tmp_path: String,
    /// Sample rate of the collected audio.
    pub audio_sample_rate: u32,
    /// Channel count of the collected audio.
    pub audio_channels: u16,
    /// Every class detected during the clip.
    pub all_classes: Vec<String>,
    /// What goes into the sidecar.
    pub sidecar: Sidecar,
}

/// A clip whose video is complete and whose audio is to be muxed in.
pub struct Muxing {
    /// The clip.
    pub clip: Encoding,
    /// Arguments to run ffmpeg with.
    pub args: Vec<String>,
}

/// A muxed clip that is to be named after its classes. In this order: the
/// temporary files are removed, if they can be; the day's folder is created;
/// the clip is renamed, if its name changes; the sidecar is written.
pub struct Publishing {
    /// First temporary file to remove.
    pub video_tmp_path: String,
    /// Second temporary file to remove.
    pub audio_tmp_path: String,
    /// Folder that has to exist.
    pub day_dir: String,
    /// Where the muxed clip is.
    pub clip_path: String,
    /// Where the clip is to be moved, if anywhere.
    pub rename_to: Option<String>,
    /// Where the sidecar goes.
    pub sidecar_path: String,
    /// What goes into the sidecar.
    pub sidecar: Sidecar,
}

impl Encoding {
    /// Goes on to muxing if the encoder ended well; otherwise says what the
    /// encoder said, and nothing more is done.
    pub fn encoder_exited(self, exit: &ProcessExit) -> (r: Result<Muxing, String>)
        ensures
            r is Ok == exit.success,
            match r {
                Ok(muxing) => {
                    &&& muxing.clip == self
                    &&& crate::text::texts(muxing.args@) == crate::ffmpeg::mux_arguments(
                        self.video_tmp_path@,
                        self.audio_tmp_path@,
                        self.final_clip_path@,
                        self.audio_sample_rate,
                        self.audio_channels,
                    )
                },
                Err(text) => text@ == crate::ffmpeg::exit_message(
                    "ffmpeg video encoder"@,
                    exit.status@,
                    exit.stderr@,
                ),
            },
    {
        match check_exit("ffmpeg video encoder", exit) {
            Ok(_) => {
                let args: Vec<String> = mux_args(
                    self.video_tmp_path.as_str(),
                    self.audio_tmp_path.as_str(),
                    self.final_clip_path.as_str(),
                    self.audio_sample_rate,
                    self.audio_channels,
                );
                Ok(Muxing { clip: self, args })
            },
            Err(text) => Err(text),
        }
    }
}

impl Muxing {
    /// Goes on to publishing if muxing ended well; otherwise says what ffmpeg
    /// said, and nothing more is done. The clip is named after every class
    /// seen during it, not only those that triggered it.
    pub fn mux_exited(self, exit: &ProcessExit) -> (r: Result<Publishing, String>)
        requires
            self.clip.started_at.valid(),
        ensures
            r is Ok == exit.success,
            match r {
                Ok(publishing) => {
                    let target = crate::paths::clip_location(
                        self.clip.output_dir@,
                        self.clip.started_at,
                        crate::text::texts(self.clip.all_classes@),
                    );
                    &&& publishing.video_tmp_path == self.clip.video_tmp_path
                    &&& publishing.audio_tmp_path == self.clip.audio_tmp_path
                    &&& publishing.day_dir@ == crate::paths::day_folder(
                        self.clip.output_dir@,
                        self.clip.started_at,
                    )
                    &&& publishing.clip_path == self.clip.final_clip_path
                    &&& match publishing.rename_to {
                        Some(path) => path@ == target && target != self.clip.final_clip_path@,
                        None => target == self.clip.final_clip_path@,
                    }
                    &&& publishing.sidecar_path@ == crate::paths::with_extension_text(
                        target,
                        "json"@,
                    )
                    &&& publishing.sidecar == self.clip.sidecar
                },
                Err(text) => text@ == crate::ffmpeg::exit_message(
                    "ffmpeg audio mux"@,
                    exit.status@,
                    exit.stderr@,
                ),
            },
    {
        match check_mux_exit(exit) {
            Ok(_) => {
                let clip: Encoding = self.clip;
                let folder: String = day_dir(clip.output_dir.as_str(), &clip.started_at);
                let classes: Vec<&str> = text_refs(&clip.all_classes);
                let renamed_path: String = clip_path(
                    clip.output_dir.as_str(),
                    &clip.started_at,
                    classes.as_slice(),
                );
                let sidecar_at: String = sidecar_path(renamed_path.as_str());
                let rename_to: Option<String> = if renamed_path == clip.final_clip_path {
                    None
                } else {
                    Some(renamed_path)
                };
                Ok(
                    Publishing {
                        video_tmp_path: clip.video_tmp_path,
                        audio_tmp_path: clip.audio_tmp_path,
                        day_dir: folder,
                        clip_path: clip.final_clip_path,
                        rename_to,
                        sidecar_path: sidecar_at,
                        sidecar: clip.sidecar,
                    },
                )
            },
            Err(text) => Err(text),
        }
    }
}

/// A clip is published under the classes of the detections in its sidecar,
/// each once and in alphabetical order.
pub proof fn published_name_lists_every_detected_class(state: ClipState, started_at: LocalTime)
    requires
        state.wf(),
    ensures
        crate::paths::clip_name(started_at, crate::text::texts(state.all_classes@))
            == crate::paths::clip_name(
            started_at,
            crate::sidecar::detected_classes(state.detections@),
        ),
{
    let classes = crate::sidecar::detected_classes(state.detections@);
    crate::text::sorted_unique_is_sorted_set(classes);
    crate::paths::clip_name_depends_on_class_set(
        started_at,
        crate::text::texts(state.all_classes@),
        classes,
    );
}

/// Four bytes a sample.
pub proof fn sample_bytes_length(samples: Seq<Single>)
    ensures
        sample_bytes(samples).len() == 4 * samples.len(),
    decreases samples.len(),
{
    if samples.len() > 0 {
        sample_bytes_length(samples.drop_last());
    }
}

/// Asking for one due frame after another writes exactly the frames that are
/// due: each answer is the next of them, and after the last there is none.
pub proof fn next_due_frames_are_the_due_frames(
    frames: Seq<TimestampedFrame>,
    from: int,
    next_due: Option<Instant>,
    frame_rate: u32,
)
    requires
        0 <= from <= frames.len(),
    ensures
        forall|k: int|
            from <= k < frames.len() && #[trigger] crate::clip_state::tick_reached(
                next_due,
                frames[k].timestamp,
            ) && (forall|i: int|
                from <= i < k ==> !crate::clip_state::tick_reached(
                    next_due,
                    (#[trigger] frames[i]).timestamp,
                )) ==> crate::ffmpeg::due_frames(frames.skip(from), next_due, frame_rate) == seq![
                frames[k],
            ] + crate::ffmpeg::due_frames(
                frames.skip(k + 1),
                crate::clip_state::next_tick(next_due, frames[k].timestamp, frame_rate),
                frame_rate,
            ),
        (forall|i: int|
            from <= i < frames.len() ==> !crate::clip_state::tick_reached(
                next_due,
                (#[trigger] frames[i]).timestamp,
            )) ==> crate::ffmpeg::due_frames(frames.skip(from), next_due, frame_rate).len() == 0,
{
    assert forall|k: int|
        from <= k < frames.len() && #[trigger] crate::clip_state::tick_reached(
            next_due,
            frames[k].timestamp,
        ) && (forall|i: int|
            from <= i < k ==> !crate::clip_state::tick_reached(
                next_due,
                (#[trigger] frames[i]).timestamp,
            )) implies crate::ffmpeg::due_frames(frames.skip(from), next_due, frame_rate) == seq![
        frames[k],
    ] + crate::ffmpeg::due_frames(
        frames.skip(k + 1),
        crate::clip_state::next_tick(next_due, frames[k].timestamp, frame_rate),
        frame_rate,
    ) by {
        let passed = frames.subrange(from, k);
        let hit = seq![frames[k]];
        let rest = frames.skip(k + 1);
        passed_over(passed, next_due, frame_rate);
        assert(hit.drop_last() =~= seq![]);
        assert(crate::ffmpeg::due_frames(seq![], next_due, frame_rate) =~= seq![]);
        assert(crate::ffmpeg::due_frames(hit, next_due, frame_rate) =~= hit);
        crate::ffmpeg::draining_in_parts_changes_nothing(passed, hit, next_due, frame_rate);
        crate::ffmpeg::draining_in_parts_changes_nothing(
            passed + hit,
            rest,
            next_due,
            frame_rate,
        );
        assert(passed + hit + rest =~= frames.skip(from));
        assert(crate::ffmpeg::due_frames(passed + hit, next_due, frame_rate) =~= hit);
    }
    if forall|i: int|
        from <= i < frames.len() ==> !crate::clip_state::tick_reached(
            next_due,
            (#[trigger] frames[i]).timestamp,
        ) {
        passed_over(frames.skip(from), next_due, frame_rate);
    }
}

/// Frames before the due tick are passed over and leave it where it is.
proof fn passed_over(
    frames: Seq<TimestampedFrame>,
    next_due: Option<Instant>,
    frame_rate: u32,
)
    requires
        forall|i: int|
            0 <= i < frames.len() ==> !crate::clip_state::tick_reached(
                next_due,
                (#[trigger] frames[i]).timestamp,
            ),
    ensures
        crate::ffmpeg::due_frames(frames, next_due, frame_rate) == Seq::<TimestampedFrame>::empty(),
        crate::ffmpeg::due_after(frames, next_due, frame_rate) == next_due,
    decreases frames.len(),
{
    if frames.len() > 0 {
        let init = frames.drop_last();
        assert forall|i: int| 0 <= i < init.len() implies !crate::clip_state::tick_reached(
            next_due,
            (#[trigger] init[i]).timestamp,
        ) by {
            assert(init[i] == frames[i]);
        }
        passed_over(init, next_due, frame_rate);
        assert(frames.last() == frames[frames.len() - 1]);
    }
}

/// Two drains in a row write the frames that a single later one would have
/// written: how often the writer polls does not show in the clip.
pub proof fn polling_rate_does_not_show(
    buffered: Seq<TimestampedFrame>,
    arrived: Seq<TimestampedFrame>,
    drained_to: Instant,
    next_due: Option<Instant>,
    frame_rate: u32,
)
    requires
        crate::buffer::oldest_first(buffered),
        crate::buffer::newer(buffered, drained_to).len() > 0,
        forall|i: int|
            0 <= i < arrived.len() ==> (#[trigger] arrived[i]).timestamp.nanos
                > buffered.last().timestamp.nanos,
    ensures
        ({
            let first = crate::buffer::newer(buffered, drained_to);
            let second = crate::buffer::newer(buffered + arrived, first.last().timestamp);
            let together = crate::buffer::newer(buffered + arrived, drained_to);
            let due_between = crate::ffmpeg::due_after(first, next_due, frame_rate);
            &&& crate::ffmpeg::due_frames(together, next_due, frame_rate)
                == crate::ffmpeg::due_frames(first, next_due, frame_rate)
                + crate::ffmpeg::due_frames(second, due_between, frame_rate)
            &&& crate::ffmpeg::due_after(together, next_due, frame_rate)
                == crate::ffmpeg::due_after(second, due_between, frame_rate)
        }),
{
    let first = crate::buffer::newer(buffered, drained_to);
    let second = crate::buffer::newer(buffered + arrived, first.last().timestamp);
    let together = crate::buffer::newer(buffered + arrived, drained_to);
    assert(second == arrived && together == first + arrived) by {
        crate::buffer::consecutive_drains_neither_skip_nor_repeat(buffered, arrived, drained_to);
    }
    crate::ffmpeg::draining_in_parts_changes_nothing(first, arrived, next_due, frame_rate);
}

/// A drain right after seeding begins where the pre-buffer ended: it takes
/// over what was captured after the last frame written, and writes nothing
/// sooner than one tick after it.
pub proof fn live_footage_follows_the_pre_buffer(
    state: ClipState,
    pre_frames: Seq<TimestampedFrame>,
    pre_audio: Seq<TimestampedAudio>,
    buffered: Seq<TimestampedFrame>,
    now: Instant,
)
    requires
        state.frame_rate > 0,
        pre_frames.len() > 0,
    ensures
        ({
            let last = crate::ffmpeg::resampled(pre_frames, state.frame_rate).last().timestamp;
            let seeded = after_seeding(state, pre_frames, pre_audio, SeedOutcome::Written, now);
            &&& seeded.last_frame_drain_at == last
            &&& forall|i: int|
                0 <= i < crate::buffer::newer(buffered, seeded.last_frame_drain_at).len() ==> (
                #[trigger] crate::buffer::newer(
                    buffered,
                    seeded.last_frame_drain_at,
                )[i]).timestamp.nanos > last.nanos
            &&& forall|at: Instant|
                #[trigger] crate::clip_state::tick_reached(seeded.next_frame_due, at)
                    ==> at.nanos >= last.after(crate::clip_state::tick_nanos(state.frame_rate))
        }),
{
    crate::ffmpeg::resampling_keeps_the_first_frame(pre_frames, state.frame_rate);
    let last = crate::ffmpeg::resampled(pre_frames, state.frame_rate).last().timestamp;
    let out = crate::buffer::newer(buffered, last);
    assert forall|i: int| 0 <= i < out.len() implies (#[trigger] out[i]).timestamp.nanos
        > last.nanos by {
        buffered.lemma_filter_pred(
            |entry: TimestampedFrame| crate::buffer::Timestamped::stamp(&entry).nanos > last.nanos,
            i,
        );
    }
}

/// The samples can be read back from the file: four bytes make each of them
/// again, the lowest first, in the order they were captured.
pub proof fn samples_read_back(samples: Seq<Single>, i: int)
    requires
        0 <= i < samples.len(),
    ensures
        sample_bytes(samples).len() == 4 * samples.len(),
        ({
            let bytes = sample_bytes(samples);
            bytes[4 * i] + 0x100 * bytes[4 * i + 1] + 0x1_0000 * bytes[4 * i + 2] + 0x100_0000
                * bytes[4 * i + 3] == samples[i].bits
        }),
    decreases samples.len(),
{
    sample_bytes_length(samples);
    let init = samples.drop_last();
    sample_bytes_length(init);
    if i < init.len() {
        samples_read_back(init, i);
        assert(init[i] == samples[i]);
        let bytes = sample_bytes(samples);
        let head = sample_bytes(init);
        assert(bytes[4 * i] == head[4 * i] && bytes[4 * i + 1] == head[4 * i + 1] && bytes[4 * i
            + 2] == head[4 * i + 2] && bytes[4 * i + 3] == head[4 * i + 3]);
    } else {
        let n = samples.last().bits;
        assert(n == (n % 256) + 0x100 * ((n / 256) % 256) + 0x1_0000 * ((n / 65_536) % 256)
            + 0x100_0000 * (n / 16_777_216));
        assert(n / 16_777_216 < 256);
    }
}

/// Audio goes on where it stopped: chunks written one after another make the
/// file that all of them make together.
pub proof fn audio_can_be_written_in_parts(first: Seq<Single>, second: Seq<Single>)
    ensures
        sample_bytes(first + second) == sample_bytes(first) + sample_bytes(second),
    decreases second.len(),
{
    if second.len() == 0 {
        assert(first + second =~= first);
        assert(sample_bytes(first) + sample_bytes(second) =~= sample_bytes(first));
    } else {
        audio_can_be_written_in_parts(first, second.drop_last());
        assert((first + second).drop_last() =~= first + second.drop_last());
        assert((first + second).last() == second.last());
        assert(sample_bytes(first + second) =~= sample_bytes(first) + sample_bytes(second));
    }
}

/// A drain that took frames over leaves the next one exactly what arrives
/// after it, and restarts the camera's stall clock; one that found none changes
/// nothing.
pub proof fn drain_takes_frames_once(
    state: ClipState,
    buffered: Seq<TimestampedFrame>,
    arrived: Seq<TimestampedFrame>,
    now: Instant,
    later: Instant,
)
    requires
        crate::buffer::oldest_first(buffered),
        forall|i: int|
            0 <= i < arrived.len() ==> (#[trigger] arrived[i]).timestamp.nanos
                > buffered.last().timestamp.nanos,
        now.nanos <= later.nanos,
    ensures
        ({
            let taken = crate::buffer::newer(buffered, state.last_frame_drain_at);
            let after = after_taking_frames(state, taken, now);
            &&& taken.len() > 0 ==> crate::buffer::newer(
                buffered + arrived,
                after.last_frame_drain_at,
            ) == arrived && after.stalled(later) == (later.nanos - now.nanos >= 1_500_000_000)
            &&& taken.len() == 0 ==> after == state
            &&& after.next_frame_due == state.next_frame_due
            &&& after.last_audio_drain_at == state.last_audio_drain_at
            &&& after.last_trigger_at == state.last_trigger_at
            &&& after.frame_rate == state.frame_rate
            &&& after.clip_timeline_start == state.clip_timeline_start
            &&& after.detections == state.detections
            &&& after.motion_events == state.motion_events
            &&& after.all_classes == state.all_classes
        }),
{
    let taken = crate::buffer::newer(buffered, state.last_frame_drain_at);
    if taken.len() > 0 {
        crate::buffer::consecutive_drains_neither_skip_nor_repeat(
            buffered,
            arrived,
            state.last_frame_drain_at,
        );
    }
}

/// A drain that took audio over leaves the next one exactly what arrives after
/// it, and touches nothing else; so does the audio of a pre-buffer.
pub proof fn drain_takes_audio_once(
    state: ClipState,
    buffered: Seq<TimestampedAudio>,
    arrived: Seq<TimestampedAudio>,
)
    requires
        crate::buffer::oldest_first(buffered),
        forall|i: int|
            0 <= i < arrived.len() ==> (#[trigger] arrived[i]).timestamp.nanos
                > buffered.last().timestamp.nanos,
    ensures
        ({
            let taken = crate::buffer::newer(buffered, state.last_audio_drain_at);
            let after = after_taking_audio(state, taken);
            &&& taken.len() > 0 ==> crate::buffer::newer(
                buffered + arrived,
                after.last_audio_drain_at,
            ) == arrived
            &&& taken.len() == 0 ==> after == state
            &&& after == (ClipState { last_audio_drain_at: after.last_audio_drain_at, ..state })
        }),
{
    let taken = crate::buffer::newer(buffered, state.last_audio_drain_at);
    if taken.len() > 0 {
        crate::buffer::consecutive_drains_neither_skip_nor_repeat(
            buffered,
            arrived,
            state.last_audio_drain_at,
        );
    }
}

/// How far the pre-buffer was written decides where live footage goes on: the
/// picture and the sound each go on behind what of them was written, and from
/// the clip's beginning where nothing was. The next frame is due one tick after
/// the last one written. The quiet window and what was detected are left alone.
pub proof fn live_footage_goes_on_behind_what_was_written(
    state: ClipState,
    pre_frames: Seq<TimestampedFrame>,
    pre_audio: Seq<TimestampedAudio>,
    outcome: SeedOutcome,
    now: Instant,
    later: Instant,
)
    requires
        state.frame_rate > 0,
        now.nanos <= later.nanos,
    ensures
        ({
            let after = after_seeding(state, pre_frames, pre_audio, outcome, now);
            let last = crate::ffmpeg::resampled(pre_frames, state.frame_rate).last().timestamp;
            let tick = crate::clip_state::tick_nanos(state.frame_rate);
            &&& if outcome is FramesFailed || pre_frames.len() == 0 {
                &&& after.last_frame_drain_at == state.last_frame_drain_at
                &&& after.next_frame_due == state.next_frame_due
                &&& after.last_real_frame_at == state.last_real_frame_at
            } else {
                &&& after.last_frame_drain_at == last
                &&& after.next_frame_due is Some
                &&& last.nanos + tick <= i128::MAX ==> after.next_frame_due->0.nanos == last.nanos
                    + tick
                &&& after.stalled(later) == (later.nanos - now.nanos >= 1_500_000_000)
            }
            &&& after.last_audio_drain_at == if outcome is Written && pre_audio.len() > 0 {
                pre_audio[pre_audio.len() - 1].timestamp
            } else {
                state.last_audio_drain_at
            }
            &&& after.last_trigger_at == state.last_trigger_at
            &&& after.clip_timeline_start == state.clip_timeline_start
            &&& after.frame_rate == state.frame_rate
            &&& after.detections == state.detections
            &&& after.motion_events == state.motion_events
            &&& after.all_classes == state.all_classes
        }),
{
    if pre_frames.len() > 0 {
        crate::ffmpeg::resampling_keeps_the_first_frame(pre_frames, state.frame_rate);
        crate::clip_state::tick_is_a_second_over_the_rate(state.frame_rate);
        let last = crate::ffmpeg::resampled(pre_frames, state.frame_rate).last().timestamp;
        assert(0 <= 1_000_000_000int / (state.frame_rate as int)) by (nonlinear_arith)
            requires
                state.frame_rate > 0,
        ;
        assert(last.nanos + crate::clip_state::tick_nanos(state.frame_rate) >= i128::MIN);
    } else {
        crate::ffmpeg::rate_of_zero_keeps_every_frame(pre_frames, state.frame_rate);
        assert(pre_frames =~= Seq::<TimestampedFrame>::empty());
    }
}

/// The files of a recording are told apart: picture, sound and finished clip
/// are in one folder, and no two of them share a name.
pub proof fn files_of_a_recording_are_apart(folder: Seq<char>, stem: Seq<char>)
    requires
        folder.len() == 0 || folder.last() == '/',
        stem.len() > 0,
        !stem.contains('/'),
    ensures
        ({
            let clip = folder + stem + ".mp4"@;
            let video = crate::paths::with_extension_text(clip, "video.tmp.mp4"@);
            let audio = crate::paths::with_extension_text(clip, "audio.tmp.pcm"@);
            &&& video == folder + stem + ".video.tmp.mp4"@
            &&& audio == folder + stem + ".audio.tmp.pcm"@
            &&& video != clip && audio != clip && video != audio
        }),
{
    reveal_strlit(".mp4");
    reveal_strlit("mp4");
    reveal_strlit("video.tmp.mp4");
    reveal_strlit(".video.tmp.mp4");
    reveal_strlit("audio.tmp.pcm");
    reveal_strlit(".audio.tmp.pcm");
    reveal_strlit(".");
    let base = folder + stem;
    let clip = base + ".mp4"@;
    assert(clip =~= base + "."@ + "mp4"@);
    crate::paths::extension_is_replaced(folder, stem, "mp4"@, "video.tmp.mp4"@);
    crate::paths::extension_is_replaced(folder, stem, "mp4"@, "audio.tmp.pcm"@);
    let video = base + ".video.tmp.mp4"@;
    let audio = base + ".audio.tmp.pcm"@;
    assert(base + "."@ + "video.tmp.mp4"@ =~= video);
    assert(base + "."@ + "audio.tmp.pcm"@ =~= audio);
    assert(video.len() != clip.len());
    assert(audio.len() != clip.len());
    assert(video[base.len() as int + 1] == 'v' && audio[base.len() as int + 1] == 'a');
}

} // verus!
