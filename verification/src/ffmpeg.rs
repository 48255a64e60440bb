//! What the encoder is asked to do, and which frames it is given.

use vstd::prelude::*;
use vstd::string::*;

use crate::buffer::TimestampedFrame;
use crate::clip_state::frame_tick;
use crate::text::{push_decimal, push_text, trim};
use crate::time::{Duration, Instant};

verus! {

/// The tick that is due after a run of frames, given the one due before it.
pub open spec fn due_after(
    frames: Seq<TimestampedFrame>,
    next_due: Option<Instant>,
    frame_rate: u32,
) -> Option<Instant>
    decreases frames.len(),
{
    if frames.len() == 0 {
        next_due
    } else {
        crate::clip_state::next_tick(
            due_after(frames.drop_last(), next_due, frame_rate),
            frames.last().timestamp,
            frame_rate,
        )
    }
}

/// The frames of a run that are written: each that has reached the tick due
/// when its turn comes.
pub open spec fn due_frames(
    frames: Seq<TimestampedFrame>,
    next_due: Option<Instant>,
    frame_rate: u32,
) -> Seq<TimestampedFrame>
    decreases frames.len(),
{
    if frames.len() == 0 {
        seq![]
    } else {
        let before = due_frames(frames.drop_last(), next_due, frame_rate);
        if crate::clip_state::tick_reached(
            due_after(frames.drop_last(), next_due, frame_rate),
            frames.last().timestamp,
        ) {
            before.push(frames.last())
        } else {
            before
        }
    }
}

/// The frames kept when a run is resampled. At a rate of zero all are.
pub open spec fn resampled(
    frames: Seq<TimestampedFrame>,
    frame_rate: u32,
) -> Seq<TimestampedFrame> {
    if frame_rate == 0 {
        frames
    } else {
        due_frames(frames, None, frame_rate)
    }
}

/// Downsamples frames to about `frame_rate` frames per second by their capture
/// timestamps, keeping the first frame at or after each tick. Buffered frames
/// come at the camera's own rate; writing all of them would stretch the clip
/// beyond the time it covers.
pub fn resample_to_frame_rate(frames: &[TimestampedFrame], frame_rate: u32) -> (r: Vec<
    &TimestampedFrame,
>)
    ensures
        r@.len() == resampled(frames@, frame_rate).len(),
        forall|i: int| 0 <= i < r@.len() ==> *(#[trigger] r@[i]) == resampled(frames@, frame_rate)[i],
{
    let mut selected: Vec<&TimestampedFrame> = Vec::new();
    let mut i: usize = 0;
    if frame_rate == 0 {
        while i < frames.len()
            invariant
                i <= frames@.len(),
                selected@.len() == i,
                forall|k: int| 0 <= k < i ==> *(#[trigger] selected@[k]) == frames@[k],
            decreases frames@.len() - i,
        {
            selected.push(&frames[i]);
            i = i + 1;
        }
        return selected;
    }
    let tick: Duration = frame_tick(frame_rate);
    let mut next_due: Option<Instant> = None;
    assert(frames@.take(0) =~= seq![]);
    while i < frames.len()
        invariant
            frame_rate > 0,
            tick.nanos == crate::clip_state::tick_nanos(frame_rate),
            i <= frames@.len(),
            next_due == due_after(frames@.take(i as int), None, frame_rate),
            selected@.len() == due_frames(frames@.take(i as int), None, frame_rate).len(),
            forall|k: int|
                0 <= k < selected@.len() ==> *(#[trigger] selected@[k]) == due_frames(
                    frames@.take(i as int),
                    None,
                    frame_rate,
                )[k],
        decreases frames@.len() - i,
    {
        proof {
            let upto = frames@.take(i + 1);
            assert(upto.drop_last() =~= frames@.take(i as int));
            assert(upto.last() == frames@[i as int]);
        }
        let timestamp: Instant = frames[i].timestamp;
        let due: Instant = match next_due {
            Some(due) => due,
            None => timestamp,
        };
        if timestamp.nanos >= due.nanos {
            selected.push(&frames[i]);
            next_due = Some(due.plus(tick));
        }
        i = i + 1;
    }
    assert(frames@.take(i as int) =~= frames@);
    selected
}

/// The arguments that make the encoder read raw RGB frames of one size and
/// rate from its standard input and write an H.264 file.
pub open spec fn encoder_arguments(
    path: Seq<char>,
    width: u32,
    height: u32,
    frame_rate: u32,
) -> Seq<Seq<char>> {
    seq![
        "-y"@,
        "-loglevel"@,
        "error"@,
        "-f"@,
        "rawvideo"@,
        "-pixel_format"@,
        "rgb24"@,
        "-video_size"@,
        crate::text::decimal(width as nat) + "x"@ + crate::text::decimal(height as nat),
        "-framerate"@,
        crate::text::decimal(frame_rate as nat),
        "-i"@,
        "-"@,
        "-c:v"@,
        "libx264"@,
        "-pix_fmt"@,
        "yuv420p"@,
        path,
    ]
}

/// A number as text.
fn number_text(n: u32) -> (r: String)
    ensures
        r@ == crate::text::decimal(n as nat),
{
    let mut text: String = String::new();
    push_decimal(&mut text, n as u64);
    assert(text@ =~= crate::text::decimal(n as nat));
    text
}

/// Arguments for encoding the frames of a clip into the file at `path`.
pub fn video_encoder_args(path: &str, width: u32, height: u32, frame_rate: u32) -> (r: Vec<String>)
    ensures
        crate::text::texts(r@) == encoder_arguments(path@, width, height, frame_rate),
{
    let mut size: String = number_text(width);
    size.append("x");
    push_decimal(&mut size, height as u64);
    let rate: String = number_text(frame_rate);
    let mut args: Vec<String> = Vec::new();
    push_text(&mut args, "-y");
    push_text(&mut args, "-loglevel");
    push_text(&mut args, "error");
    push_text(&mut args, "-f");
    push_text(&mut args, "rawvideo");
    push_text(&mut args, "-pixel_format");
    push_text(&mut args, "rgb24");
    push_text(&mut args, "-video_size");
    push_text(&mut args, size.as_str());
    push_text(&mut args, "-framerate");
    push_text(&mut args, rate.as_str());
    push_text(&mut args, "-i");
    push_text(&mut args, "-");
    push_text(&mut args, "-c:v");
    push_text(&mut args, "libx264");
    push_text(&mut args, "-pix_fmt");
    push_text(&mut args, "yuv420p");
    push_text(&mut args, path);
    assert(crate::text::texts(args@) =~= encoder_arguments(path@, width, height, frame_rate));
    args
}

/// The arguments that make ffmpeg put raw audio beside an encoded video. The
/// audio is padded with silence (`apad`), and only then is the result cut to
/// the shorter stream, so it is exactly as long as the video and no frame is
/// lost when the two streams have drifted apart.
pub open spec fn mux_arguments(
    video_path: Seq<char>,
    audio_path: Seq<char>,
    output_path: Seq<char>,
    sample_rate: u32,
    channels: u16,
) -> Seq<Seq<char>> {
    seq![
        "-y"@,
        "-i"@,
        video_path,
        "-f"@,
        "f32le"@,
        "-ar"@,
        crate::text::decimal(sample_rate as nat),
        "-ac"@,
        crate::text::decimal(channels as nat),
        "-i"@,
        audio_path,
        "-c:v"@,
        "copy"@,
        "-af"@,
        "apad"@,
        "-c:a"@,
        "aac"@,
        "-shortest"@,
        output_path,
    ]
}

/// Arguments for muxing the buffered audio into the encoded video.
pub fn mux_args(
    video_path: &str,
    audio_path: &str,
    output_path: &str,
    sample_rate: u32,
    channels: u16,
) -> (r: Vec<String>)
    ensures
        crate::text::texts(r@) == mux_arguments(
            video_path@,
            audio_path@,
            output_path@,
            sample_rate,
            channels,
        ),
{
    let rate: String = number_text(sample_rate);
    let count: String = number_text(channels as u32);
    let mut args: Vec<String> = Vec::new();
    push_text(&mut args, "-y");
    push_text(&mut args, "-i");
    push_text(&mut args, video_path);
    push_text(&mut args, "-f");
    push_text(&mut args, "f32le");
    push_text(&mut args, "-ar");
    push_text(&mut args, rate.as_str());
    push_text(&mut args, "-ac");
    push_text(&mut args, count.as_str());
    push_text(&mut args, "-i");
    push_text(&mut args, audio_path);
    push_text(&mut args, "-c:v");
    push_text(&mut args, "copy");
    push_text(&mut args, "-af");
    push_text(&mut args, "apad");
    push_text(&mut args, "-c:a");
    push_text(&mut args, "aac");
    push_text(&mut args, "-shortest");
    push_text(&mut args, output_path);
    assert(crate::text::texts(args@) =~= mux_arguments(
        video_path@,
        audio_path@,
        output_path@,
        sample_rate,
        channels,
    ));
    args
}

/// How an ffmpeg process ended: its exit status in words, whether that is
/// success, and what it wrote to standard error.
pub struct ProcessExit {
    /// Whether the process reported success.
    pub success: bool,
    /// The exit status in words.
    pub status: String,
    /// What the process wrote to standard error.
    pub stderr: String,
}

/// What is said of a process that failed: what it was, how it ended, and its
/// own words without surrounding white space.
pub open spec fn exit_message(step: Seq<char>, status: Seq<char>, stderr: Seq<char>) -> Seq<char> {
    step + " exited with "@ + status + ": "@ + crate::text::trimmed(stderr)
}

/// `Ok` if the process succeeded, else what went wrong.
pub fn check_exit(step: &str, exit: &ProcessExit) -> (r: Result<(), String>)
    ensures
        r is Ok == exit.success,
        r is Err ==> r->Err_0@ == exit_message(step@, exit.status@, exit.stderr@),
{
    if exit.success {
        return Ok(());
    }
    let mut text: String = step.to_owned();
    text.append(" exited with ");
    text.append(exit.status.as_str());
    text.append(": ");
    text.append(trim(exit.stderr.as_str()));
    Err(text)
}

/// Whether the muxing step succeeded.
pub fn check_mux_exit(exit: &ProcessExit) -> (r: Result<(), String>)
    ensures
        r is Ok == exit.success,
        r is Err ==> r->Err_0@ == exit_message("ffmpeg audio mux"@, exit.status@, exit.stderr@),
{
    check_exit("ffmpeg audio mux", exit)
}

/// Resampling keeps the first frame, so a clip starts where its pre-buffer does.
pub proof fn resampling_keeps_the_first_frame(frames: Seq<TimestampedFrame>, frame_rate: u32)
    requires
        frames.len() > 0,
    ensures
        resampled(frames, frame_rate).len() > 0,
        resampled(frames, frame_rate)[0] == frames[0],
    decreases frames.len(),
{
    if frame_rate > 0 {
        if frames.len() == 1 {
            assert(due_frames(frames.drop_last(), None, frame_rate) =~= seq![]);
        } else {
            resampling_keeps_the_first_frame(frames.drop_last(), frame_rate);
        }
    }
}

/// Whether `part` is made of entries of `whole`, at the positions `at`, in
/// their order.
pub open spec fn taken_in_order<T>(part: Seq<T>, whole: Seq<T>, at: Seq<int>) -> bool {
    &&& at.len() == part.len()
    &&& forall|i: int|
        0 <= i < at.len() ==> 0 <= #[trigger] at[i] < whole.len() && whole[at[i]] == part[i]
    &&& forall|i: int, j: int| 0 <= i < j < at.len() ==> #[trigger] at[i] < #[trigger] at[j]
}

/// What is written of a run of frames is part of it, in its order, with
/// nothing repeated and nothing made up.
pub proof fn due_frames_are_real_frames(
    frames: Seq<TimestampedFrame>,
    next_due: Option<Instant>,
    frame_rate: u32,
)
    ensures
        exists|at: Seq<int>|
            #[trigger] taken_in_order(due_frames(frames, next_due, frame_rate), frames, at),
    decreases frames.len(),
{
    let out = due_frames(frames, next_due, frame_rate);
    if frames.len() == 0 {
        assert(taken_in_order(out, frames, Seq::<int>::empty()));
    } else {
        let init = frames.drop_last();
        let before = due_frames(init, next_due, frame_rate);
        due_frames_are_real_frames(init, next_due, frame_rate);
        let at = choose|at: Seq<int>| #[trigger] taken_in_order(before, init, at);
        if out == before {
            assert forall|i: int| 0 <= i < at.len() implies 0 <= #[trigger] at[i] < frames.len()
                && frames[at[i]] == out[i] by {
                assert(init[at[i]] == before[i]);
            }
            assert(taken_in_order(out, frames, at));
        } else {
            let more = at.push(frames.len() - 1);
            assert forall|i: int| 0 <= i < more.len() implies 0 <= #[trigger] more[i]
                < frames.len() && frames[more[i]] == out[i] by {
                if i < at.len() {
                    assert(0 <= at[i] < init.len() && init[at[i]] == before[i]);
                }
            }
            assert forall|i: int, j: int| 0 <= i < j < more.len() implies #[trigger] more[i]
                < #[trigger] more[j] by {
                assert(0 <= at[i] < init.len());
                if j < at.len() {
                    assert(at[i] < at[j]);
                }
            }
            assert(taken_in_order(out, frames, more));
        }
    }
}

/// Writing goes on across drains as if there had been one: splitting a run of
/// frames in two changes neither what is written nor the tick due afterwards.
pub proof fn draining_in_parts_changes_nothing(
    first: Seq<TimestampedFrame>,
    second: Seq<TimestampedFrame>,
    next_due: Option<Instant>,
    frame_rate: u32,
)
    ensures
        due_after(first + second, next_due, frame_rate) == due_after(
            second,
            due_after(first, next_due, frame_rate),
            frame_rate,
        ),
        due_frames(first + second, next_due, frame_rate) == due_frames(first, next_due, frame_rate)
            + due_frames(second, due_after(first, next_due, frame_rate), frame_rate),
    decreases second.len(),
{
    if second.len() == 0 {
        assert(first + second =~= first);
    } else {
        draining_in_parts_changes_nothing(first, second.drop_last(), next_due, frame_rate);
        assert((first + second).drop_last() =~= first + second.drop_last());
        assert((first + second).last() == second.last());
    }
}

/// While ticks stay within the clock's range, the tick due after a run is the
/// first frame's time and one tick for each frame written; and the last frame
/// written came no earlier than the tick before that one.
pub proof fn ticks_count_frames_written(frames: Seq<TimestampedFrame>, frame_rate: u32)
    requires
        frame_rate > 0,
        frames.len() > 0,
        frames[0].timestamp.nanos + frames.len() * crate::clip_state::tick_nanos(frame_rate)
            <= i128::MAX,
    ensures
        due_after(frames, None, frame_rate) == Some(
            Instant {
                nanos: (frames[0].timestamp.nanos + due_frames(frames, None, frame_rate).len()
                    * crate::clip_state::tick_nanos(frame_rate)) as i128,
            },
        ),
        0 < due_frames(frames, None, frame_rate).len() <= frames.len(),
        due_frames(frames, None, frame_rate).last().timestamp.nanos >= frames[0].timestamp.nanos + (
        due_frames(frames, None, frame_rate).len() - 1) * crate::clip_state::tick_nanos(frame_rate),
    decreases frames.len(),
{
    let tick = crate::clip_state::tick_nanos(frame_rate);
    assert(0 <= tick) by {
        assert(0 <= 1_000_000_000int / (frame_rate as int)) by (nonlinear_arith)
            requires
                frame_rate > 0,
        ;
    }
    let init = frames.drop_last();
    let start = frames[0].timestamp.nanos;
    if frames.len() == 1 {
        assert(due_frames(init, None, frame_rate) =~= seq![]);
        assert(due_frames(frames, None, frame_rate) =~= frames);
        assert(due_after(init, None, frame_rate) == None::<Instant>);
        assert(1 * tick == tick);
    } else {
        assert(init.len() * tick <= frames.len() * tick) by (nonlinear_arith)
            requires
                0 <= tick,
                init.len() <= frames.len(),
        ;
        ticks_count_frames_written(init, frame_rate);
        let n = due_frames(init, None, frame_rate).len();
        assert((n + 1) * tick == n * tick + tick) by (nonlinear_arith);
        assert((n + 1) * tick <= frames.len() * tick) by (nonlinear_arith)
            requires
                0 <= tick,
                n + 1 <= frames.len(),
        ;
        assert(0 <= n * tick) by (nonlinear_arith)
            requires
                0 <= tick,
                0 <= n,
        ;
        let due = due_after(init, None, frame_rate);
        assert(due->0.nanos == start + n * tick);
        assert(due->0.after(tick) == start + (n + 1) * tick);
    }
}

/// A resampled run covers no more time at the target rate than its frames span:
/// the frames kept, one tick apart, end no later than the last of them.
pub proof fn resampling_never_stretches(frames: Seq<TimestampedFrame>, frame_rate: u32)
    requires
        frame_rate > 0,
        frames.len() > 0,
        frames[0].timestamp.nanos + frames.len() * crate::clip_state::tick_nanos(frame_rate)
            <= i128::MAX,
    ensures
        (resampled(frames, frame_rate).len() - 1) * crate::clip_state::tick_nanos(frame_rate)
            <= resampled(frames, frame_rate).last().timestamp.nanos - frames[0].timestamp.nanos,
{
    ticks_count_frames_written(frames, frame_rate);
}

/// Frames at least one tick apart are all kept.
pub proof fn widely_spaced_frames_are_all_kept(frames: Seq<TimestampedFrame>, frame_rate: u32)
    requires
        frame_rate > 0,
        forall|i: int, j: int|
            0 <= i < j < frames.len() ==> (#[trigger] frames[i]).timestamp.nanos
                + crate::clip_state::tick_nanos(frame_rate) <= (
            #[trigger] frames[j]).timestamp.nanos,
    ensures
        resampled(frames, frame_rate) == frames,
        frames.len() > 0 ==> due_after(frames, None, frame_rate) is Some && due_after(
            frames,
            None,
            frame_rate,
        )->0.nanos <= frames.last().timestamp.after(crate::clip_state::tick_nanos(frame_rate)),
    decreases frames.len(),
{
    if frames.len() == 0 {
        assert(due_frames(frames, None, frame_rate) =~= frames);
    } else {
        let init = frames.drop_last();
        assert forall|i: int, j: int| 0 <= i < j < init.len() implies (
        #[trigger] init[i]).timestamp.nanos + crate::clip_state::tick_nanos(frame_rate) <= (
        #[trigger] init[j]).timestamp.nanos by {
            assert(frames[i].timestamp.nanos + crate::clip_state::tick_nanos(frame_rate)
                <= frames[j].timestamp.nanos);
        }
        widely_spaced_frames_are_all_kept(init, frame_rate);
        if init.len() > 0 {
            assert(frames[frames.len() - 2] == init.last());
            assert(frames[frames.len() - 2].timestamp.nanos + crate::clip_state::tick_nanos(
                frame_rate,
            ) <= frames[frames.len() - 1].timestamp.nanos);
        }
        assert(init.push(frames.last()) =~= frames);
    }
}

/// The time at which the first tick of a run is due: the one that is scheduled,
/// or else the first frame's own.
pub open spec fn first_due(frames: Seq<TimestampedFrame>, next_due: Option<Instant>) -> int {
    match next_due {
        Some(due) => due.nanos as int,
        None => frames[0].timestamp.nanos as int,
    }
}

/// While ticks stay within the clock's range, the tick due after a run is as
/// many ticks past the first as frames were written.
proof fn each_frame_written_takes_a_tick(
    frames: Seq<TimestampedFrame>,
    next_due: Option<Instant>,
    frame_rate: u32,
)
    requires
        frame_rate > 0,
        next_due is Some || frames.len() > 0,
        first_due(frames, next_due) + frames.len() * crate::clip_state::tick_nanos(frame_rate)
            <= i128::MAX,
    ensures
        due_after(frames, next_due, frame_rate) is Some,
        due_after(frames, next_due, frame_rate)->0.nanos == first_due(frames, next_due)
            + due_frames(frames, next_due, frame_rate).len() * crate::clip_state::tick_nanos(
            frame_rate,
        ),
        due_frames(frames, next_due, frame_rate).len() <= frames.len(),
    decreases frames.len(),
{
    let tick = crate::clip_state::tick_nanos(frame_rate);
    let start = first_due(frames, next_due);
    assert(0 <= tick) by {
        assert(0 <= 1_000_000_000int / (frame_rate as int)) by (nonlinear_arith)
            requires
                frame_rate > 0,
        ;
    }
    assert(0 * tick == 0);
    if frames.len() > 0 {
        let init = frames.drop_last();
        if next_due is None && init.len() == 0 {
            assert(due_frames(init, next_due, frame_rate).len() == 0);
            assert(1 * tick == tick);
        } else {
            assert(init.len() * tick <= frames.len() * tick) by (nonlinear_arith)
                requires
                    0 <= tick,
                    init.len() <= frames.len(),
            ;
            each_frame_written_takes_a_tick(init, next_due, frame_rate);
            let n = due_frames(init, next_due, frame_rate).len();
            assert((n + 1) * tick == n * tick + tick) by (nonlinear_arith);
            assert((n + 1) * tick <= frames.len() * tick) by (nonlinear_arith)
                requires
                    0 <= tick,
                    n + 1 <= frames.len(),
            ;
        }
    }
}

/// Frame by frame, a run is thinned out to the rate: once `n` frames are
/// written, the next one that is written is the first to come no earlier than
/// `n` ticks after the first was due. Holds while ticks stay within the clock's
/// range.
pub proof fn frame_is_written_once_its_tick_has_come(
    frames: Seq<TimestampedFrame>,
    frame: TimestampedFrame,
    next_due: Option<Instant>,
    frame_rate: u32,
)
    requires
        frame_rate > 0,
        next_due is Some || frames.len() > 0,
        first_due(frames, next_due) + frames.len() * crate::clip_state::tick_nanos(frame_rate)
            <= i128::MAX,
    ensures
        ({
            let written = due_frames(frames, next_due, frame_rate);
            due_frames(frames.push(frame), next_due, frame_rate) == if frame.timestamp.nanos
                >= first_due(frames, next_due) + written.len() * crate::clip_state::tick_nanos(
                frame_rate,
            ) {
                written.push(frame)
            } else {
                written
            }
        }),
        next_due is None ==> resampled(frames.push(frame), frame_rate) == due_frames(
            frames.push(frame),
            next_due,
            frame_rate,
        ),
{
    each_frame_written_takes_a_tick(frames, next_due, frame_rate);
    assert(frames.push(frame).drop_last() =~= frames);
}

/// Nothing is thinned out at a rate of zero, and nothing comes of nothing.
pub proof fn rate_of_zero_keeps_every_frame(frames: Seq<TimestampedFrame>, frame_rate: u32)
    ensures
        resampled(frames, 0) == frames,
        resampled(Seq::<TimestampedFrame>::empty(), frame_rate).len() == 0,
        frames.len() == 1 ==> resampled(frames, frame_rate) == frames,
{
    if frames.len() == 1 && frame_rate > 0 {
        assert(due_frames(frames.drop_last(), None, frame_rate) =~= seq![]);
        assert(due_frames(frames, None, frame_rate) =~= frames);
    }
}

/// Whether arguments hold an option with its value behind it.
pub open spec fn has_option(args: Seq<Seq<char>>, option: Seq<char>, value: Seq<char>) -> bool {
    exists|i: int|
        0 <= i < args.len() - 1 && #[trigger] args[i] == option && args[i + 1] == value
}

/// Whether arguments hold an option whose value reads back as the number.
pub open spec fn has_number(args: Seq<Seq<char>>, option: Seq<char>, value: nat) -> bool {
    exists|i: int|
        0 <= i < args.len() - 1 && #[trigger] args[i] == option
            && crate::capture::camera::all_digits(args[i + 1])
            && crate::capture::camera::digits_value(args[i + 1]) == value
}

/// The raw audio is read as it was captured: the numbers right behind the rate
/// and the channel options read back as the rate and the channel count, and
/// these, with the sample format, stand between the video and the audio, which
/// is the input they are for.
pub proof fn audio_is_read_at_its_own_rate(
    video_path: Seq<char>,
    audio_path: Seq<char>,
    output_path: Seq<char>,
    sample_rate: u32,
    channels: u16,
)
    ensures
        ({
            let args = mux_arguments(video_path, audio_path, output_path, sample_rate, channels);
            let input = args.subrange(3, 11);
            &&& args.subrange(1, 3) == seq!["-i"@, video_path]
            &&& has_option(input, "-f"@, "f32le"@)
            &&& has_number(input, "-ar"@, sample_rate as nat)
            &&& has_number(input, "-ac"@, channels as nat)
            &&& input.subrange(6, 8) == seq!["-i"@, audio_path]
        }),
{
    let args = mux_arguments(video_path, audio_path, output_path, sample_rate, channels);
    let input = args.subrange(3, 11);
    crate::text::decimal_reads_back(sample_rate as nat);
    crate::text::decimal_reads_back(channels as nat);
    assert(input[0] == "-f"@ && input[1] == "f32le"@);
    assert(input[2] == "-ar"@ && input[3] == crate::text::decimal(sample_rate as nat));
    assert(input[4] == "-ac"@ && input[5] == crate::text::decimal(channels as nat));
    assert(input.subrange(6, 8) =~= seq!["-i"@, audio_path]);
}

/// The picture goes into the clip as it was encoded; the sound is padded, and
/// only then is the shorter stream decisive. The clip overwrites what is at
/// its place, which comes last.
pub proof fn muxing_keeps_the_picture_and_pads_the_sound(
    video_path: Seq<char>,
    audio_path: Seq<char>,
    output_path: Seq<char>,
    sample_rate: u32,
    channels: u16,
)
    ensures
        ({
            let args = mux_arguments(video_path, audio_path, output_path, sample_rate, channels);
            let output = args.skip(11);
            &&& args[0] == "-y"@
            &&& has_option(output, "-c:v"@, "copy"@)
            &&& has_option(output, "-af"@, "apad"@)
            &&& has_option(output, "-c:a"@, "aac"@)
            &&& has_option(output, "-shortest"@, output_path)
            &&& args.last() == output_path
            &&& output.len() == 8
        }),
{
    let output = mux_arguments(
        video_path,
        audio_path,
        output_path,
        sample_rate,
        channels,
    ).skip(11);
    assert(output[0] == "-c:v"@ && output[1] == "copy"@);
    assert(output[2] == "-af"@ && output[3] == "apad"@);
    assert(output[4] == "-c:a"@ && output[5] == "aac"@);
    assert(output[6] == "-shortest"@ && output[7] == output_path);
}

/// The arguments for muxing tell every input apart: two calls that differ in a
/// path, in the rate or in the channels never give the same.
pub proof fn mux_arguments_tell_inputs_apart(
    a: (Seq<char>, Seq<char>, Seq<char>, u32, u16),
    b: (Seq<char>, Seq<char>, Seq<char>, u32, u16),
)
    requires
        mux_arguments(a.0, a.1, a.2, a.3, a.4) == mux_arguments(b.0, b.1, b.2, b.3, b.4),
    ensures
        a == b,
{
    let left = mux_arguments(a.0, a.1, a.2, a.3, a.4);
    let right = mux_arguments(b.0, b.1, b.2, b.3, b.4);
    assert(left[2] == a.0 && right[2] == b.0);
    assert(left[10] == a.1 && right[10] == b.1);
    assert(left[18] == a.2 && right[18] == b.2);
    assert(left[6] == crate::text::decimal(a.3 as nat));
    assert(right[6] == crate::text::decimal(b.3 as nat));
    assert(left[8] == crate::text::decimal(a.4 as nat));
    assert(right[8] == crate::text::decimal(b.4 as nat));
    crate::text::decimal_tells_numbers_apart(a.3 as nat, b.3 as nat);
    crate::text::decimal_tells_numbers_apart(a.4 as nat, b.4 as nat);
}

/// Whether a text is two numbers with an `x` between.
pub open spec fn is_size(text: Seq<char>, width: nat, height: nat) -> bool {
    exists|at: int|
        {
            &&& 0 <= at < text.len()
            &&& #[trigger] text[at] == 'x'
            &&& crate::capture::camera::all_digits(text.take(at))
            &&& crate::capture::camera::all_digits(text.skip(at + 1))
            &&& crate::capture::camera::digits_value(text.take(at)) == width
            &&& crate::capture::camera::digits_value(text.skip(at + 1)) == height
        }
}

/// A text is at most one size.
proof fn size_is_unique(text: Seq<char>, width: nat, height: nat, wide: nat, high: nat)
    requires
        is_size(text, width, height),
        is_size(text, wide, high),
    ensures
        width == wide && height == high,
{
    let i = choose|at: int|
        {
            &&& 0 <= at < text.len()
            &&& #[trigger] text[at] == 'x'
            &&& crate::capture::camera::all_digits(text.take(at))
            &&& crate::capture::camera::all_digits(text.skip(at + 1))
            &&& crate::capture::camera::digits_value(text.take(at)) == width
            &&& crate::capture::camera::digits_value(text.skip(at + 1)) == height
        };
    let j = choose|at: int|
        {
            &&& 0 <= at < text.len()
            &&& #[trigger] text[at] == 'x'
            &&& crate::capture::camera::all_digits(text.take(at))
            &&& crate::capture::camera::all_digits(text.skip(at + 1))
            &&& crate::capture::camera::digits_value(text.take(at)) == wide
            &&& crate::capture::camera::digits_value(text.skip(at + 1)) == high
        };
    if i < j {
        assert(text.take(j)[i] == 'x');
    } else if j < i {
        assert(text.take(i)[j] == 'x');
    }
}

/// The encoder is told the size and the rate of what it is fed: raw frames of
/// exactly that many pixels across and down, three bytes each, at exactly that
/// rate, from its standard input.
pub proof fn encoder_is_told_size_and_rate(
    path: Seq<char>,
    width: u32,
    height: u32,
    frame_rate: u32,
)
    ensures
        ({
            let args = encoder_arguments(path, width, height, frame_rate);
            let input = args.take(13);
            &&& has_option(input, "-f"@, "rawvideo"@)
            &&& has_option(input, "-pixel_format"@, "rgb24"@)
            &&& exists|size: Seq<char>|
                #[trigger] is_size(size, width as nat, height as nat) && has_option(
                    input,
                    "-video_size"@,
                    size,
                )
            &&& has_number(input, "-framerate"@, frame_rate as nat)
            &&& has_option(input, "-i"@, "-"@)
        }),
{
    reveal_strlit("x");
    let args = encoder_arguments(path, width, height, frame_rate);
    let input = args.take(13);
    crate::text::decimal_reads_back(width as nat);
    crate::text::decimal_reads_back(height as nat);
    crate::text::decimal_reads_back(frame_rate as nat);
    let wide = crate::text::decimal(width as nat);
    let high = crate::text::decimal(height as nat);
    let size = wide + "x"@ + high;
    assert(size[wide.len() as int] == 'x');
    assert(size.take(wide.len() as int) =~= wide);
    assert(size.skip(wide.len() as int + 1) =~= high);
    assert(is_size(size, width as nat, height as nat));
    assert(input[3] == "-f"@ && input[4] == "rawvideo"@);
    assert(input[5] == "-pixel_format"@ && input[6] == "rgb24"@);
    assert(input[7] == "-video_size"@ && input[8] == size);
    assert(input[9] == "-framerate"@ && input[10] == crate::text::decimal(frame_rate as nat));
    assert(input[11] == "-i"@ && input[12] == "-"@);
}

/// What the encoder makes of the frames: an H.264 file that players take, at
/// the place that is named last, over whatever is there.
pub proof fn encoder_writes_a_playable_file(
    path: Seq<char>,
    width: u32,
    height: u32,
    frame_rate: u32,
)
    ensures
        ({
            let args = encoder_arguments(path, width, height, frame_rate);
            let output = args.skip(13);
            &&& args[0] == "-y"@
            &&& has_option(args, "-loglevel"@, "error"@)
            &&& has_option(output, "-c:v"@, "libx264"@)
            &&& has_option(output, "-pix_fmt"@, "yuv420p"@)
            &&& args.last() == path
            &&& output.len() == 5
        }),
{
    let args = encoder_arguments(path, width, height, frame_rate);
    let output = args.skip(13);
    assert(args[1] == "-loglevel"@ && args[2] == "error"@);
    assert(output[0] == "-c:v"@ && output[1] == "libx264"@);
    assert(output[2] == "-pix_fmt"@ && output[3] == "yuv420p"@);
}

/// The arguments for encoding tell every input apart.
pub proof fn encoder_arguments_tell_inputs_apart(
    a: (Seq<char>, u32, u32, u32),
    b: (Seq<char>, u32, u32, u32),
)
    requires
        encoder_arguments(a.0, a.1, a.2, a.3) == encoder_arguments(b.0, b.1, b.2, b.3),
    ensures
        a == b,
{
    reveal_strlit("x");
    let left = encoder_arguments(a.0, a.1, a.2, a.3);
    let right = encoder_arguments(b.0, b.1, b.2, b.3);
    assert(left[17] == a.0 && right[17] == b.0);
    assert(left[10] == crate::text::decimal(a.3 as nat));
    assert(right[10] == crate::text::decimal(b.3 as nat));
    crate::text::decimal_tells_numbers_apart(a.3 as nat, b.3 as nat);
    crate::text::decimal_reads_back(a.1 as nat);
    crate::text::decimal_reads_back(a.2 as nat);
    crate::text::decimal_reads_back(b.1 as nat);
    crate::text::decimal_reads_back(b.2 as nat);
    let aw = crate::text::decimal(a.1 as nat);
    let ah = crate::text::decimal(a.2 as nat);
    let bw = crate::text::decimal(b.1 as nat);
    let bh = crate::text::decimal(b.2 as nat);
    let size = left[8];
    assert(size == aw + "x"@ + ah && size == bw + "x"@ + bh);
    assert(size[aw.len() as int] == 'x' && size.take(aw.len() as int) =~= aw);
    assert(size.skip(aw.len() as int + 1) =~= ah);
    assert(is_size(size, a.1 as nat, a.2 as nat));
    assert(size[bw.len() as int] == 'x' && size.take(bw.len() as int) =~= bw);
    assert(size.skip(bw.len() as int + 1) =~= bh);
    assert(is_size(size, b.1 as nat, b.2 as nat));
    size_is_unique(size, a.1 as nat, a.2 as nat, b.1 as nat, b.2 as nat);
}

/// What is said of a failed process starts with what it was and ends with its
/// own last words, without the white space around them.
pub proof fn exit_message_ends_in_the_process_own_words(
    step: Seq<char>,
    status: Seq<char>,
    stderr: Seq<char>,
)
    ensures
        ({
            let text = exit_message(step, status, stderr);
            let words = crate::text::trimmed(stderr);
            &&& text.take(step.len() as int) == step
            &&& text.skip(text.len() - words.len()) == words
            &&& text.subrange(step.len() as int, text.len() - words.len()) == " exited with "@
                + status + ": "@
        }),
{
    let text = exit_message(step, status, stderr);
    let words = crate::text::trimmed(stderr);
    let middle = " exited with "@ + status + ": "@;
    assert(text =~= step + middle + words);
    assert(text.take(step.len() as int) =~= step);
    assert(text.skip(text.len() - words.len()) =~= words);
    assert(text.subrange(step.len() as int, text.len() - words.len()) =~= middle);
}

} // verus!
