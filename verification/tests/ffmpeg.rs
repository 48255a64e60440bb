//! Frame selection and encoder arguments.

use std::sync::Arc;

use motioncap::buffer::TimestampedFrame;
use motioncap::clip_state::{frame_tick, ClipState};
use motioncap::ffmpeg::{
    check_exit, check_mux_exit, mux_args, resample_to_frame_rate, video_encoder_args, ProcessExit,
};
use motioncap::frame::RgbFrame;
use motioncap::time::{Clock, Duration, Instant};

const PLACEHOLDER_FRAME_DIM: u32 = 1;
const TEST_FRAME_RATE: u32 = 15;

fn frame_at(timestamp: Instant) -> TimestampedFrame {
    let image =
        RgbFrame::from_raw(PLACEHOLDER_FRAME_DIM, PLACEHOLDER_FRAME_DIM, vec![0; 3]).unwrap();
    TimestampedFrame { timestamp, image: Arc::new(image) }
}

#[test]
fn resample_empty_input_yields_empty_output() {
    let frames: Vec<TimestampedFrame> = Vec::new();
    assert!(resample_to_frame_rate(&frames, TEST_FRAME_RATE).is_empty());
}

#[test]
fn resample_zero_frame_rate_passes_through_every_frame() {
    let start = Clock::start().now();
    let frames = vec![
        frame_at(start),
        frame_at(start.plus(Duration::from_millis(1))),
        frame_at(start.plus(Duration::from_millis(2))),
    ];

    assert_eq!(resample_to_frame_rate(&frames, 0).len(), frames.len());
}

#[test]
fn resample_dedups_frames_tighter_than_one_tick() {
    let start = Clock::start().now();
    let frames = vec![
        frame_at(start),
        frame_at(start.plus(Duration::from_millis(5))),
        frame_at(start.plus(Duration::from_millis(10))),
    ];

    assert_eq!(resample_to_frame_rate(&frames, TEST_FRAME_RATE).len(), 1);
}

#[test]
fn resample_keeps_all_frames_spaced_wider_than_one_tick() {
    let start = Clock::start().now();
    let frames = vec![
        frame_at(start),
        frame_at(start.plus(Duration::from_millis(100))),
        frame_at(start.plus(Duration::from_millis(200))),
    ];

    assert_eq!(resample_to_frame_rate(&frames, TEST_FRAME_RATE).len(), frames.len());
}

#[test]
fn resample_keeps_the_first_frame_at_or_after_each_tick() {
    // Five frames a second: a tick of 200 ms, frames 70 ms apart.
    let frames: Vec<TimestampedFrame> =
        (0..10).map(|i| frame_at(Instant { nanos: i * 70_000_000 })).collect();
    let kept: Vec<i128> = resample_to_frame_rate(&frames, 5)
        .iter()
        .map(|f| f.timestamp.nanos / 1_000_000)
        .collect();
    assert_eq!(kept, vec![0, 210, 420, 630]);
    let tick = i128::try_from(frame_tick(5).nanos).unwrap();
    for (k, millis) in kept.iter().enumerate() {
        assert!(millis * 1_000_000 >= i128::try_from(k).unwrap() * tick);
    }
}

#[test]
fn resampling_and_live_writing_choose_the_same_frames() {
    let start = Instant { nanos: 0 };
    let mut state = ClipState::new_at(7, start, start);
    let frames: Vec<TimestampedFrame> =
        (0..50).map(|i| frame_at(Instant { nanos: i * i * 3_000_000 })).collect();
    let mut live = Vec::new();
    for frame in &frames {
        if state.should_write_frame(frame.timestamp) {
            live.push(frame.timestamp);
        }
    }
    let seeded: Vec<Instant> =
        resample_to_frame_rate(&frames, 7).iter().map(|f| f.timestamp).collect();
    assert_eq!(live, seeded);
}

#[test]
fn encoder_arguments_carry_size_rate_and_path() {
    let args = video_encoder_args("/out/a.video.tmp.mp4", 640, 480, 15);
    assert_eq!(
        args.join(" "),
        "-y -loglevel error -f rawvideo -pixel_format rgb24 -video_size 640x480 -framerate 15 \
         -i - -c:v libx264 -pix_fmt yuv420p /out/a.video.tmp.mp4"
    );
}

#[test]
fn encoder_arguments_print_any_number() {
    let args = video_encoder_args("p", u32::MAX, 0, 1_000_000_000);
    assert_eq!(args[8], format!("{}x{}", u32::MAX, 0));
    assert_eq!(args[10], "1000000000");
}

#[test]
fn mux_arguments_pad_the_audio_before_cutting_it() {
    let args = mux_args("v.mp4", "a.pcm", "o.mp4", 48_000, 2);
    assert_eq!(
        args.join(" "),
        "-y -i v.mp4 -f f32le -ar 48000 -ac 2 -i a.pcm -c:v copy -af apad -c:a aac -shortest o.mp4"
    );
}

#[test]
fn failed_processes_are_reported_with_their_words() {
    let exit = ProcessExit {
        success: false,
        status: "exit status: 1".to_string(),
        stderr: "\n broken pipe \n".to_string(),
    };
    assert_eq!(
        check_mux_exit(&exit).unwrap_err(),
        "ffmpeg audio mux exited with exit status: 1: broken pipe"
    );
    assert_eq!(
        check_exit("ffmpeg video encoder", &exit).unwrap_err(),
        "ffmpeg video encoder exited with exit status: 1: broken pipe"
    );
    let fine = ProcessExit { success: true, status: String::new(), stderr: "noise".to_string() };
    assert!(check_mux_exit(&fine).is_ok());
}
