//! Configuration, startup checks, logging, preview and pixel order.

use motioncap::config::{Config, DEFAULT_POST_BUFFER_SECS, DEFAULT_PRE_BUFFER_SECS};
use motioncap::detection_loop::{PREVIEW_FRAME_RATE, PREVIEW_POLL_INTERVAL};
use motioncap::frame::RgbFrame;
use motioncap::logging::{both, LOG_FILE_NAME};
use motioncap::opencv_utils::{bgr_vec_to_mat, rgb_image_to_bgr_mat};
use motioncap::preview::PreviewWindow;
use motioncap::startup::{check_dependencies, check_ffmpeg, check_ffmpeg_probe, check_model_file};

fn with_model(path: &str) -> Config {
    Config { model_path: path.to_string(), ..Config::default() }
}

#[test]
fn defaults_match_documented_values() {
    let config = Config::default();

    assert_eq!(config.output_dir, "./recordings");
    assert_eq!(config.model_path, "./models/yolov8n.onnx");
    assert_eq!(config.camera_device, None);
    assert!(!config.force_cpu);
    assert_eq!(config.pre_buffer_secs, DEFAULT_PRE_BUFFER_SECS);
    assert_eq!(config.post_buffer_secs, DEFAULT_POST_BUFFER_SECS);
    assert!((f32::from_bits(config.detection_confidence.bits) - 0.3).abs() < f32::EPSILON);
    assert!((f32::from_bits(config.motion_threshold.bits) - 0.01).abs() < f32::EPSILON);
    assert!(!config.preview);
    assert_eq!(config.detection_confidence.bits, 0.3f32.to_bits());
    assert_eq!(config.motion_threshold.bits, 0.01f32.to_bits());
    assert_eq!((DEFAULT_PRE_BUFFER_SECS, DEFAULT_POST_BUFFER_SECS), (10, 15));
}

#[test]
fn model_path_accessor_returns_configured_path() {
    let config = with_model("/x/y.onnx");
    assert_eq!(config.model_path(), "/x/y.onnx");
}

#[test]
fn check_ffmpeg_succeeds_when_present_on_path() {
    assert!(check_ffmpeg(true).is_ok());
}

#[test]
fn check_ffmpeg_probe_errors_with_helpful_message_when_not_found() {
    let message = check_ffmpeg_probe(false).unwrap_err();
    assert!(message.contains("ffmpeg was not found on this system"));
    assert!(message.contains("sudo apt install ffmpeg"));
    assert_eq!(message.lines().count(), 7);
    assert_eq!(message.lines().nth(5), Some("  macOS:          brew install ffmpeg"));
    assert_eq!(check_ffmpeg(false).unwrap_err(), message);
}

#[test]
fn check_model_file_ok_when_file_exists() {
    assert!(check_model_file("/models/model.onnx", true).is_ok());
}

#[test]
fn check_model_file_errors_with_helpful_message_when_missing() {
    let message = check_model_file("/nonexistent/path/model.onnx", false).unwrap_err();
    assert!(message.contains("ONNX model file not found"));
    assert!(message.contains("/nonexistent/path/model.onnx"));
    assert_eq!(
        message,
        "ONNX model file not found at /nonexistent/path/model.onnx.\n\
         Pass --model-path pointing to a YOLO model exported to ONNX format\n\
         (e.g. YOLOv8n, exported once via the `ultralytics` Python package)."
    );
}

#[test]
fn check_dependencies_errors_when_model_file_is_missing() {
    let config = with_model("/nonexistent/path/model.onnx");

    let err = check_dependencies(&config, true, false).unwrap_err();
    assert!(err.contains("ONNX model file not found"));
}

#[test]
fn check_dependencies_ok_when_ffmpeg_and_model_present() {
    let config = with_model("/models/model.onnx");

    assert!(check_dependencies(&config, true, true).is_ok());
}

#[test]
fn check_dependencies_reports_ffmpeg_first() {
    let config = with_model("/nonexistent/path/model.onnx");
    let err = check_dependencies(&config, false, false).unwrap_err();
    assert!(err.starts_with("ffmpeg was not found"));
}

#[test]
fn both_returns_ok_when_both_succeed() {
    assert!(both::<std::io::Error>(Ok(()), Ok(())).is_ok());
}

#[test]
fn both_returns_first_error_when_first_fails() {
    let err = both(
        Err(std::io::Error::other("first")),
        Err(std::io::Error::other("second")),
    )
    .unwrap_err();
    assert_eq!(err.to_string(), "first");
}

#[test]
fn both_returns_second_error_when_only_second_fails() {
    let err = both(Ok(()), Err(std::io::Error::other("second"))).unwrap_err();
    assert_eq!(err.to_string(), "second");
}

#[test]
fn both_attempts_second_even_when_first_fails() {
    let mut attempted = false;
    let second_result: std::io::Result<()> = {
        attempted = !attempted;
        Ok(())
    };

    let _ = both(Err(std::io::Error::other("first")), second_result);
    assert!(attempted);
}

#[test]
fn log_file_has_its_name() {
    assert_eq!(LOG_FILE_NAME, "motioncap.log");
}

#[test]
fn preview_is_sized_once_to_twice_the_picture() {
    assert_eq!(PREVIEW_POLL_INTERVAL, u128::from(1000 / PREVIEW_FRAME_RATE) * 1_000_000);
    let mut window = PreviewWindow::open();
    assert_eq!(window.pending_size(320, 240), Some((640, 480)));
    assert_eq!(window.pending_size(i32::MAX, i32::MIN), Some((i32::MAX, i32::MIN)));
    window.mark_resized();
    assert_eq!(window.pending_size(320, 240), None);
}

#[test]
fn converts_rgb_pixels_to_bgr_channel_order() {
    let data = vec![10, 20, 30, 40, 50, 60, 70, 80, 90, 100, 110, 120];
    let image = RgbFrame::from_raw(2, 2, data).unwrap();

    let mat = rgb_image_to_bgr_mat(&image).ok().unwrap();

    assert_eq!(mat.pixels[0], [30, 20, 10]);
    assert_eq!(mat.pixels[1], [60, 50, 40]);
    assert_eq!(mat.pixels[2], [90, 80, 70]);
    assert_eq!(mat.pixels[3], [120, 110, 100]);
}

#[test]
fn produces_mat_with_matching_dimensions() {
    let image = RgbFrame::from_raw(5, 3, vec![0; 45]).unwrap();
    let mat = rgb_image_to_bgr_mat(&image).ok().unwrap();

    assert_eq!(mat.rows, 3);
    assert_eq!(mat.cols, 5);
    assert_eq!(mat.pixels.len(), 15);
}

#[test]
fn bgr_vec_to_mat_errors_when_buffer_length_does_not_match_dimensions() {
    let bgr = vec![[0u8; 3]; 4];

    let err = bgr_vec_to_mat(5, 3, bgr).err().unwrap();

    assert!(err.contains("failed to build Mat from frame"));
}
