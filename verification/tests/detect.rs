//! Model input and output.

use motioncap::detect::{
    execution_providers, letterbox, load_failure, normalized, ort_err, postprocess, preprocess,
    registration_failure, with_detail, Detection, Provider, LETTERBOX_PAD_VALUE, MODEL_INPUT_SIZE, YOLO_BOX_COORD_CHANNELS, YOLO_OUTPUT_CHANNELS,
};
use motioncap::fitting::fitted_size;
use motioncap::frame::RgbFrame;
use motioncap::single::Single;

const TEST_CONFIDENCE_THRESHOLD: f32 = 0.3;
const ABOVE_THRESHOLD_SCORE: f32 = 0.9;
const BELOW_THRESHOLD_SCORE: f32 = 0.1;
const LOWER_REPEAT_SCORE: f32 = 0.4;
const HIGHER_REPEAT_SCORE: f32 = 0.95;
const WRONG_CLASS_DIM: usize = 85;
const WRONG_SHAPE_TEST_ANCHORS: usize = 10;
const LANDSCAPE_WIDTH: u32 = 640;
const LANDSCAPE_HEIGHT: u32 = 480;
const GREY_FIXTURE_PIXEL: u8 = 200;
const NON_GREY_FIXTURE_PIXEL: [u8; 3] = [10, 20, 30];
const NOT_PAD_VALUE_TOLERANCE: f32 = 0.05;
const ORT_ERR_OK_PAYLOAD: u32 = 42;
const PIXEL_MAX_VALUE: f32 = 255.0;

fn fraction(byte: u8) -> Single {
    single(f32::from(byte) / PIXEL_MAX_VALUE)
}

fn single(value: f32) -> Single {
    Single { bits: value.to_bits() }
}

fn score_of(detection: &Detection) -> f32 {
    f32::from_bits(detection.confidence.bits)
}

fn synthetic_output(num_anchors: usize, scores: &[(usize, usize, f32)]) -> Vec<Single> {
    let mut data = vec![single(0.0); YOLO_OUTPUT_CHANNELS * num_anchors];
    for &(anchor, class_idx, score) in scores {
        let row = YOLO_BOX_COORD_CHANNELS + class_idx;
        data[row * num_anchors + anchor] = single(score);
    }
    data
}

fn solid(width: u32, height: u32, pixel: [u8; 3]) -> RgbFrame {
    let mut data = Vec::new();
    for _ in 0..width * height {
        data.extend_from_slice(&pixel);
    }
    RgbFrame::from_raw(width, height, data).unwrap()
}

fn tensor_at(input: &[Single], channel: usize, y: usize, x: usize) -> f32 {
    f32::from_bits(input[(channel * 640 + y) * 640 + x].bits)
}

fn pad_value() -> f32 {
    f32::from(LETTERBOX_PAD_VALUE) / PIXEL_MAX_VALUE
}

#[test]
fn postprocess_filters_to_living_thing_classes_above_threshold() {
    let num_anchors = 2;
    let data = synthetic_output(
        num_anchors,
        &[(0, 0, ABOVE_THRESHOLD_SCORE), (1, 1, ABOVE_THRESHOLD_SCORE)],
    );
    let shape = [1_i64, YOLO_OUTPUT_CHANNELS as i64, num_anchors as i64];

    let detections = postprocess(&shape, &data, single(TEST_CONFIDENCE_THRESHOLD));

    assert_eq!(detections.len(), 1);
    assert_eq!(detections[0].class_name, "person");
    assert!((score_of(&detections[0]) - ABOVE_THRESHOLD_SCORE).abs() < f32::EPSILON);
}

#[test]
fn postprocess_excludes_scores_below_threshold() {
    let num_anchors = 1;
    let data = synthetic_output(num_anchors, &[(0, 0, BELOW_THRESHOLD_SCORE)]);
    let shape = [1_i64, YOLO_OUTPUT_CHANNELS as i64, num_anchors as i64];

    let detections = postprocess(&shape, &data, single(TEST_CONFIDENCE_THRESHOLD));

    assert!(detections.is_empty());
}

#[test]
fn postprocess_keeps_best_score_per_class_across_anchors() {
    let num_anchors = 2;
    let data = synthetic_output(
        num_anchors,
        &[(0, 0, LOWER_REPEAT_SCORE), (1, 0, HIGHER_REPEAT_SCORE)],
    );
    let shape = [1_i64, YOLO_OUTPUT_CHANNELS as i64, num_anchors as i64];

    let detections = postprocess(&shape, &data, single(TEST_CONFIDENCE_THRESHOLD));

    assert_eq!(detections.len(), 1);
    assert!((score_of(&detections[0]) - HIGHER_REPEAT_SCORE).abs() < f32::EPSILON);
}

#[test]
fn postprocess_keeps_first_best_score_when_later_anchor_scores_lower() {
    let num_anchors = 2;
    let data = synthetic_output(
        num_anchors,
        &[(0, 0, HIGHER_REPEAT_SCORE), (1, 0, LOWER_REPEAT_SCORE)],
    );
    let shape = [1_i64, YOLO_OUTPUT_CHANNELS as i64, num_anchors as i64];

    let detections = postprocess(&shape, &data, single(TEST_CONFIDENCE_THRESHOLD));

    assert_eq!(detections.len(), 1);
    assert!((score_of(&detections[0]) - HIGHER_REPEAT_SCORE).abs() < f32::EPSILON);
}

#[test]
fn postprocess_returns_empty_on_wrong_class_dim() {
    let shape = [1_i64, WRONG_CLASS_DIM as i64, WRONG_SHAPE_TEST_ANCHORS as i64];
    let data = vec![single(0.0); WRONG_CLASS_DIM * WRONG_SHAPE_TEST_ANCHORS];

    assert!(postprocess(&shape, &data, single(TEST_CONFIDENCE_THRESHOLD)).is_empty());
}

#[test]
fn postprocess_returns_empty_on_wrong_rank() {
    let shape = [YOLO_OUTPUT_CHANNELS as i64, WRONG_SHAPE_TEST_ANCHORS as i64];
    let data = vec![single(0.0); YOLO_OUTPUT_CHANNELS * WRONG_SHAPE_TEST_ANCHORS];

    assert!(postprocess(&shape, &data, single(TEST_CONFIDENCE_THRESHOLD)).is_empty());
}

#[test]
fn postprocess_lists_living_things_in_their_order() {
    let num_anchors = 3;
    let data = synthetic_output(
        num_anchors,
        &[(2, 23, 0.5), (1, 16, 0.6), (0, 0, 0.7), (0, 24, 0.9), (1, 13, 0.9)],
    );
    let shape = [1_i64, 84, 3];
    let detections = postprocess(&shape, &data, single(0.5));
    let names: Vec<&str> = detections.iter().map(|d| d.class_name).collect();
    assert_eq!(names, vec!["person", "dog", "giraffe"]);
    assert_eq!(detections[2].confidence, single(0.5));
}

#[test]
fn postprocess_compares_as_single_precision_does() {
    // A not-a-number is not below the threshold and is kept if it comes first.
    let shape = [1_i64, 84, 2];
    let first = synthetic_output(2, &[(0, 15, f32::NAN), (1, 15, 0.9)]);
    let found = postprocess(&shape, &first, single(0.3));
    assert!(score_of(&found[0]).is_nan());
    let second = synthetic_output(2, &[(0, 15, 0.9), (1, 15, f32::NAN)]);
    let found = postprocess(&shape, &second, single(0.3));
    assert_eq!(found[0].confidence, single(0.9));
    // Zero is not below a negative zero, so every class is found.
    let none = synthetic_output(2, &[]);
    assert_eq!(postprocess(&shape, &none, single(-0.0)).len(), 11);
    assert_eq!(postprocess(&shape, &none, single(0.1)).len(), 0);
}

#[test]
fn preprocess_pads_vertically_for_landscape_input() {
    let frame = solid(LANDSCAPE_WIDTH, LANDSCAPE_HEIGHT, [GREY_FIXTURE_PIXEL; 3]);
    let tensor = preprocess(&frame);

    assert!((tensor_at(&tensor, 0, 0, 0) - pad_value()).abs() < f32::EPSILON);
    assert_eq!(tensor.len(), 3 * 640 * 640);
    assert_eq!(tensor[79 * 640], fraction(LETTERBOX_PAD_VALUE));
    assert_eq!(tensor[80 * 640], fraction(GREY_FIXTURE_PIXEL));
    assert_eq!(tensor[559 * 640], fraction(GREY_FIXTURE_PIXEL));
    assert_eq!(tensor[560 * 640], fraction(LETTERBOX_PAD_VALUE));
}

#[test]
fn preprocess_pads_horizontally_for_portrait_input() {
    let frame = solid(LANDSCAPE_HEIGHT, LANDSCAPE_WIDTH, [GREY_FIXTURE_PIXEL; 3]);
    let tensor = preprocess(&frame);

    assert!((tensor_at(&tensor, 0, 0, 0) - pad_value()).abs() < f32::EPSILON);
    assert_eq!(tensor[79], fraction(LETTERBOX_PAD_VALUE));
    assert_eq!(tensor[80], fraction(GREY_FIXTURE_PIXEL));
}

#[test]
fn preprocess_adds_no_padding_for_square_input() {
    let frame = solid(MODEL_INPUT_SIZE, MODEL_INPUT_SIZE, NON_GREY_FIXTURE_PIXEL);
    let tensor = preprocess(&frame);

    assert!((tensor_at(&tensor, 0, 0, 0) - pad_value()).abs() > NOT_PAD_VALUE_TOLERANCE);
    assert_eq!(tensor[0], fraction(10));
    assert_eq!(tensor[409_600], fraction(20));
    assert_eq!(tensor[819_200], fraction(30));
}

#[test]
fn preprocess_enlarges_a_small_picture() {
    // The resizing blends across the edge, so it did run.
    let mut data = vec![0u8; 12];
    data[0] = 255;
    let frame = RgbFrame::from_raw(2, 2, data).unwrap();
    let tensor = preprocess(&frame);
    assert_eq!(tensor[0], fraction(255));
    assert_eq!(tensor[639], fraction(0));
    let middle = tensor[320 * 640 + 320];
    assert!(fraction(0).less_than(middle) && middle.less_than(fraction(255)));
}

#[test]
fn preprocess_leaves_an_empty_picture_to_the_padding() {
    let frame = RgbFrame::from_raw(0, 0, vec![]).unwrap();
    let tensor = preprocess(&frame);
    assert!(tensor.iter().all(|&value| value == fraction(LETTERBOX_PAD_VALUE)));
}

#[test]
fn preprocess_takes_pictures_that_shrink_to_nothing() {
    for (width, height) in [(1u32, 2000u32), (2000, 1), (0, 5), (5, 0)] {
        let len = usize::try_from(width * height * 3).unwrap();
        let frame = RgbFrame::from_raw(width, height, vec![7; len]).unwrap();
        let tensor = preprocess(&frame);
        assert!(tensor.iter().all(|&value| value == fraction(LETTERBOX_PAD_VALUE)), "{width}x{height}");
    }
}

#[test]
fn normalized_divides_as_single_precision_does() {
    let bytes: Vec<u8> = (0..=255).collect();
    let values = normalized(&bytes);
    let expected: Vec<Single> = bytes.iter().map(|&byte| fraction(byte)).collect();
    assert_eq!(values, expected);
    assert_eq!(values[0], single(0.0));
    assert_eq!(values[51], single(0.2));
    assert_eq!(values[255], single(1.0));
    assert!(values.iter().all(|value| value.bits <= 0x3f80_0000));
    assert!(values.windows(2).all(|pair| pair[0].less_than(pair[1])));
    assert_eq!(normalized(&[]), vec![]);
}

#[test]
fn letterbox_centres_the_picture_and_splits_the_colours() {
    let picture = vec![1, 2, 3, 4, 5, 6];
    let canvas = letterbox(&picture, 1, 2);
    let at = |channel: usize, y: usize, x: usize| canvas[(channel * 640 + y) * 640 + x];
    assert_eq!(at(0, 319, 319), 1);
    assert_eq!(at(1, 319, 319), 2);
    assert_eq!(at(2, 319, 319), 3);
    assert_eq!(at(0, 320, 319), 4);
    assert_eq!(at(2, 320, 319), 6);
    assert_eq!(canvas.iter().filter(|&&b| b != LETTERBOX_PAD_VALUE).count(), 6);
}

fn single_precision_size(width: u32, height: u32) -> (u32, u32) {
    let scale = (640.0f32 / width as f32).min(640.0f32 / height as f32);
    ((width as f32 * scale).round() as u32, (height as f32 * scale).round() as u32)
}

#[test]
fn fitted_size_is_the_single_precision_one() {
    for width in 0..400u32 {
        for height in 0..400u32 {
            assert_eq!(fitted_size(width, height), single_precision_size(width, height));
        }
    }
    let mut seed: u64 = 88_172_645_463_325_252;
    for i in 0..200_000u32 {
        seed ^= seed << 13;
        seed ^= seed >> 7;
        seed ^= seed << 17;
        let shift = i % 24;
        let width = ((seed >> 32) as u32) >> shift;
        let height = (seed as u32) >> (shift / 2);
        assert_eq!(
            fitted_size(width, height),
            single_precision_size(width, height),
            "{width}x{height}"
        );
    }
}

#[test]
fn fitted_size_of_common_cameras() {
    assert_eq!(fitted_size(640, 480), (640, 480));
    assert_eq!(fitted_size(1920, 1080), (640, 360));
    assert_eq!(fitted_size(320, 240), (640, 480));
    assert_eq!(fitted_size(1080, 1920), (360, 640));
    assert_eq!(fitted_size(u32::MAX, u32::MAX), (640, 640));
}

#[test]
fn ort_err_passes_through_ok() {
    let result: Result<u32, &str> = Ok(ORT_ERR_OK_PAYLOAD);
    assert_eq!(ort_err(result, "unused").unwrap(), ORT_ERR_OK_PAYLOAD);
}

#[test]
fn ort_err_wraps_error_with_message() {
    let result: Result<u32, &str> = Err("boom");
    let err = ort_err(result, "context message").unwrap_err();
    let text = format!("{err}");
    assert!(text.contains("context message"));
    assert!(text.contains("boom"));
}

#[test]
fn ort_err_gives_the_debug_text_behind_a_colon() {
    let result: Result<u32, &str> = Err("boom");
    assert_eq!(ort_err(result, "context").unwrap_err(), "context: \"boom\"");
    assert_eq!(with_detail("a", "b"), "a: b");
}

#[test]
fn singles_compare_as_numbers_do() {
    let values = [
        f32::NEG_INFINITY,
        f32::MIN,
        -1.0,
        -f32::MIN_POSITIVE,
        -1e-45,
        -0.0,
        0.0,
        1e-45,
        f32::MIN_POSITIVE,
        0.3,
        1.0,
        f32::MAX,
        f32::INFINITY,
        f32::NAN,
        -f32::NAN,
    ];
    for a in values {
        assert_eq!(single(a).is_nan(), a.is_nan());
        for b in values {
            assert_eq!(single(a).less_than(single(b)), a < b, "{a} {b}");
        }
    }
}

#[test]
fn execution_providers_prefer_accelerators_and_end_with_the_cpu() {
    assert_eq!(
        execution_providers(false),
        vec![Provider::Cuda, Provider::Rocm, Provider::OpenVino, Provider::Cpu]
    );
    assert_eq!(execution_providers(true), vec![Provider::Cpu]);
    assert_eq!(registration_failure(true), "failed to register CPU execution provider");
    assert_eq!(registration_failure(false), "failed to register execution providers");
    assert_eq!(load_failure("a/b.onnx"), "failed to load model from a/b.onnx");
}
