//! Audio samples and camera selection.

use motioncap::capture::audio::{sample_format_supported, samples_to_f32, SampleFormat};
use motioncap::capture::camera::{auto_detect_step, resolve_pinned_camera_index, SearchStep};

const NORMALIZED_SAMPLE_TOLERANCE: f32 = 0.001;
const U16_MIDPOINT_DIVISOR: u16 = 2;

fn floats(samples: &[motioncap::single::Single]) -> Vec<f32> {
    samples.iter().map(|s| f32::from_bits(s.bits)).collect()
}

#[test]
fn samples_to_f32_converts_i16_to_normalized_f32() {
    let converted = floats(&samples_to_f32::<i16>(&[i16::MIN, 0, i16::MAX]));

    assert_eq!(converted.len(), 3);
    assert!((converted[0] - -1.0).abs() < f32::EPSILON);
    assert!((converted[1] - 0.0).abs() < f32::EPSILON);
    assert!((converted[2] - 1.0).abs() < NORMALIZED_SAMPLE_TOLERANCE);
}

#[test]
fn samples_to_f32_converts_u16_to_normalized_f32() {
    let converted =
        floats(&samples_to_f32::<u16>(&[u16::MIN, u16::MAX / U16_MIDPOINT_DIVISOR, u16::MAX]));

    assert_eq!(converted.len(), 3);
    assert!((converted[0] - -1.0).abs() < NORMALIZED_SAMPLE_TOLERANCE);
    assert!((converted[2] - 1.0).abs() < NORMALIZED_SAMPLE_TOLERANCE);
}

#[test]
fn samples_to_f32_empty_input_yields_empty_output() {
    let converted = samples_to_f32::<i16>(&[]);
    assert!(converted.is_empty());
}

#[test]
fn every_sample_is_its_exact_fraction_of_full_scale() {
    let signed: Vec<i16> = (i16::MIN..=i16::MAX).collect();
    let converted = samples_to_f32(&signed);
    for (sample, single) in signed.iter().zip(&converted) {
        assert_eq!(single.bits, (f32::from(*sample) / 32_768.0).to_bits());
    }
    let unsigned: Vec<u16> = (u16::MIN..=u16::MAX).collect();
    let shifted = samples_to_f32(&unsigned);
    for (a, b) in converted.iter().zip(&shifted) {
        assert_eq!(a.bits, b.bits);
    }
}

#[test]
fn sample_format_supported_true_for_f32_i16_u16() {
    assert!(sample_format_supported(SampleFormat::F32));
    assert!(sample_format_supported(SampleFormat::I16));
    assert!(sample_format_supported(SampleFormat::U16));
}

#[test]
fn sample_format_supported_false_for_other_formats() {
    assert!(!sample_format_supported(SampleFormat::I8));
    assert!(!sample_format_supported(SampleFormat::U8));
    assert!(!sample_format_supported(SampleFormat::F64));
    assert!(!sample_format_supported(SampleFormat::Other));
}

#[test]
fn resolves_dev_video_path_to_matching_index() {
    let index = resolve_pinned_camera_index(Some("/dev/video0")).unwrap();
    assert_eq!(index, Some(0));
}

#[test]
fn resolves_dev_video_path_with_multi_digit_index() {
    let index = resolve_pinned_camera_index(Some("/dev/video12")).unwrap();
    assert_eq!(index, Some(12));
}

#[test]
fn rejects_non_numeric_suffix() {
    let result = resolve_pinned_camera_index(Some("/dev/videoX"));
    assert!(result.is_err());
}

#[test]
fn rejects_path_not_matching_dev_video_pattern() {
    let result = resolve_pinned_camera_index(Some("/dev/webcam0"));
    assert!(result.is_err());
}

#[test]
fn returns_none_when_no_device_pinned() {
    let index = resolve_pinned_camera_index(None).unwrap();
    assert_eq!(index, None);
}

#[test]
fn only_dev_video_paths_name_a_camera() {
    let accepted = [
        ("/dev/video007", 7),
        ("/dev/video4294967295", u32::MAX),
    ];
    for (name, index) in accepted {
        assert_eq!(resolve_pinned_camera_index(Some(name)), Ok(Some(index)), "{name}");
    }
    let refused = [
        "",
        "3",
        "+3",
        "-3",
        "+",
        "/dev/video",
        "/dev/video+3",
        "/dev/video-3",
        "/dev/video/dev/video4",
        "/dev/video4294967296",
        "/dev/video99999999999999999999",
        "/dev/video1 ",
        " /dev/video1",
        "/dev/video1x",
        "/dev/vide1",
        "é1",
        "/dev/video٣",
    ];
    for name in refused {
        let text = format!("expected a /dev/videoN path, got {name}");
        assert_eq!(resolve_pinned_camera_index(Some(name)), Err(text));
    }
}

#[test]
fn first_camera_that_opens_is_selected() {
    let opens = [false, false, true, true];
    let mut tried = None;
    let selected = loop {
        match auto_detect_step(opens.len(), tried) {
            SearchStep::Open(place) => tried = Some((place, opens[place])),
            SearchStep::Use(place) => break Some(place),
            SearchStep::NoneUsable => break None,
        }
    };
    assert_eq!(selected, Some(2));
}

#[test]
fn no_camera_is_selected_when_none_opens() {
    assert_eq!(auto_detect_step(0, None), SearchStep::NoneUsable);
    assert_eq!(auto_detect_step(2, None), SearchStep::Open(0));
    assert_eq!(auto_detect_step(2, Some((0, false))), SearchStep::Open(1));
    assert_eq!(auto_detect_step(2, Some((1, false))), SearchStep::NoneUsable);
}
