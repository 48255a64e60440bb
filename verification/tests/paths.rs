//! Names and places of clips and sidecars.

use motioncap::paths::{
    clip_path, day_dir, day_dir_failure, sidecar_path, with_extension, LocalTime,
};
use motioncap::text::{comes_before, trim};

fn fixed_time() -> LocalTime {
    LocalTime { year: 2026, month: 3, day: 5, hour: 13, minute: 45, second: 30 }
}

#[test]
fn clip_path_has_expected_folder_and_filename_format() {
    let path = clip_path("/recordings", &fixed_time(), &["person"]);

    assert_eq!(path, "/recordings/2026-03-05/2026-03-05_13-45-30_person.mp4");
    assert_eq!(day_dir("/recordings", &fixed_time()), "/recordings/2026-03-05");
}

#[test]
fn clip_path_dedups_and_sorts_classes_regardless_of_input_order() {
    let path = clip_path("/recordings", &fixed_time(), &["dog", "person", "dog", "cat"]);

    let filename = path.rsplit('/').next().unwrap();
    assert_eq!(filename, "2026-03-05_13-45-30_cat_dog_person.mp4");
}

#[test]
fn clip_path_without_classes_is_the_time_alone() {
    let path = clip_path("out", &fixed_time(), &[]);
    assert_eq!(path, "out/2026-03-05/2026-03-05_13-45-30.mp4");
}

#[test]
fn paths_join_as_the_platform_joins_them() {
    for base in ["", "/", "out", "out/", "./recordings", "/a/b", "a//"] {
        let expected = std::path::Path::new(base).join("2026-03-05");
        assert_eq!(std::path::Path::new(&day_dir(base, &fixed_time())), expected);
        assert_eq!(day_dir(base, &fixed_time()), expected.to_str().unwrap());
    }
}

#[test]
fn day_dir_failure_names_the_directory() {
    let message = day_dir_failure("/blocked/2026-03-05");
    assert_eq!(message, "failed to create output directory /blocked/2026-03-05");
}

#[test]
fn sidecar_path_swaps_extension_only() {
    let clip = "/recordings/2026-03-05/2026-03-05_13-45-30_person.mp4";
    let sidecar = sidecar_path(clip);

    assert_eq!(sidecar, "/recordings/2026-03-05/2026-03-05_13-45-30_person.json");
}

#[test]
fn with_extension_does_what_the_platform_does() {
    let paths = [
        "",
        ".",
        "./",
        "..",
        "../",
        "/",
        "//",
        "/.",
        "/..",
        "a/..",
        "foo",
        "foo.mp4",
        "foo.tar.gz",
        "foo.",
        "foo..",
        ".bashrc",
        ".bash.rc",
        "dir.d/foo",
        "dir.d/foo.mp4",
        "dir/.hidden",
        "foo.mp4/",
        "foo.mp4//",
        "foo.mp4/.",
        "foo.mp4/./",
        "./foo.mp4",
        "a/./b.mp4",
        "/x.y/z",
        "...mp4",
        "ünïcode.mp4",
        "dir/ünï.cöde/näme",
        "a b.c d",
    ];
    for path in paths {
        for extension in ["json", "video.tmp.mp4"] {
            let expected = std::path::Path::new(path).with_extension(extension);
            assert_eq!(with_extension(path, extension), expected.to_str().unwrap(), "{path}");
        }
    }
}

#[test]
fn sidecar_of_a_clip_is_beside_it() {
    let clip = clip_path("/out", &fixed_time(), &["cat", "bird"]);
    assert_eq!(sidecar_path(&clip), "/out/2026-03-05/2026-03-05_13-45-30_bird_cat.json");
}

#[test]
fn names_sort_by_time_whatever_the_classes() {
    let times = [
        LocalTime { year: 999, month: 12, day: 31, hour: 23, minute: 59, second: 59 },
        LocalTime { year: 2025, month: 12, day: 31, hour: 23, minute: 59, second: 59 },
        LocalTime { year: 2026, month: 1, day: 1, hour: 0, minute: 0, second: 0 },
        LocalTime { year: 2026, month: 1, day: 1, hour: 0, minute: 0, second: 9 },
        LocalTime { year: 2026, month: 1, day: 1, hour: 0, minute: 1, second: 0 },
        LocalTime { year: 2026, month: 1, day: 1, hour: 10, minute: 0, second: 0 },
        LocalTime { year: 2026, month: 1, day: 2, hour: 0, minute: 0, second: 0 },
        LocalTime { year: 2026, month: 2, day: 1, hour: 0, minute: 0, second: 0 },
        LocalTime { year: 9999, month: 1, day: 1, hour: 0, minute: 0, second: 0 },
    ];
    let name = |t: &LocalTime, classes: &[&str]| {
        clip_path("", t, classes).rsplit('/').next().unwrap().to_string()
    };
    for pair in times.windows(2) {
        let earlier = name(&pair[0], &["zebra"]);
        let later = name(&pair[1], &["bear"]);
        assert!(earlier < later);
        assert!(comes_before(&earlier, &later));
    }
}

#[test]
fn years_beyond_four_digits_carry_a_sign() {
    let at = |year: i32| LocalTime { year, ..fixed_time() };
    assert_eq!(day_dir("", &at(0)), "0000-03-05");
    assert_eq!(day_dir("", &at(7)), "0007-03-05");
    assert_eq!(day_dir("", &at(10_000)), "+10000-03-05");
    assert_eq!(day_dir("", &at(262_142)), "+262142-03-05");
    assert_eq!(day_dir("", &at(-1)), "-0001-03-05");
    assert_eq!(day_dir("", &at(-12_345)), "-12345-03-05");
    assert_eq!(day_dir("", &at(-262_143)), "-262143-03-05");
}

#[test]
fn times_have_to_be_on_the_calendar() {
    let day = |year, month, day| LocalTime::new(year, month, day, 0, 0, 0).is_some();
    assert!(day(2024, 2, 29));
    assert!(!day(2023, 2, 29));
    assert!(day(2000, 2, 29));
    assert!(!day(1900, 2, 29));
    assert!(day(-4, 2, 29));
    assert!(!day(-100, 2, 29));
    assert!(day(2026, 4, 30) && !day(2026, 4, 31));
    assert!(day(2026, 12, 31) && !day(2026, 13, 1));
    assert!(!day(2026, 0, 1) && !day(2026, 1, 0));
    assert!(day(262_142, 12, 31) && !day(262_143, 1, 1));
    assert!(day(-262_143, 1, 1) && !day(-262_144, 12, 31));
    assert!(LocalTime::new(2026, 3, 5, 23, 59, 59).is_some());
    assert!(LocalTime::new(2026, 3, 5, 24, 0, 0).is_none());
    assert!(LocalTime::new(2026, 3, 5, 0, 60, 0).is_none());
    assert!(LocalTime::new(2026, 3, 5, 0, 0, 60).is_none());
    for year in [-262_143, -401, -4, 0, 1, 1900, 2000, 2023, 2024, 262_142] {
        for month in 0..14 {
            for date in 0..33 {
                let known = chrono::NaiveDate::from_ymd_opt(year, month, date).is_some();
                assert_eq!(day(year, month, date), known, "{year}-{month}-{date}");
            }
        }
    }
}

#[test]
fn every_field_is_padded() {
    let t = LocalTime { year: 2024, month: 2, day: 29, hour: 4, minute: 5, second: 6 };
    assert_eq!(clip_path("o", &t, &["cow"]), "o/2024-02-29/2024-02-29_04-05-06_cow.mp4");
}

#[test]
fn texts_compare_as_strings_do() {
    let texts = ["", "a", "ab", "b", "Z", "é", "person", "persons", "\u{10ffff}"];
    for a in texts {
        for b in texts {
            assert_eq!(comes_before(a, b), a < b);
        }
    }
}

#[test]
fn trim_does_what_the_platform_does() {
    let texts = [
        "",
        " ",
        "\n\t x y \r\n",
        "\u{85}\u{a0}a\u{1680}",
        "\u{2000}\u{200a}\u{2028}\u{2029}\u{202f}\u{205f}\u{3000}z",
        "\u{200b}kept\u{200b}",
        "no space",
        "\u{b}\u{c}v",
    ];
    for text in texts {
        assert_eq!(trim(text), text.trim());
    }
    for code in 0..0x11_0000u32 {
        if let Some(c) = char::from_u32(code) {
            if c.is_whitespace() {
                let text = format!("{c}");
                assert_eq!(trim(&text), "");
            }
        }
    }
}
