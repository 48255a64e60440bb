//! Names and places of clips and sidecars, as slash-separated text.

use vstd::prelude::*;
use vstd::string::*;

use crate::text::{same_text, sort_unique};

verus! {

/// The first year the calendar goes back to.
pub const MIN_YEAR: i32 = -262_143;

/// The last year the calendar goes up to.
pub const MAX_YEAR: i32 = 262_142;

/// A wall-clock date and time in the local time zone, to the second.
#[derive(Clone, Copy, Debug, PartialEq, Eq, Structural)]
pub struct LocalTime {
    /// Year of the Gregorian calendar; the year before 1 is 0.
    pub year: i32,
    /// Month, January being 1.
    pub month: u32,
    /// Day of the month, from 1.
    pub day: u32,
    /// Hour of the day, below 24.
    pub hour: u32,
    /// Minute of the hour, below 60.
    pub minute: u32,
    /// Second of the minute, below 60.
    pub second: u32,
}

/// Whether a year has a twenty-ninth of February.
pub open spec fn leap_year(year: int) -> bool {
    year % 4 == 0 && (year % 100 != 0 || year % 400 == 0)
}

/// Number of days of a month.
pub open spec fn days_in_month(year: int, month: int) -> int {
    if month == 2 {
        if leap_year(year) {
            29
        } else {
            28
        }
    } else if month == 4 || month == 6 || month == 9 || month == 11 {
        30
    } else {
        31
    }
}

impl LocalTime {
    /// Whether this is a date of the calendar and a time of day.
    pub open spec fn valid(&self) -> bool {
        &&& MIN_YEAR <= self.year <= MAX_YEAR
        &&& 1 <= self.month <= 12
        &&& 1 <= self.day <= days_in_month(self.year as int, self.month as int)
        &&& self.hour < 24
        &&& self.minute < 60
        &&& self.second < 60
    }

    /// A time from its fields, if they make a date of the calendar and a time
    /// of day.
    pub fn new(
        year: i32,
        month: u32,
        day: u32,
        hour: u32,
        minute: u32,
        second: u32,
    ) -> (r: Option<LocalTime>)
        ensures
            ({
                let t = LocalTime { year, month, day, hour, minute, second };
                r == if t.valid() {
                    Some(t)
                } else {
                    None
                }
            }),
    {
        let leap: bool = year % 4 == 0 && (year % 100 != 0 || year % 400 == 0);
        let days: u32 = if month == 2 {
            if leap {
                29
            } else {
                28
            }
        } else if month == 4 || month == 6 || month == 9 || month == 11 {
            30
        } else {
            31
        };
        let in_calendar: bool = MIN_YEAR <= year && year <= MAX_YEAR && 1 <= month && month <= 12
            && 1 <= day && day <= days;
        if in_calendar && hour < 24 && minute < 60 && second < 60 {
            Some(LocalTime { year, month, day, hour, minute, second })
        } else {
            None
        }
    }

    /// Whether `self` is an earlier time than `other`.
    pub open spec fn earlier(&self, other: &LocalTime) -> bool {
        if self.year != other.year {
            self.year < other.year
        } else if self.month != other.month {
            self.month < other.month
        } else if self.day != other.day {
            self.day < other.day
        } else if self.hour != other.hour {
            self.hour < other.hour
        } else if self.minute != other.minute {
            self.minute < other.minute
        } else {
            self.second < other.second
        }
    }
}

/// A year in four digits; one outside of 0 to 9999 with a sign, and with as
/// many digits as it takes.
pub open spec fn year_text(year: int) -> Seq<char> {
    if 0 <= year <= 9999 {
        crate::text::zero_padded(year as nat, 4)
    } else {
        let (sign, size) = if year < 0 {
            ('-', -year)
        } else {
            ('+', year)
        };
        seq![sign] + if size <= 9999 {
            crate::text::zero_padded(size as nat, 4)
        } else {
            crate::text::decimal(size as nat)
        }
    }
}

/// A number below one hundred in two digits.
pub open spec fn two_digits(n: u32) -> Seq<char> {
    crate::text::zero_padded(n as nat, 2)
}

/// The date as year, month and day, with dashes between.
pub open spec fn date_text(t: LocalTime) -> Seq<char> {
    year_text(t.year as int) + "-"@ + two_digits(t.month) + "-"@ + two_digits(t.day)
}

/// The date and the time of day, with an underscore between and dashes within.
pub open spec fn timestamp_text(t: LocalTime) -> Seq<char> {
    date_text(t) + "_"@ + two_digits(t.hour) + "-"@ + two_digits(t.minute) + "-"@ + two_digits(
        t.second,
    )
}

/// Formats a time with `chrono::NaiveDateTime::format`. Claims that of a date
/// of the calendar the pattern `%Y-%m-%d` gives the date in digits, and the
/// pattern `%Y-%m-%d_%H-%M-%S` the date and the time of day.
#[verifier::external_body]
fn format_local(t: &LocalTime, pattern: &str) -> (r: String)
    requires
        t.valid(),
        pattern@ == "%Y-%m-%d"@ || pattern@ == "%Y-%m-%d_%H-%M-%S"@,
    ensures
        pattern@ == "%Y-%m-%d"@ ==> r@ == date_text(*t),
        pattern@ == "%Y-%m-%d_%H-%M-%S"@ ==> r@ == timestamp_text(*t),
{
    let date = chrono::NaiveDate::from_ymd_opt(t.year, t.month, t.day).expect("date is valid");
    let time = date.and_hms_opt(t.hour, t.minute, t.second).expect("time is valid");
    time.format(pattern).to_string()
}

/// A relative path put below a base: behind a slash, unless the base is empty
/// or ends in one.
pub open spec fn joined(base: Seq<char>, child: Seq<char>) -> Seq<char> {
    if base.len() == 0 || base.last() == '/' {
        base + child
    } else {
        base + "/"@ + child
    }
}

/// The text with which a clip's name goes on after the time: each class behind
/// an underscore.
pub open spec fn class_suffix(classes: Seq<Seq<char>>) -> Seq<char>
    decreases classes.len(),
{
    if classes.len() == 0 {
        seq![]
    } else {
        class_suffix(classes.drop_last()) + "_"@ + classes.last()
    }
}

/// A clip's file name without its extension: the time it started and the
/// classes in it, each once, in alphabetical order.
pub open spec fn clip_stem(started_at: LocalTime, classes: Seq<Seq<char>>) -> Seq<char> {
    timestamp_text(started_at) + class_suffix(crate::text::sorted_unique(classes))
}

/// A clip's file name.
pub open spec fn clip_name(started_at: LocalTime, classes: Seq<Seq<char>>) -> Seq<char> {
    clip_stem(started_at, classes) + ".mp4"@
}

/// The folder that a day's clips go into.
pub open spec fn day_folder(output_dir: Seq<char>, started_at: LocalTime) -> Seq<char> {
    joined(output_dir, date_text(started_at))
}

/// Where a clip goes.
pub open spec fn clip_location(
    output_dir: Seq<char>,
    started_at: LocalTime,
    classes: Seq<Seq<char>>,
) -> Seq<char> {
    joined(day_folder(output_dir, started_at), clip_name(started_at, classes))
}

/// Puts a relative path below a base.
fn join(base: &str, child: &str) -> (r: String)
    ensures
        r@ == joined(base@, child@),
{
    let mut path: String = base.to_owned();
    let len: usize = base.unicode_len();
    if len > 0 && base.get_char(len - 1) != '/' {
        path.append("/");
    }
    path.append(child);
    path
}

/// The day's folder `<output_dir>/<YYYY-MM-DD>` of a clip that started at
/// `started_at`, which has to exist before the clip is written.
pub fn day_dir(output_dir: &str, started_at: &LocalTime) -> (r: String)
    requires
        started_at.valid(),
    ensures
        r@ == day_folder(output_dir@, *started_at),
{
    let date: String = format_local(started_at, "%Y-%m-%d");
    join(output_dir, date.as_str())
}

/// What to say when the day's folder cannot be created.
pub fn day_dir_failure(day_dir: &str) -> (r: String)
    ensures
        r@ == "failed to create output directory "@ + day_dir@,
{
    let mut text: String = "failed to create output directory ".to_owned();
    text.append(day_dir);
    text
}

/// The path `<output_dir>/<YYYY-MM-DD>/<YYYY-MM-DD_HH-MM-SS>_<class>_<class>.mp4`
/// of a recorded clip.
///
/// The date is repeated in the file name so that names sort by time in a flat
/// listing of several days. The classes are sorted and named once each, so the
/// order of detection does not show.
pub fn clip_path(output_dir: &str, started_at: &LocalTime, classes: &[&str]) -> (r: String)
    requires
        started_at.valid(),
    ensures
        r@ == clip_location(output_dir@, *started_at, crate::text::slice_texts(classes@)),
{
    let folder: String = day_dir(output_dir, started_at);
    let sorted_classes: Vec<String> = sort_unique(classes);
    let mut filename: String = format_local(started_at, "%Y-%m-%d_%H-%M-%S");
    let ghost sorted = crate::text::texts(sorted_classes@);
    let mut i: usize = 0;
    assert(class_suffix(sorted.take(0)) =~= seq![]);
    assert(filename@ =~= timestamp_text(*started_at) + class_suffix(sorted.take(0)));
    while i < sorted_classes.len()
        invariant
            i <= sorted_classes@.len(),
            sorted == crate::text::texts(sorted_classes@),
            filename@ == timestamp_text(*started_at) + class_suffix(sorted.take(i as int)),
        decreases sorted_classes@.len() - i,
    {
        filename.append("_");
        filename.append(sorted_classes[i].as_str());
        proof {
            let upto = sorted.take(i + 1);
            assert(upto.drop_last() =~= sorted.take(i as int));
            assert(upto.last() == sorted_classes@[i as int]@);
            assert(filename@ =~= timestamp_text(*started_at) + class_suffix(upto));
        }
        i = i + 1;
    }
    assert(sorted.take(i as int) =~= sorted);
    filename.append(".mp4");
    join(folder.as_str(), filename.as_str())
}

/// Length of a path without what ends in nothing: trailing slashes, and dots
/// that stand alone behind a slash.
pub open spec fn name_end(path: Seq<char>) -> int
    decreases path.len(),
{
    if path.len() == 0 {
        0
    } else if path.last() == '/' {
        name_end(path.drop_last())
    } else if path.len() >= 2 && path.last() == '.' && path[path.len() - 2] == '/' {
        name_end(path.take(path.len() - 2))
    } else {
        path.len() as int
    }
}

/// The position behind the last `c` of a text, 0 if there is none.
pub open spec fn behind_last(text: Seq<char>, c: char) -> int
    decreases text.len(),
{
    if text.len() == 0 {
        0
    } else if text.last() == c {
        text.len() as int
    } else {
        behind_last(text.drop_last(), c)
    }
}

/// A path with the extension of its file name replaced, or added if there is
/// none. A dot at the start of a file name begins no extension. A path that
/// does not end in a file name stays as it is.
pub open spec fn with_extension_text(path: Seq<char>, extension: Seq<char>) -> Seq<char> {
    let end = name_end(path);
    let start = behind_last(path.take(end), '/');
    let name = path.subrange(start, end);
    if name.len() == 0 || name == "."@ || name == ".."@ {
        path
    } else {
        let dot = behind_last(name, '.');
        let stem_end = if dot > 1 {
            start + dot - 1
        } else {
            end
        };
        path.take(stem_end) + "."@ + extension
    }
}

/// Positions behind a character are positions of the text.
proof fn behind_last_in_text(text: Seq<char>, c: char)
    ensures
        0 <= behind_last(text, c) <= text.len(),
        behind_last(text, c) > 0 ==> text[behind_last(text, c) - 1] == c,
        forall|i: int| behind_last(text, c) <= i < text.len() ==> #[trigger] text[i] != c,
    decreases text.len(),
{
    if text.len() > 0 && text.last() != c {
        behind_last_in_text(text.drop_last(), c);
        let init = text.drop_last();
        assert forall|i: int| behind_last(text, c) <= i < text.len() implies #[trigger] text[i]
            != c by {
            if i < init.len() {
                assert(init[i] != c);
            }
        }
        if behind_last(text, c) > 0 {
            assert(init[behind_last(text, c) - 1] == c);
        }
    }
}

/// Finds where the file name of a path ends.
fn find_name_end(path: &str) -> (r: usize)
    ensures
        r == name_end(path@),
        r <= path@.len(),
{
    let mut end: usize = path.unicode_len();
    assert(path@.take(end as int) =~= path@);
    while end > 0
        invariant
            end <= path@.len(),
            name_end(path@.take(end as int)) == name_end(path@),
        ensures
            end <= path@.len(),
            end == name_end(path@),
        decreases end,
    {
        let ghost head = path@.take(end as int);
        if path.get_char(end - 1) == '/' {
            end = end - 1;
            assert(head.drop_last() =~= path@.take(end as int));
        } else if end >= 2 && path.get_char(end - 1) == '.' && path.get_char(end - 2) == '/' {
            end = end - 2;
            assert(head.take(head.len() - 2) =~= path@.take(end as int));
        } else {
            break;
        }
    }
    end
}

/// Finds the position behind the last `c` between two positions of a text,
/// `from` if there is none.
fn find_behind_last(text: &str, from: usize, to: usize, c: char) -> (r: usize)
    requires
        from <= to <= text@.len(),
    ensures
        r == from + behind_last(text@.subrange(from as int, to as int), c),
        from <= r <= to,
{
    let mut end: usize = to;
    let ghost part = text@.subrange(from as int, to as int);
    while end > from
        invariant
            from <= end <= to <= text@.len(),
            part == text@.subrange(from as int, to as int),
            behind_last(text@.subrange(from as int, end as int), c) == behind_last(part, c),
        ensures
            from <= end <= to,
            end == from + behind_last(part, c),
        decreases end,
    {
        let ghost head = text@.subrange(from as int, end as int);
        if text.get_char(end - 1) == c {
            break;
        }
        end = end - 1;
        assert(head.drop_last() =~= text@.subrange(from as int, end as int));
    }
    end
}

/// `path` with its file name's extension replaced by `extension`.
pub fn with_extension(path: &str, extension: &str) -> (r: String)
    ensures
        r@ == with_extension_text(path@, extension@),
{
    let end: usize = find_name_end(path);
    assert(path@.subrange(0, end as int) =~= path@.take(end as int));
    let start: usize = find_behind_last(path, 0, end, '/');
    let name: &str = path.substring_char(start, end);
    if start == end || same_text(name, ".") || same_text(name, "..") {
        return path.to_owned();
    }
    let dot: usize = find_behind_last(path, start, end, '.');
    let stem_end: usize = if dot - start > 1 {
        dot - 1
    } else {
        end
    };
    let head: &str = path.substring_char(0, stem_end);
    assert(head@ =~= path@.take(stem_end as int));
    let mut out: String = head.to_owned();
    out.append(".");
    out.append(extension);
    out
}

/// The sidecar path of a clip, e.g. `foo.json` for `foo.mp4`.
pub fn sidecar_path(clip_path: &str) -> (r: String)
    ensures
        r@ == with_extension_text(clip_path@, "json"@),
{
    with_extension(clip_path, "json")
}

/// A clip's name depends on the set of its classes alone: neither their order
/// nor their repetition shows.
pub proof fn clip_name_depends_on_class_set(
    started_at: LocalTime,
    classes: Seq<Seq<char>>,
    others: Seq<Seq<char>>,
)
    requires
        classes.to_set() =~= others.to_set(),
    ensures
        clip_name(started_at, classes) == clip_name(started_at, others),
{
    crate::text::sorted_unique_is_sorted_set(classes);
    crate::text::sorted_unique_is_sorted_set(others);
    crate::text::alphabetical_is_canonical(
        crate::text::sorted_unique(classes),
        crate::text::sorted_unique(others),
    );
}

/// Naming a clip after its full class list leaves it in the folder it was
/// started in: only the part of the name behind the time changes.
pub proof fn renaming_keeps_folder_and_time(
    output_dir: Seq<char>,
    started_at: LocalTime,
    classes: Seq<Seq<char>>,
    grown: Seq<Seq<char>>,
)
    ensures
        clip_location(output_dir, started_at, classes) == joined(
            day_folder(output_dir, started_at),
            timestamp_text(started_at) + (class_suffix(crate::text::sorted_unique(classes))
                + ".mp4"@),
        ),
        clip_location(output_dir, started_at, grown) == joined(
            day_folder(output_dir, started_at),
            timestamp_text(started_at) + (class_suffix(crate::text::sorted_unique(grown))
                + ".mp4"@),
        ),
{
    let time = timestamp_text(started_at);
    let a = class_suffix(crate::text::sorted_unique(classes));
    let b = class_suffix(crate::text::sorted_unique(grown));
    assert(time + a + ".mp4"@ =~= time + (a + ".mp4"@));
    assert(time + b + ".mp4"@ =~= time + (b + ".mp4"@));
}

/// Replacing a clip's extension changes nothing but the extension: the sidecar
/// of a clip is in the same folder under the same name.
pub proof fn sidecar_sits_beside_its_clip(folder: Seq<char>, stem: Seq<char>)
    requires
        folder.len() == 0 || folder.last() == '/',
        stem.len() > 0,
        !stem.contains('/'),
    ensures
        with_extension_text(folder + stem + ".mp4"@, "json"@) == folder + stem + ".json"@,
{
    reveal_strlit(".mp4");
    reveal_strlit("mp4");
    reveal_strlit(".json");
    reveal_strlit("json");
    reveal_strlit(".");
    let base = folder + stem;
    assert(base + ".mp4"@ =~= base + "."@ + "mp4"@);
    assert(base + ".json"@ =~= base + "."@ + "json"@);
    extension_is_replaced(folder, stem, "mp4"@, "json"@);
}

/// Whether a text holds no slash.
pub open spec fn slash_free(text: Seq<char>) -> bool {
    !text.contains('/')
}

/// Texts without a slash have none when put together.
proof fn slash_free_sum(a: Seq<char>, b: Seq<char>)
    requires
        slash_free(a),
        slash_free(b),
    ensures
        slash_free(a + b),
{
    assert forall|i: int| 0 <= i < (a + b).len() implies (a + b)[i] != '/' by {
        if i < a.len() {
            assert(a.contains(a[i]));
        } else {
            assert(b.contains(b[i - a.len()]));
        }
    }
}

/// Digits are no slashes.
proof fn padded_slash_free(n: nat, width: nat)
    ensures
        slash_free(crate::text::zero_padded(n, width)),
    decreases width,
{
    if width > 0 {
        padded_slash_free(n / 10, (width - 1) as nat);
        let head = crate::text::zero_padded(n / 10, (width - 1) as nat);
        let last = seq![crate::text::digit(n % 10)];
        assert(crate::text::zero_padded(n, width) =~= head + last);
        slash_free_sum(head, last);
    }
}

/// Digits are no slashes.
proof fn decimal_slash_free(n: nat)
    ensures
        slash_free(crate::text::decimal(n)),
    decreases n,
{
    if n >= 10 {
        decimal_slash_free(n / 10);
        let head = crate::text::decimal(n / 10);
        let last = seq![crate::text::digit(n % 10)];
        assert(crate::text::decimal(n) =~= head + last);
        slash_free_sum(head, last);
    }
}

/// A date holds no slash and ends in a digit.
proof fn date_slash_free(t: LocalTime)
    ensures
        slash_free(date_text(t)),
        date_text(t).len() > 0,
        date_text(t).last() != '/',
{
    reveal_strlit("-");
    let year = year_text(t.year as int);
    padded_slash_free(t.year as nat, 4);
    let size: int = if t.year < 0 {
        -t.year
    } else {
        t.year as int
    };
    padded_slash_free(size as nat, 4);
    decimal_slash_free(size as nat);
    if !(0 <= t.year <= 9999) {
        let sign = if t.year < 0 {
            seq!['-']
        } else {
            seq!['+']
        };
        slash_free_sum(sign, crate::text::zero_padded(size as nat, 4));
        slash_free_sum(sign, crate::text::decimal(size as nat));
    }
    padded_slash_free(t.month as nat, 2);
    padded_slash_free(t.day as nat, 2);
    padded_width(t.day as nat, 2);
    let s1 = year + "-"@;
    let s2 = s1 + two_digits(t.month);
    let s3 = s2 + "-"@;
    slash_free_sum(year, "-"@);
    slash_free_sum(s1, two_digits(t.month));
    slash_free_sum(s2, "-"@);
    slash_free_sum(s3, two_digits(t.day));
    let date = date_text(t);
    assert(date == s3 + two_digits(t.day));
    assert(date.contains(date.last()));
}

/// Classes without slashes give a name part without slashes.
proof fn suffix_slash_free(classes: Seq<Seq<char>>)
    requires
        forall|i: int| 0 <= i < classes.len() ==> slash_free(#[trigger] classes[i]),
    ensures
        slash_free(class_suffix(classes)),
    decreases classes.len(),
{
    if classes.len() > 0 {
        let init = classes.drop_last();
        assert forall|i: int| 0 <= i < init.len() implies slash_free(#[trigger] init[i]) by {
            assert(slash_free(classes[i]));
        }
        suffix_slash_free(init);
        reveal_strlit("_");
        slash_free_sum(class_suffix(init), "_"@);
        slash_free_sum(class_suffix(init) + "_"@, classes.last());
    }
}

/// The sidecar of a clip is in the clip's day folder, under the clip's name.
pub proof fn sidecar_of_a_clip(
    output_dir: Seq<char>,
    started_at: LocalTime,
    classes: Seq<Seq<char>>,
)
    requires
        forall|i: int| 0 <= i < classes.len() ==> slash_free(#[trigger] classes[i]),
    ensures
        with_extension_text(clip_location(output_dir, started_at, classes), "json"@) == joined(
            day_folder(output_dir, started_at),
            clip_stem(started_at, classes) + ".json"@,
        ),
{
    let t = started_at;
    let date = date_text(t);
    date_slash_free(t);
    let sorted = crate::text::sorted_unique(classes);
    crate::text::sorted_unique_is_sorted_set(classes);
    assert forall|i: int| 0 <= i < sorted.len() implies slash_free(#[trigger] sorted[i]) by {
        assert(sorted.to_set().contains(sorted[i]));
        let k = classes.index_of(sorted[i]);
        assert(slash_free(classes[k]));
    }
    suffix_slash_free(sorted);
    reveal_strlit("-");
    reveal_strlit("_");
    reveal_strlit("/");
    padded_slash_free(t.hour as nat, 2);
    padded_slash_free(t.minute as nat, 2);
    padded_slash_free(t.second as nat, 2);
    let s1 = date + "_"@;
    let s2 = s1 + two_digits(t.hour);
    let s3 = s2 + "-"@;
    let s4 = s3 + two_digits(t.minute);
    let s5 = s4 + "-"@;
    let s6 = s5 + two_digits(t.second);
    slash_free_sum(date, "_"@);
    slash_free_sum(s1, two_digits(t.hour));
    slash_free_sum(s2, "-"@);
    slash_free_sum(s3, two_digits(t.minute));
    slash_free_sum(s4, "-"@);
    slash_free_sum(s5, two_digits(t.second));
    let stem = clip_stem(t, classes);
    slash_free_sum(s6, class_suffix(sorted));
    let day = day_folder(output_dir, t);
    assert(day.last() == date.last());
    let folder = day + "/"@;
    assert(folder.last() == '/');
    sidecar_sits_beside_its_clip(folder, stem);
    assert(clip_location(output_dir, t, classes) =~= folder + stem + ".mp4"@);
    assert(joined(day, stem + ".json"@) =~= folder + stem + ".json"@);
}

/// Of two texts of one length the earlier stays earlier whatever is put behind
/// them.
proof fn order_survives_suffix(a: Seq<char>, b: Seq<char>, x: Seq<char>, y: Seq<char>)
    requires
        a.len() == b.len(),
        crate::text::lex_less(a, b),
    ensures
        crate::text::lex_less(a + x, b + y),
    decreases a.len(),
{
    if a.len() > 0 {
        assert((a + x)[0] == a[0] && (b + y)[0] == b[0]);
        if a[0] == b[0] {
            order_survives_suffix(a.drop_first(), b.drop_first(), x, y);
            assert((a + x).drop_first() =~= a.drop_first() + x);
            assert((b + y).drop_first() =~= b.drop_first() + y);
        }
    }
}

/// A common beginning does not change the order.
proof fn order_survives_prefix(p: Seq<char>, a: Seq<char>, b: Seq<char>)
    requires
        crate::text::lex_less(a, b),
    ensures
        crate::text::lex_less(p + a, p + b),
    decreases p.len(),
{
    if p.len() == 0 {
        assert(p + a =~= a && p + b =~= b);
    } else {
        assert((p + a).drop_first() =~= p.drop_first() + a);
        assert((p + b).drop_first() =~= p.drop_first() + b);
        order_survives_prefix(p.drop_first(), a, b);
    }
}

/// Padded numbers have the width asked for.
proof fn padded_width(n: nat, width: nat)
    ensures
        crate::text::zero_padded(n, width).len() == width,
    decreases width,
{
    if width > 0 {
        padded_width(n / 10, (width - 1) as nat);
    }
}

/// Padded numbers sort as the numbers do: one step, given the numbers without
/// their last digits.
proof fn padded_order_step(n: nat, m: nat, width: nat)
    requires
        n < m,
        n / 10 < m / 10 ==> crate::text::lex_less(
            crate::text::zero_padded(n / 10, width),
            crate::text::zero_padded(m / 10, width),
        ),
    ensures
        crate::text::lex_less(
            crate::text::zero_padded(n, width + 1),
            crate::text::zero_padded(m, width + 1),
        ),
{
    let a = crate::text::zero_padded(n / 10, width);
    let b = crate::text::zero_padded(m / 10, width);
    let x = seq![crate::text::digit(n % 10)];
    let y = seq![crate::text::digit(m % 10)];
    padded_width(n / 10, width);
    padded_width(m / 10, width);
    assert(crate::text::zero_padded(n, width + 1) =~= a + x);
    assert(crate::text::zero_padded(m, width + 1) =~= b + y);
    if n / 10 < m / 10 {
        order_survives_suffix(a, b, x, y);
    } else {
        assert(n / 10 == m / 10 && n % 10 < m % 10);
        assert(crate::text::lex_less(x, y));
        order_survives_prefix(a, x, y);
    }
}

/// Two-digit numbers sort as the numbers do.
proof fn two_digits_order(n: u32, m: u32)
    requires
        n < m < 100,
    ensures
        crate::text::lex_less(two_digits(n), two_digits(m)),
{
    let (n, m) = (n as nat, m as nat);
    if n / 10 < m / 10 {
        padded_order_step(n / 10, m / 10, 0);
    }
    padded_order_step(n, m, 1);
}

/// Four-digit years sort as the years do.
proof fn year_order(n: int, m: int)
    requires
        0 <= n < m <= 9999,
    ensures
        crate::text::lex_less(year_text(n), year_text(m)),
{
    let (n, m) = (n as nat, m as nat);
    if n / 10 < m / 10 {
        if n / 10 / 10 < m / 10 / 10 {
            if n / 10 / 10 / 10 < m / 10 / 10 / 10 {
                padded_order_step(n / 10 / 10 / 10, m / 10 / 10 / 10, 0);
            }
            padded_order_step(n / 10 / 10, m / 10 / 10, 1);
        }
        padded_order_step(n / 10, m / 10, 2);
    }
    padded_order_step(n, m, 3);
}

/// Clip names sort by time, whatever classes they end in: of two clips from
/// the years 0 to 9999 the name of the earlier one comes first.
pub proof fn clip_names_sort_by_time(
    a: LocalTime,
    b: LocalTime,
    a_classes: Seq<Seq<char>>,
    b_classes: Seq<Seq<char>>,
)
    requires
        a.valid(),
        b.valid(),
        0 <= a.year <= 9999,
        0 <= b.year <= 9999,
        a.earlier(&b),
    ensures
        crate::text::lex_less(clip_name(a, a_classes), clip_name(b, b_classes)),
{
    let a_fields = seq![
        year_text(a.year as int),
        two_digits(a.month),
        two_digits(a.day),
        two_digits(a.hour),
        two_digits(a.minute),
        two_digits(a.second),
    ];
    let b_fields = seq![
        year_text(b.year as int),
        two_digits(b.month),
        two_digits(b.day),
        two_digits(b.hour),
        two_digits(b.minute),
        two_digits(b.second),
    ];
    let gaps = seq!["-"@, "-"@, "_"@, "-"@, "-"@];
    let a_end = class_suffix(crate::text::sorted_unique(a_classes)) + ".mp4"@;
    let b_end = class_suffix(crate::text::sorted_unique(b_classes)) + ".mp4"@;
    assert(a.month < 100 && b.month < 100 && a.day < 100 && b.day < 100);
    let k: int = if a.year != b.year {
        year_order(a.year as int, b.year as int);
        0
    } else if a.month != b.month {
        two_digits_order(a.month, b.month);
        1
    } else if a.day != b.day {
        two_digits_order(a.day, b.day);
        2
    } else if a.hour != b.hour {
        two_digits_order(a.hour, b.hour);
        3
    } else if a.minute != b.minute {
        two_digits_order(a.minute, b.minute);
        4
    } else {
        two_digits_order(a.second, b.second);
        5
    };
    assert(a_fields.take(k) =~= b_fields.take(k));
    padded_width(a.year as nat, 4);
    padded_width(b.year as nat, 4);
    padded_width(a.month as nat, 2);
    padded_width(b.month as nat, 2);
    padded_width(a.day as nat, 2);
    padded_width(b.day as nat, 2);
    padded_width(a.hour as nat, 2);
    padded_width(b.hour as nat, 2);
    padded_width(a.minute as nat, 2);
    padded_width(b.minute as nat, 2);
    padded_width(a.second as nat, 2);
    padded_width(b.second as nat, 2);
    name_from_fields(a, a_classes);
    name_from_fields(b, b_classes);
    fields_order(a_fields, b_fields, k, gaps, a_end, b_end);
}

/// Fields with a gap behind each but the last, and an end.
spec fn spaced(fields: Seq<Seq<char>>, gaps: Seq<Seq<char>>, end: Seq<char>) -> Seq<char>
    decreases fields.len(),
{
    if fields.len() == 0 {
        end
    } else if fields.len() == 1 {
        fields[0] + end
    } else {
        fields[0] + (gaps[0] + spaced(fields.drop_first(), gaps.drop_first(), end))
    }
}

/// A clip's name is its time fields, spaced, and its classes.
proof fn name_from_fields(t: LocalTime, classes: Seq<Seq<char>>)
    ensures
        clip_name(t, classes) == spaced(
            seq![
                year_text(t.year as int),
                two_digits(t.month),
                two_digits(t.day),
                two_digits(t.hour),
                two_digits(t.minute),
                two_digits(t.second),
            ],
            seq!["-"@, "-"@, "_"@, "-"@, "-"@],
            class_suffix(crate::text::sorted_unique(classes)) + ".mp4"@,
        ),
{
    let end = class_suffix(crate::text::sorted_unique(classes)) + ".mp4"@;
    let f5 = seq![two_digits(t.second)];
    let f4 = seq![two_digits(t.minute)] + f5;
    let f3 = seq![two_digits(t.hour)] + f4;
    let f2 = seq![two_digits(t.day)] + f3;
    let f1 = seq![two_digits(t.month)] + f2;
    let f0 = seq![year_text(t.year as int)] + f1;
    let g4 = seq!["-"@];
    let g3 = seq!["-"@] + g4;
    let g2 = seq!["_"@] + g3;
    let g1 = seq!["-"@] + g2;
    let g0 = seq!["-"@] + g1;
    assert(f0.drop_first() =~= f1 && f1.drop_first() =~= f2 && f2.drop_first() =~= f3
        && f3.drop_first() =~= f4 && f4.drop_first() =~= f5);
    assert(g0.drop_first() =~= g1 && g1.drop_first() =~= g2 && g2.drop_first() =~= g3
        && g3.drop_first() =~= g4);
    let s5 = two_digits(t.second) + end;
    let s4 = two_digits(t.minute) + ("-"@ + s5);
    let s3 = two_digits(t.hour) + ("-"@ + s4);
    let s2 = two_digits(t.day) + ("_"@ + s3);
    let s1 = two_digits(t.month) + ("-"@ + s2);
    let s0 = year_text(t.year as int) + ("-"@ + s1);
    assert(spaced(f5, g4.drop_first(), end) == s5);
    assert(spaced(f4, g4, end) == s4);
    assert(spaced(f3, g3, end) == s3);
    assert(spaced(f2, g2, end) == s2);
    assert(spaced(f1, g1, end) == s1);
    assert(spaced(f0, g0, end) == s0);
    assert(f0 =~= seq![
        year_text(t.year as int),
        two_digits(t.month),
        two_digits(t.day),
        two_digits(t.hour),
        two_digits(t.minute),
        two_digits(t.second),
    ]);
    assert(g0 =~= seq!["-"@, "-"@, "_"@, "-"@, "-"@]);
    assert(clip_name(t, classes) =~= s0);
}

/// The first field that differs decides the order of two spaced texts.
proof fn fields_order(
    a: Seq<Seq<char>>,
    b: Seq<Seq<char>>,
    k: int,
    gaps: Seq<Seq<char>>,
    a_end: Seq<char>,
    b_end: Seq<char>,
)
    requires
        0 <= k < a.len(),
        a.len() == b.len(),
        forall|i: int| 0 <= i < a.len() ==> (#[trigger] a[i]).len() == b[i].len(),
        crate::text::lex_less(a[k], b[k]),
        a.take(k) == b.take(k),
    ensures
        crate::text::lex_less(spaced(a, gaps, a_end), spaced(b, gaps, b_end)),
    decreases a.len(),
{
    assert(a[0].len() == b[0].len());
    if k == 0 {
        let x = if a.len() == 1 {
            a_end
        } else {
            gaps[0] + spaced(a.drop_first(), gaps.drop_first(), a_end)
        };
        let y = if a.len() == 1 {
            b_end
        } else {
            gaps[0] + spaced(b.drop_first(), gaps.drop_first(), b_end)
        };
        order_survives_suffix(a[0], b[0], x, y);
    } else {
        let ra = a.drop_first();
        let rb = b.drop_first();
        assert(a[0] == a.take(k)[0] && b[0] == b.take(k)[0]);
        assert(ra[k - 1] == a[k]);
        assert(ra.take(k - 1) =~= a.take(k).drop_first());
        assert(rb.take(k - 1) =~= b.take(k).drop_first());
        assert forall|i: int| 0 <= i < ra.len() implies (#[trigger] ra[i]).len() == rb[i].len() by {
            assert(a[i + 1].len() == b[i + 1].len());
        }
        fields_order(ra, rb, k - 1, gaps.drop_first(), a_end, b_end);
        let x = spaced(ra, gaps.drop_first(), a_end);
        let y = spaced(rb, gaps.drop_first(), b_end);
        order_survives_prefix(gaps[0], x, y);
        order_survives_prefix(a[0], gaps[0] + x, gaps[0] + y);
    }
}

/// Where the file name of a path begins and ends.
proof fn file_name_is_found(folder: Seq<char>, name: Seq<char>)
    requires
        folder.len() == 0 || folder.last() == '/',
        name.len() > 0,
        !name.contains('/'),
        name.last() != '.',
    ensures
        ({
            let path = folder + name;
            let end = path.len() as int;
            let start = folder.len() as int;
            &&& name_end(path) == end
            &&& path.take(end) == path
            &&& behind_last(path, '/') == start
            &&& path.subrange(start, end) == name
        }),
{
    let path = folder + name;
    let end = path.len() as int;
    let start = folder.len() as int;
    assert(path.last() == name.last());
    assert(name.contains(name.last()));
    assert(path.take(end) =~= path);
    assert(path.subrange(start, end) =~= name);
    behind_last_in_text(path, '/');
    let slash = behind_last(path, '/');
    if slash > start {
        assert(path[slash - 1] == name[slash - 1 - start]);
        assert(name.contains(name[slash - 1 - start]));
    }
    if slash < start {
        assert(path[start - 1] == folder.last());
    }
}

/// A text does not hold the last dot of what stands before it.
proof fn last_dot_is_found(stem: Seq<char>, extension: Seq<char>)
    requires
        !extension.contains('.'),
    ensures
        behind_last(stem + "."@ + extension, '.') == stem.len() + 1,
{
    reveal_strlit(".");
    let name = stem + "."@ + extension;
    let n = stem.len() as int;
    behind_last_in_text(name, '.');
    let dot = behind_last(name, '.');
    assert(name[n] == '.');
    if dot > n + 1 {
        assert(name[dot - 1] == extension[dot - 1 - n - 1]);
        assert(extension.contains(extension[dot - 1 - n - 1]));
    }
}

/// A text that ends in no dot is neither the folder itself nor the one above.
proof fn names_a_file(name: Seq<char>)
    requires
        name.len() > 0,
        name.last() != '.',
    ensures
        name != "."@,
        name != ".."@,
{
    reveal_strlit(".");
    reveal_strlit("..");
    assert("."@.last() == '.' && ".."@.last() == '.');
}

/// The extension of a file name is replaced, and nothing else: neither the
/// folder nor the rest of the name, whatever dots they hold.
pub proof fn extension_is_replaced(
    folder: Seq<char>,
    stem: Seq<char>,
    extension: Seq<char>,
    replacement: Seq<char>,
)
    requires
        folder.len() == 0 || folder.last() == '/',
        stem.len() > 0,
        !stem.contains('/'),
        extension.len() > 0,
        !extension.contains('/'),
        !extension.contains('.'),
    ensures
        with_extension_text(folder + stem + "."@ + extension, replacement) == folder + stem + "."@
            + replacement,
{
    reveal_strlit(".");
    let name = stem + "."@ + extension;
    let path = folder + name;
    assert(folder + stem + "."@ + extension =~= path);
    assert forall|i: int| 0 <= i < name.len() implies name[i] != '/' by {
        if i < stem.len() {
            assert(stem.contains(stem[i]));
        } else if i > stem.len() {
            assert(extension.contains(extension[i - stem.len() - 1]));
        }
    }
    assert(name.last() == extension.last());
    assert(extension.contains(extension.last()));
    file_name_is_found(folder, name);
    names_a_file(name);
    last_dot_is_found(stem, extension);
    assert(path.take(folder.len() as int + stem.len()) =~= folder + stem);
}

/// A file name without an extension gets one behind it.
pub proof fn extension_is_added(folder: Seq<char>, name: Seq<char>, extension: Seq<char>)
    requires
        folder.len() == 0 || folder.last() == '/',
        name.len() > 0,
        !name.contains('/'),
        !name.contains('.'),
    ensures
        with_extension_text(folder + name, extension) == folder + name + "."@ + extension,
{
    assert(name.contains(name.last()));
    file_name_is_found(folder, name);
    names_a_file(name);
    behind_last_in_text(name, '.');
    let dot = behind_last(name, '.');
    if dot > 0 {
        assert(name.contains(name[dot - 1]));
    }
}

/// A year has the days of its months: 365, or 366 every fourth year but those
/// of the centuries, unless it is every fourth of them too.
pub proof fn months_make_the_year(year: int, month: int)
    requires
        1 <= month <= 12,
    ensures
        month != 2 ==> days_in_month(year, month) == 30 + (month + month / 8) % 2,
        days_in_month(year, 2) == 28 + (if year % 400 == 0 || (year % 4 == 0 && year % 100 != 0) {
            1int
        } else {
            0
        }),
        days_in_month(year + 400, month) == days_in_month(year, month),
{
}

/// A time is taken if and only if there is such a day and such a time of day.
pub proof fn only_times_that_exist_are_valid(t: LocalTime)
    ensures
        t.valid() ==> 1 <= t.month <= 12 && 1 <= t.day <= 31 && t.hour <= 23 && t.minute <= 59
            && t.second <= 59,
        MIN_YEAR <= t.year <= MAX_YEAR && 1 <= t.month <= 12 && 1 <= t.day && t.hour <= 23
            && t.minute <= 59 && t.second <= 59 ==> t.valid() == (t.day <= days_in_month(
            t.year as int,
            t.month as int,
        )),
        t.year < MIN_YEAR || t.year > MAX_YEAR ==> !t.valid(),
{
}

/// A path put below a base starts with the base and ends in the path, with one
/// slash before the path: the base's own, or one put between. Below nothing it
/// is itself.
pub proof fn child_is_below_its_base(base: Seq<char>, child: Seq<char>)
    ensures
        ({
            let path = joined(base, child);
            &&& base.is_prefix_of(path)
            &&& path.skip(path.len() - child.len()) == child
            &&& base.len() == 0 ==> path == child
            &&& base.len() > 0 ==> path[path.len() - child.len() - 1] == '/'
            &&& path.len() <= base.len() + 1 + child.len()
            &&& base.len() > 0 && base.last() == '/' ==> path.len() == base.len() + child.len()
        }),
{
    reveal_strlit("/");
    let path = joined(base, child);
    assert(path.subrange(0, base.len() as int) =~= base);
    assert(path.skip(path.len() - child.len()) =~= child);
}

/// The classes of a name stand one behind the other, each behind an
/// underscore.
pub proof fn classes_stand_behind_underscores(
    first: Seq<Seq<char>>,
    second: Seq<Seq<char>>,
    class_name: Seq<char>,
)
    ensures
        class_suffix(first + second) == class_suffix(first) + class_suffix(second),
        class_suffix(seq![class_name]) == seq!['_'] + class_name,
        class_suffix(Seq::<Seq<char>>::empty()).len() == 0,
    decreases second.len(),
{
    reveal_strlit("_");
    let one = seq![class_name];
    assert(one.drop_last() =~= Seq::<Seq<char>>::empty());
    assert(class_suffix(one.drop_last()) =~= Seq::<char>::empty());
    assert(class_suffix(one) =~= seq!['_'] + class_name);
    if second.len() == 0 {
        assert(first + second =~= first);
        assert(class_suffix(first) + class_suffix(second) =~= class_suffix(first));
    } else {
        classes_stand_behind_underscores(first, second.drop_last(), class_name);
        assert((first + second).drop_last() =~= first + second.drop_last());
        assert((first + second).last() == second.last());
        assert(class_suffix(first + second) =~= class_suffix(first) + class_suffix(second));
    }
}

/// A date reads back from its text: four digits of the year, two of the month
/// and two of the day.
pub proof fn date_reads_back(t: LocalTime)
    requires
        0 <= t.year <= 9999,
        t.month < 100,
        t.day < 100,
    ensures
        ({
            let text = date_text(t);
            &&& text.len() == 10
            &&& crate::capture::camera::digits_value(text.subrange(0, 4)) == t.year
            &&& crate::capture::camera::digits_value(text.subrange(5, 7)) == t.month
            &&& crate::capture::camera::digits_value(text.subrange(8, 10)) == t.day
            &&& text[4] == '-' && text[7] == '-'
        }),
{
    reveal_strlit("-");
    reveal_with_fuel(crate::text::power_of_ten, 5);
    crate::text::padded_reads_back(t.year as nat, 4);
    crate::text::padded_reads_back(t.month as nat, 2);
    crate::text::padded_reads_back(t.day as nat, 2);
    let text = date_text(t);
    assert(text.subrange(0, 4) =~= year_text(t.year as int));
    assert(text.subrange(5, 7) =~= two_digits(t.month));
    assert(text.subrange(8, 10) =~= two_digits(t.day));
}

/// The time of day reads back from a time's text, behind the date.
pub proof fn time_reads_back(t: LocalTime)
    requires
        0 <= t.year <= 9999,
        t.month < 100,
        t.day < 100,
        t.hour < 100,
        t.minute < 100,
        t.second < 100,
    ensures
        ({
            let text = timestamp_text(t);
            &&& text.len() == 19
            &&& text.subrange(0, 10) == date_text(t)
            &&& crate::capture::camera::digits_value(text.subrange(11, 13)) == t.hour
            &&& crate::capture::camera::digits_value(text.subrange(14, 16)) == t.minute
            &&& crate::capture::camera::digits_value(text.subrange(17, 19)) == t.second
            &&& text[10] == '_' && text[13] == '-' && text[16] == '-'
        }),
{
    reveal_strlit("-");
    reveal_strlit("_");
    reveal_with_fuel(crate::text::power_of_ten, 3);
    date_reads_back(t);
    crate::text::padded_reads_back(t.hour as nat, 2);
    crate::text::padded_reads_back(t.minute as nat, 2);
    crate::text::padded_reads_back(t.second as nat, 2);
    let text = timestamp_text(t);
    assert(text.subrange(0, 10) =~= date_text(t));
    assert(text.subrange(11, 13) =~= two_digits(t.hour));
    assert(text.subrange(14, 16) =~= two_digits(t.minute));
    assert(text.subrange(17, 19) =~= two_digits(t.second));
}

/// A clip goes into the folder of its day, below the output directory, under a
/// name that begins with its time and ends in its classes; the folder's name is
/// the date that the clip's begins with.
pub proof fn clip_goes_into_the_folder_of_its_day(
    output_dir: Seq<char>,
    started_at: LocalTime,
    classes: Seq<Seq<char>>,
)
    requires
        0 <= started_at.year <= 9999,
        started_at.valid(),
    ensures
        ({
            let folder = day_folder(output_dir, started_at);
            let path = clip_location(output_dir, started_at, classes);
            let name = path.skip(folder.len() as int + 1);
            let tail = class_suffix(crate::text::sorted_unique(classes)) + ".mp4"@;
            &&& output_dir.is_prefix_of(folder)
            &&& folder.is_prefix_of(path)
            &&& path[folder.len() as int] == '/'
            &&& name == timestamp_text(started_at) + tail
            &&& folder.skip(folder.len() - 10) == name.take(10)
        }),
{
    reveal_strlit("/");
    let date = date_text(started_at);
    let folder = day_folder(output_dir, started_at);
    let path = clip_location(output_dir, started_at, classes);
    let tail = class_suffix(crate::text::sorted_unique(classes)) + ".mp4"@;
    let name = timestamp_text(started_at) + tail;
    time_reads_back(started_at);
    date_reads_back(started_at);
    date_slash_free(started_at);
    child_is_below_its_base(output_dir, date);
    assert(folder.last() == date.last());
    child_is_below_its_base(folder, clip_name(started_at, classes));
    assert(clip_name(started_at, classes) =~= name);
    assert(path == folder + "/"@ + clip_name(started_at, classes));
    assert(path.skip(folder.len() as int + 1) =~= name);
    assert(path[folder.len() as int] == '/');
    assert(name.take(10) =~= timestamp_text(started_at).subrange(0, 10));
    assert(folder.skip(folder.len() - 10) =~= date);
}

/// Clips of one day share a folder, and those of different days do not.
pub proof fn each_day_has_its_own_folder(output_dir: Seq<char>, a: LocalTime, b: LocalTime)
    requires
        a.valid(),
        b.valid(),
        0 <= a.year <= 9999,
        0 <= b.year <= 9999,
    ensures
        (day_folder(output_dir, a) == day_folder(output_dir, b)) == (a.year == b.year && a.month
            == b.month && a.day == b.day),
{
    date_reads_back(a);
    date_reads_back(b);
    child_is_below_its_base(output_dir, date_text(a));
    child_is_below_its_base(output_dir, date_text(b));
}

/// A dot at the start of a file name begins no extension.
pub proof fn leading_dot_begins_no_extension(
    folder: Seq<char>,
    name: Seq<char>,
    extension: Seq<char>,
)
    requires
        folder.len() == 0 || folder.last() == '/',
        name.len() > 0,
        !name.contains('/'),
        !name.contains('.'),
    ensures
        with_extension_text(folder + "."@ + name, extension) == folder + "."@ + name + "."@
            + extension,
{
    reveal_strlit(".");
    let dotted = "."@ + name;
    assert(folder + "."@ + name =~= folder + dotted);
    assert(dotted.last() == name.last());
    assert(name.contains(name.last()));
    assert forall|i: int| 0 <= i < dotted.len() implies dotted[i] != '/' by {
        if i > 0 {
            assert(name.contains(name[i - 1]));
        }
    }
    file_name_is_found(folder, dotted);
    names_a_file(dotted);
    behind_last_in_text(dotted, '.');
    let dot = behind_last(dotted, '.');
    if dot > 1 {
        assert(dotted[dot - 1] == name[dot - 2]);
        assert(name.contains(name[dot - 2]));
    }
}

/// A path that ends in the folder above has no file name, and stays as it is.
pub proof fn folder_above_has_no_extension(folder: Seq<char>, extension: Seq<char>)
    requires
        folder.len() == 0 || folder.last() == '/',
    ensures
        with_extension_text(folder + ".."@, extension) == folder + ".."@,
        with_extension_text(Seq::<char>::empty(), extension) == Seq::<char>::empty(),
{
    reveal_strlit(".");
    reveal_strlit("..");
    let path = folder + ".."@;
    let end = path.len() as int;
    let start = folder.len() as int;
    assert(path[end - 1] == '.' && path[end - 2] == '.');
    assert(name_end(path) == end);
    assert(path.take(end) =~= path);
    behind_last_in_text(path, '/');
    let slash = behind_last(path, '/');
    if slash > start {
        assert(path[slash - 1] == '/');
    }
    if slash < start {
        assert(path[start - 1] == folder.last());
    }
    assert(path.subrange(start, end) =~= ".."@);
    let nothing = Seq::<char>::empty();
    assert(nothing.take(0) =~= nothing);
    assert(behind_last(nothing.take(0), '/') == 0);
    assert(nothing.subrange(0, 0).len() == 0);
}

/// A slash behind a file name makes no other file of it, nor does a single dot
/// behind that.
pub proof fn slash_behind_a_file_name_is_dropped(
    folder: Seq<char>,
    stem: Seq<char>,
    extension: Seq<char>,
    replacement: Seq<char>,
)
    requires
        folder.len() == 0 || folder.last() == '/',
        stem.len() > 0,
        !stem.contains('/'),
        extension.len() > 0,
        !extension.contains('/'),
        !extension.contains('.'),
    ensures
        with_extension_text(folder + stem + "."@ + extension + "/"@, replacement) == folder + stem
            + "."@ + replacement,
        with_extension_text(folder + stem + "."@ + extension + "/."@, replacement) == folder + stem
            + "."@ + replacement,
{
    reveal_strlit("/");
    reveal_strlit("/.");
    reveal_strlit(".");
    let path = folder + stem + "."@ + extension;
    extension_is_replaced(folder, stem, extension, replacement);
    assert(path.last() == extension.last());
    assert(extension.contains(extension.last()));
    let end = path.len() as int;
    assert(name_end(path) == end);
    assert(path.take(end) =~= path);
    name_end_is_a_name(path, replacement, path + "/"@);
    name_end_is_a_name(path, replacement, path + "/."@);
}

/// What does not count to the file name does not matter to its extension.
proof fn name_end_is_a_name(path: Seq<char>, extension: Seq<char>, longer: Seq<char>)
    requires
        path.len() > 0,
        path.last() != '/',
        path.last() != '.',
        longer == path + "/"@ || longer == path + "/."@,
    ensures
        with_extension_text(longer, extension) == with_extension_text(path, extension),
{
    reveal_strlit("/");
    reveal_strlit("/.");
    let end = path.len() as int;
    assert(name_end(path) == end);
    assert(path.take(end) =~= path);
    assert(longer.take(end) =~= path);
    if longer.last() == '/' {
        assert(longer.drop_last() =~= path);
    } else {
        assert(longer.take(longer.len() - 2) =~= path);
    }
    assert(name_end(longer) == end);
    behind_last_in_text(path, '/');
    let start = behind_last(path, '/');
    assert(longer.subrange(start, end) =~= path.subrange(start, end));
    let name = path.subrange(start, end);
    reveal_strlit(".");
    reveal_strlit("..");
    assert(start < end);
    assert(name.last() == path.last());
    assert("."@.last() == '.' && ".."@.last() == '.');
    behind_last_in_text(name, '.');
    let dot = behind_last(name, '.');
    if dot > 1 {
        assert(longer.take(start + dot - 1) =~= path.take(start + dot - 1));
    }
}

} // verus!
