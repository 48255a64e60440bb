//! Which camera to open.

use vstd::prelude::*;
use vstd::string::*;

verus! {

/// Whether a text is made of decimal digits.
pub open spec fn all_digits(text: Seq<char>) -> bool {
    forall|i: int| 0 <= i < text.len() ==> '0' as int <= #[trigger] text[i] as int <= '9' as int
}

/// The number that a run of decimal digits denotes.
pub open spec fn digits_value(digits: Seq<char>) -> int
    decreases digits.len(),
{
    if digits.len() == 0 {
        0
    } else {
        10 * digits_value(digits.drop_last()) + (digits.last() as int - '0' as int)
    }
}

/// The camera index that a device name stands for, if any: the number behind
/// `/dev/video`, in decimal digits alone, if it fits 32 bits.
pub open spec fn camera_index(name: Seq<char>) -> Option<int> {
    let digits = name.skip(10);
    if "/dev/video"@.is_prefix_of(name) && digits.len() > 0 && all_digits(digits) && digits_value(
        digits,
    ) <= u32::MAX {
        Some(digits_value(digits))
    } else {
        None
    }
}

/// Whether a text starts with `prefix`.
fn starts_with(text: &str, prefix: &str) -> (r: bool)
    ensures
        r == prefix@.is_prefix_of(text@),
{
    let len: usize = prefix.unicode_len();
    if len > text.unicode_len() {
        return false;
    }
    let mut i: usize = 0;
    while i < len
        invariant
            i <= len,
            len == prefix@.len(),
            len <= text@.len(),
            forall|k: int| 0 <= k < i ==> prefix@[k] == text@[k],
        decreases len - i,
    {
        if prefix.get_char(i) != text.get_char(i) {
            assert(text@.subrange(0, len as int)[i as int] == text@[i as int]);
            return false;
        }
        i = i + 1;
    }
    assert(prefix@ =~= text@.subrange(0, len as int));
    true
}

/// More digits make no smaller number.
proof fn value_grows(digits: Seq<char>, n: int)
    requires
        0 <= n <= digits.len(),
        all_digits(digits),
    ensures
        0 <= digits_value(digits.take(n)) <= digits_value(digits),
    decreases digits.len() - n, digits.len(),
{
    if n == digits.len() {
        assert(digits.take(n) =~= digits);
        if digits.len() > 0 {
            let init = digits.drop_last();
            assert(all_digits(init)) by {
                assert forall|i: int| 0 <= i < init.len() implies '0' as int
                    <= #[trigger] init[i] as int <= '9' as int by {
                    assert(init[i] == digits[i]);
                }
            }
            value_grows(init, init.len() as int);
            assert(init.take(init.len() as int) =~= init);
            assert(digits[digits.len() - 1] as int >= '0' as int);
        }
    } else {
        let more = digits.take(n + 1);
        assert(more.drop_last() =~= digits.take(n));
        assert(digits[n] as int >= '0' as int);
        value_grows(digits, n + 1);
        let head = digits.take(n);
        assert(all_digits(head)) by {
            assert forall|i: int| 0 <= i < head.len() implies '0' as int <= #[trigger] head[i] as int
                <= '9' as int by {
                assert(head[i] == digits[i]);
            }
        }
        value_grows(head, n);
        assert(head.take(n) =~= head);
    }
}

/// Reads the number at position `from` to the end of a text.
fn parse_index(text: &str, from: usize) -> (r: Option<u32>)
    requires
        from <= text@.len(),
    ensures
        ({
            let digits = text@.skip(from as int);
            match r {
                Some(n) => digits.len() > 0 && all_digits(digits) && n == digits_value(digits),
                None => digits.len() == 0 || !all_digits(digits) || digits_value(digits)
                    > u32::MAX,
            }
        }),
{
    let len: usize = text.unicode_len();
    let ghost digits = text@.skip(from as int);
    if from == len {
        return None;
    }
    let mut n: u32 = 0;
    let mut i: usize = from;
    assert(digits.take(0) =~= seq![]);
    while i < len
        invariant
            from <= i <= len,
            len == text@.len(),
            digits == text@.skip(from as int),
            n == digits_value(digits.take(i - from)),
            forall|k: int|
                0 <= k < i - from ==> '0' as int <= #[trigger] digits[k] as int <= '9' as int,
        decreases len - i,
    {
        let c: char = text.get_char(i);
        assert(c == digits[i - from]);
        let code: u32 = c as u32;
        if code < 48 || code > 57 {
            return None;
        }
        let next: u64 = 10 * n as u64 + (code - 48) as u64;
        proof {
            let upto = digits.take(i - from + 1);
            assert(upto.drop_last() =~= digits.take(i - from));
            assert(next == digits_value(upto));
        }
        if next > u32::MAX as u64 {
            proof {
                if all_digits(digits) {
                    value_grows(digits, i - from + 1);
                }
            }
            return None;
        }
        n = next as u32;
        i = i + 1;
    }
    assert(digits.take(i - from) =~= digits);
    Some(n)
}

/// The index of the configured camera (e.g. `/dev/video0`), or `Ok(None)` if
/// none is configured and one is to be selected. A name of another form is
/// refused.
pub fn resolve_pinned_camera_index(device: Option<&str>) -> (r: Result<Option<u32>, String>)
    ensures
        match device {
            None => r == Ok::<Option<u32>, String>(None),
            Some(name) => match camera_index(name@) {
                Some(index) => r is Ok && r->Ok_0 is Some && r->Ok_0->0 == index,
                None => r is Err && r->Err_0@ == "expected a /dev/videoN path, got "@ + name@,
            },
        },
{
    let name: &str = match device {
        Some(name) => name,
        None => {
            return Ok(None);
        },
    };
    proof {
        reveal_strlit("/dev/video");
    }
    let index: Option<u32> = if starts_with(name, "/dev/video") {
        parse_index(name, 10)
    } else {
        None
    };
    match index {
        Some(index) => Ok(Some(index)),
        None => {
            let mut text: String = "expected a /dev/videoN path, got ".to_owned();
            text.append(name);
            Err(text)
        },
    }
}

/// What to do next when a camera is selected among those that are present.
#[derive(Clone, Copy, Debug, PartialEq, Eq, Structural)]
pub enum SearchStep {
    /// Try to open the camera in this place.
    Open(usize),
    /// Use the camera in this place.
    Use(usize),
    /// No camera can be used.
    NoneUsable,
}

/// The step after a camera was tried, given its place among `count` cameras
/// and whether it opened; the first step if none was tried yet.
pub open spec fn step_after(count: usize, tried: Option<(usize, bool)>) -> SearchStep {
    match tried {
        Some((place, true)) => SearchStep::Use(place),
        Some((place, false)) => if place + 1 < count {
            SearchStep::Open((place + 1) as usize)
        } else {
            SearchStep::NoneUsable
        },
        None => if count > 0 {
            SearchStep::Open(0)
        } else {
            SearchStep::NoneUsable
        },
    }
}

/// Selects a camera by trying them in order. One webcam commonly shows up as
/// several devices, not all of which capture.
pub fn auto_detect_step(count: usize, tried: Option<(usize, bool)>) -> (r: SearchStep)
    ensures
        r == step_after(count, tried),
{
    match tried {
        Some((place, opened)) => {
            if opened {
                SearchStep::Use(place)
            } else if place < count && place + 1 < count {
                SearchStep::Open(place + 1)
            } else {
                SearchStep::NoneUsable
            }
        },
        None => {
            if count > 0 {
                SearchStep::Open(0)
            } else {
                SearchStep::NoneUsable
            }
        },
    }
}

/// Where a search ends that goes on after `tried`, if `opens` tells which
/// cameras can be opened.
pub open spec fn search_result(opens: Seq<bool>, tried: Option<(usize, bool)>) -> Option<usize>
    decreases
            match tried {
                None => opens.len() as int + 1,
                Some((place, _)) => opens.len() - place,
            },
{
    match step_after(opens.len() as usize, tried) {
        SearchStep::Open(place) => if place < opens.len() {
            search_result(opens, Some((place, opens[place as int])))
        } else {
            None
        },
        SearchStep::Use(place) => Some(place),
        SearchStep::NoneUsable => None,
    }
}

/// The rest of a search from a camera on.
proof fn search_goes_on(opens: Seq<bool>, place: usize)
    requires
        place < opens.len() <= usize::MAX,
    ensures
        match search_result(opens, Some((place, opens[place as int]))) {
            Some(found) => place <= found < opens.len() && opens[found as int] && forall|i: int|
                place <= i < found ==> !#[trigger] opens[i],
            None => forall|i: int| place <= i < opens.len() ==> !#[trigger] opens[i],
        },
    decreases opens.len() - place,
{
    if !opens[place as int] && place + 1 < opens.len() {
        search_goes_on(opens, (place + 1) as usize);
    }
}

/// The selected camera is the first that opens, and one is selected whenever
/// one opens.
pub proof fn first_usable_camera_is_selected(opens: Seq<bool>)
    requires
        opens.len() <= usize::MAX,
    ensures
        match search_result(opens, None) {
            Some(found) => found < opens.len() && opens[found as int] && forall|i: int|
                0 <= i < found ==> !#[trigger] opens[i],
            None => forall|i: int| 0 <= i < opens.len() ==> !#[trigger] opens[i],
        },
{
    if opens.len() > 0 {
        search_goes_on(opens, 0);
    }
}

/// Every camera can be named: the device path with a number behind it stands
/// for that number.
pub proof fn numbered_device_names_its_camera(n: u32)
    ensures
        camera_index("/dev/video"@ + crate::text::decimal(n as nat)) == Some(n as int),
{
    reveal_strlit("/dev/video");
    let digits = crate::text::decimal(n as nat);
    let name = "/dev/video"@ + digits;
    crate::text::decimal_reads_back(n as nat);
    assert(name.skip(10) =~= digits);
    assert(name.subrange(0, 10) =~= "/dev/video"@);
}

/// No other name stands for a camera: what is accepted is the device path and
/// digits, which read back as the camera's number.
pub proof fn only_device_paths_are_accepted(name: Seq<char>)
    ensures
        match camera_index(name) {
            Some(n) => exists|digits: Seq<char>|
                {
                    &&& name == "/dev/video"@ + digits
                    &&& digits.len() > 0
                    &&& all_digits(digits)
                    &&& #[trigger] digits_value(digits) == n
                    &&& 0 <= n <= u32::MAX
                },
            None => forall|digits: Seq<char>|
                name == "/dev/video"@ + digits && digits.len() > 0 && all_digits(digits)
                    ==> #[trigger] digits_value(digits) > u32::MAX,
        },
{
    reveal_strlit("/dev/video");
    let rest = name.skip(10);
    if camera_index(name) is Some {
        assert(name.subrange(0, 10) == "/dev/video"@);
        assert(name =~= "/dev/video"@ + rest);
        value_grows(rest, rest.len() as int);
        assert(rest.take(rest.len() as int) =~= rest);
        assert(digits_value(rest) == digits_value(rest));
    } else {
        assert forall|digits: Seq<char>|
            name == "/dev/video"@ + digits && digits.len() > 0 && all_digits(
                digits,
            ) implies #[trigger] digits_value(digits) > u32::MAX by {
            assert(name.skip(10) =~= digits);
            assert(name.subrange(0, 10) =~= "/dev/video"@);
        }
    }
}

/// A digit more makes ten times the number and the digit.
pub proof fn digit_by_digit(digits: Seq<char>, d: nat)
    requires
        d < 10,
    ensures
        digits_value(digits.push(crate::text::digit(d))) == 10 * digits_value(digits) + d,
        digits_value(Seq::<char>::empty()) == 0,
        all_digits(seq![crate::text::digit(d)]),
{
    let more = digits.push(crate::text::digit(d));
    assert(more.drop_last() =~= digits);
}

} // verus!
