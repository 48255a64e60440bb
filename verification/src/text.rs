//! Text building blocks: comparison, decimal numbers, and alphabetical lists.

use vstd::prelude::*;
use vstd::string::*;

verus! {

/// Whether `a` comes strictly before `b` in alphabetical order, comparing
/// code points from the left and putting a proper prefix first.
pub open spec fn lex_less(a: Seq<char>, b: Seq<char>) -> bool
    decreases a.len(),
{
    if b.len() == 0 {
        false
    } else if a.len() == 0 {
        true
    } else if a[0] != b[0] {
        (a[0] as int) < (b[0] as int)
    } else {
        lex_less(a.drop_first(), b.drop_first())
    }
}

/// The texts held by a list of strings.
pub open spec fn texts(list: Seq<String>) -> Seq<Seq<char>> {
    Seq::new(list.len(), |i: int| list[i]@)
}

/// The texts held by a list of string slices.
pub open spec fn slice_texts(list: Seq<&str>) -> Seq<Seq<char>> {
    Seq::new(list.len(), |i: int| list[i]@)
}

/// Whether a list is in alphabetical order without repetition.
pub open spec fn alphabetical(list: Seq<Seq<char>>) -> bool {
    forall|i: int, j: int| 0 <= i < j < list.len() ==> lex_less(#[trigger] list[i], #[trigger] list[j])
}

/// `list` with `text` put in front of the first entry that is not before it,
/// unless that entry is `text` already.
pub open spec fn with_text(list: Seq<Seq<char>>, text: Seq<char>) -> Seq<Seq<char>>
    decreases list.len(),
{
    if list.len() == 0 {
        seq![text]
    } else if list[0] == text {
        list
    } else if lex_less(text, list[0]) {
        seq![text] + list
    } else {
        seq![list[0]] + with_text(list.drop_first(), text)
    }
}

/// The entries of `list`, each once, in alphabetical order.
pub open spec fn sorted_unique(list: Seq<Seq<char>>) -> Seq<Seq<char>>
    decreases list.len(),
{
    if list.len() == 0 {
        seq![]
    } else {
        with_text(sorted_unique(list.drop_last()), list.last())
    }
}

/// The decimal digit `d` as a character.
pub open spec fn digit(d: nat) -> char {
    if d == 0 {
        '0'
    } else if d == 1 {
        '1'
    } else if d == 2 {
        '2'
    } else if d == 3 {
        '3'
    } else if d == 4 {
        '4'
    } else if d == 5 {
        '5'
    } else if d == 6 {
        '6'
    } else if d == 7 {
        '7'
    } else if d == 8 {
        '8'
    } else {
        '9'
    }
}

/// `n` in decimal notation, without leading zeros.
pub open spec fn decimal(n: nat) -> Seq<char>
    decreases n,
{
    if n < 10 {
        seq![digit(n)]
    } else {
        decimal(n / 10).push(digit(n % 10))
    }
}

/// The last `width` decimal digits of `n`, with leading zeros.
pub open spec fn zero_padded(n: nat, width: nat) -> Seq<char>
    decreases width,
{
    if width == 0 {
        seq![]
    } else {
        zero_padded(n / 10, (width - 1) as nat).push(digit(n % 10))
    }
}

/// Nothing comes before itself.
pub proof fn lex_less_irreflexive(a: Seq<char>)
    ensures
        !lex_less(a, a),
    decreases a.len(),
{
    if a.len() > 0 {
        lex_less_irreflexive(a.drop_first());
    }
}

/// Alphabetical order is transitive.
pub proof fn lex_less_transitive(a: Seq<char>, b: Seq<char>, c: Seq<char>)
    requires
        lex_less(a, b),
        lex_less(b, c),
    ensures
        lex_less(a, c),
    decreases a.len(),
{
    if a.len() > 0 && b.len() > 0 && c.len() > 0 && a[0] == b[0] && b[0] == c[0] {
        lex_less_transitive(a.drop_first(), b.drop_first(), c.drop_first());
    }
}

/// Of two different texts one comes before the other.
pub proof fn lex_less_total(a: Seq<char>, b: Seq<char>)
    ensures
        a == b || lex_less(a, b) || lex_less(b, a),
    decreases a.len(),
{
    if a.len() > 0 && b.len() > 0 {
        if a[0] == b[0] {
            lex_less_total(a.drop_first(), b.drop_first());
            if a.drop_first() == b.drop_first() {
                assert(a =~= seq![a[0]] + a.drop_first());
                assert(b =~= seq![b[0]] + b.drop_first());
            }
        }
    } else if a.len() == 0 && b.len() == 0 {
        assert(a =~= b);
    }
}

/// Putting a text into an alphabetical list leaves the list alphabetical and
/// adds exactly that text.
pub proof fn with_text_keeps_order(list: Seq<Seq<char>>, text: Seq<char>)
    requires
        alphabetical(list),
    ensures
        alphabetical(with_text(list, text)),
        with_text(list, text).to_set() =~= list.to_set().insert(text),
    decreases list.len(),
{
    let out = with_text(list, text);
    if list.len() == 0 {
        assert(out.to_set() =~= list.to_set().insert(text)) by {
            assert(out[0] == text);
        }
    } else if list[0] == text {
        assert(list.to_set().contains(text));
        assert(list.to_set().insert(text) =~= list.to_set());
    } else if lex_less(text, list[0]) {
        assert forall|i: int, j: int| 0 <= i < j < out.len() implies lex_less(
            #[trigger] out[i],
            #[trigger] out[j],
        ) by {
            if i == 0 {
                if j > 1 {
                    assert(lex_less(list[0], list[j - 1]));
                    lex_less_transitive(text, list[0], list[j - 1]);
                }
            } else {
                assert(lex_less(list[i - 1], list[j - 1]));
            }
        }
        assert forall|x: Seq<char>| out.to_set().contains(x) <==> list.to_set().insert(
            text,
        ).contains(x) by {
            if list.to_set().contains(x) {
                let i = list.index_of(x);
                assert(out[i + 1] == x);
            }
            if x == text {
                assert(out[0] == x);
            }
            if out.to_set().contains(x) {
                let i = out.index_of(x);
                if i > 0 {
                    assert(list[i - 1] == x);
                }
            }
        }
    } else {
        let rest = list.drop_first();
        assert(alphabetical(rest)) by {
            assert forall|i: int, j: int| 0 <= i < j < rest.len() implies lex_less(
                #[trigger] rest[i],
                #[trigger] rest[j],
            ) by {
                assert(lex_less(list[i + 1], list[j + 1]));
            }
        }
        with_text_keeps_order(rest, text);
        lex_less_total(text, list[0]);
        let tail = with_text(rest, text);
        assert forall|i: int, j: int| 0 <= i < j < out.len() implies lex_less(
            #[trigger] out[i],
            #[trigger] out[j],
        ) by {
            if i == 0 {
                assert(tail[j - 1] == out[j]);
                assert(tail.to_set().contains(tail[j - 1]));
                if tail[j - 1] != text {
                    assert(rest.to_set().contains(tail[j - 1]));
                    let k = rest.index_of(tail[j - 1]);
                    assert(lex_less(list[0], list[k + 1]));
                }
            } else {
                assert(lex_less(tail[i - 1], tail[j - 1]));
            }
        }
        assert forall|x: Seq<char>| out.to_set().contains(x) <==> list.to_set().insert(
            text,
        ).contains(x) by {
            if out.to_set().contains(x) {
                let i = out.index_of(x);
                if i == 0 {
                    assert(list[0] == x);
                } else {
                    assert(tail[i - 1] == x);
                    assert(tail.to_set().contains(x));
                    if x != text {
                        assert(rest.to_set().contains(x));
                        let k = rest.index_of(x);
                        assert(list[k + 1] == x);
                    }
                }
            }
            if list.to_set().insert(text).contains(x) {
                if x == list[0] {
                    assert(out[0] == x);
                } else {
                    if x != text {
                        let k = list.index_of(x);
                        assert(rest[k - 1] == x);
                        assert(rest.to_set().contains(x));
                    }
                    assert(tail.to_set().contains(x));
                    let k = tail.index_of(x);
                    assert(out[k + 1] == x);
                }
            }
        }
    }
}

/// `sorted_unique` is alphabetical and holds exactly the given entries.
pub proof fn sorted_unique_is_sorted_set(list: Seq<Seq<char>>)
    ensures
        alphabetical(sorted_unique(list)),
        sorted_unique(list).to_set() =~= list.to_set(),
    decreases list.len(),
{
    if list.len() == 0 {
        assert(sorted_unique(list) =~= list);
    } else {
        let init = list.drop_last();
        sorted_unique_is_sorted_set(init);
        with_text_keeps_order(sorted_unique(init), list.last());
        assert forall|x: Seq<char>| init.to_set().insert(list.last()).contains(x)
            <==> list.to_set().contains(x) by {
            if list.to_set().contains(x) {
                let i = list.index_of(x);
                if i < init.len() {
                    assert(init[i] == x);
                }
            }
            if init.to_set().contains(x) {
                let i = init.index_of(x);
                assert(list[i] == x);
            }
            if x == list.last() {
                assert(list[list.len() - 1] == x);
            }
        }
    }
}

/// An alphabetical list is determined by the set of its entries.
pub proof fn alphabetical_is_canonical(a: Seq<Seq<char>>, b: Seq<Seq<char>>)
    requires
        alphabetical(a),
        alphabetical(b),
        a.to_set() =~= b.to_set(),
    ensures
        a == b,
    decreases a.len(),
{
    if a.len() == 0 {
        if b.len() > 0 {
            assert(b.to_set().contains(b[0]));
            assert(a.to_set().contains(b[0]));
        }
        assert(a =~= b);
    } else {
        assert(a.to_set().contains(a[0]));
        assert(b.to_set().contains(a[0]));
        let i = b.index_of(a[0]);
        assert(b.to_set().contains(b[0]));
        assert(a.to_set().contains(b[0]));
        let j = a.index_of(b[0]);
        if i > 0 && j > 0 {
            assert(lex_less(b[0], b[i]));
            assert(lex_less(a[0], a[j]));
            lex_less_transitive(a[0], b[0], a[0]);
            lex_less_irreflexive(a[0]);
        }
        assert(a[0] == b[0]);
        let ra = a.drop_first();
        let rb = b.drop_first();
        assert forall|x: Seq<char>| ra.to_set().contains(x) == rb.to_set().contains(x) by {
            if ra.to_set().contains(x) {
                let k = ra.index_of(x);
                assert(a[k + 1] == x);
                assert(lex_less(a[0], a[k + 1]));
                lex_less_irreflexive(a[0]);
                assert(a.to_set().contains(x));
                assert(b.to_set().contains(x));
                let m = b.index_of(x);
                assert(rb[m - 1] == x);
            }
            if rb.to_set().contains(x) {
                let k = rb.index_of(x);
                assert(b[k + 1] == x);
                assert(lex_less(b[0], b[k + 1]));
                lex_less_irreflexive(b[0]);
                assert(b.to_set().contains(x));
                assert(a.to_set().contains(x));
                let m = a.index_of(x);
                assert(ra[m - 1] == x);
            }
        }
        assert forall|p: int, q: int| 0 <= p < q < ra.len() implies lex_less(
            #[trigger] ra[p],
            #[trigger] ra[q],
        ) by {
            assert(lex_less(a[p + 1], a[q + 1]));
        }
        assert forall|p: int, q: int| 0 <= p < q < rb.len() implies lex_less(
            #[trigger] rb[p],
            #[trigger] rb[q],
        ) by {
            assert(lex_less(b[p + 1], b[q + 1]));
        }
        alphabetical_is_canonical(ra, rb);
        assert(a =~= seq![a[0]] + ra);
        assert(b =~= seq![b[0]] + rb);
    }
}

/// Whether two texts are the same.
pub fn same_text(a: &str, b: &str) -> (r: bool)
    ensures
        r == (a@ == b@),
{
    let len: usize = a.unicode_len();
    if len != b.unicode_len() {
        return false;
    }
    let mut i: usize = 0;
    while i < len
        invariant
            i <= len,
            len == a@.len(),
            len == b@.len(),
            forall|k: int| 0 <= k < i ==> a@[k] == b@[k],
        decreases len - i,
    {
        if a.get_char(i) != b.get_char(i) {
            return false;
        }
        i = i + 1;
    }
    assert(a@ =~= b@);
    true
}

/// Whether `a` comes strictly before `b` in alphabetical order.
pub fn comes_before(a: &str, b: &str) -> (r: bool)
    ensures
        r == lex_less(a@, b@),
{
    let a_len: usize = a.unicode_len();
    let b_len: usize = b.unicode_len();
    let mut i: usize = 0;
    assert(a@.skip(0) =~= a@);
    assert(b@.skip(0) =~= b@);
    while i < a_len && i < b_len
        invariant
            i <= a_len,
            i <= b_len,
            a_len == a@.len(),
            b_len == b@.len(),
            lex_less(a@, b@) == lex_less(a@.skip(i as int), b@.skip(i as int)),
        decreases a_len - i,
    {
        let x: char = a.get_char(i);
        let y: char = b.get_char(i);
        assert(a@.skip(i as int)[0] == x);
        assert(b@.skip(i as int)[0] == y);
        if x != y {
            return (x as u32) < (y as u32);
        }
        assert(a@.skip(i as int).drop_first() =~= a@.skip(i + 1));
        assert(b@.skip(i as int).drop_first() =~= b@.skip(i + 1));
        i = i + 1;
    }
    i < b_len
}

/// Puts `text` into a list, in front of the first entry that is not before
/// it, unless that entry is `text` already.
pub fn insert_text(list: &mut Vec<String>, text: &str)
    ensures
        texts(final(list)@) == with_text(texts(old(list)@), text@),
{
    let ghost before = texts(list@);
    let mut i: usize = 0;
    assert(before.skip(0) =~= before);
    assert(before.take(0) + with_text(before.skip(0), text@) =~= with_text(before, text@));
    while i < list.len()
        invariant
            i <= list@.len(),
            list@ == old(list)@,
            before == texts(list@),
            with_text(before, text@) == before.take(i as int) + with_text(
                before.skip(i as int),
                text@,
            ),
        decreases list@.len() - i,
    {
        let ghost rest = before.skip(i as int);
        assert(rest[0] == list@[i as int]@);
        if same_text(list[i].as_str(), text) {
            assert(before.take(i as int) + rest =~= before);
            return;
        }
        if comes_before(text, list[i].as_str()) {
            list.insert(i, text.to_owned());
            assert(texts(list@) =~= before.take(i as int) + (seq![text@] + rest));
            return;
        }
        assert(rest.drop_first() =~= before.skip(i + 1));
        assert(before.take(i as int) + (seq![rest[0]] + with_text(rest.drop_first(), text@))
            =~= before.take(i + 1) + with_text(before.skip(i + 1), text@));
        i = i + 1;
    }
    assert(before.take(i as int) =~= before);
    list.push(text.to_owned());
    assert(texts(list@) =~= before + seq![text@]);
}

/// The entries of `list`, each once, in alphabetical order.
pub fn sort_unique(list: &[&str]) -> (r: Vec<String>)
    ensures
        texts(r@) == sorted_unique(slice_texts(list@)),
{
    let mut out: Vec<String> = Vec::new();
    let mut i: usize = 0;
    let ghost all = slice_texts(list@);
    assert(texts(out@) =~= sorted_unique(all.take(0)));
    while i < list.len()
        invariant
            i <= list@.len(),
            all == slice_texts(list@),
            texts(out@) == sorted_unique(all.take(i as int)),
        decreases list@.len() - i,
    {
        insert_text(&mut out, list[i]);
        assert(all.take(i + 1).drop_last() =~= all.take(i as int));
        i = i + 1;
    }
    assert(all.take(i as int) =~= all);
    out
}

/// The text of one decimal digit.
fn digit_text(d: u8) -> (r: &'static str)
    requires
        d < 10,
    ensures
        r@ == seq![digit(d as nat)],
{
    proof {
        reveal_strlit("0");
        reveal_strlit("1");
        reveal_strlit("2");
        reveal_strlit("3");
        reveal_strlit("4");
        reveal_strlit("5");
        reveal_strlit("6");
        reveal_strlit("7");
        reveal_strlit("8");
        reveal_strlit("9");
    }
    let r: &'static str = match d {
        0 => "0",
        1 => "1",
        2 => "2",
        3 => "3",
        4 => "4",
        5 => "5",
        6 => "6",
        7 => "7",
        8 => "8",
        _ => "9",
    };
    assert(r@ =~= seq![digit(d as nat)]);
    r
}

/// Appends `n` in decimal notation.
pub fn push_decimal(out: &mut String, n: u64)
    ensures
        final(out)@ == old(out)@ + decimal(n as nat),
    decreases n,
{
    if n >= 10 {
        push_decimal(out, n / 10);
    }
    out.append(digit_text((n % 10) as u8));
    assert(out@ =~= old(out)@ + decimal(n as nat));
}

/// Whether a character is white space, by the Unicode property.
pub open spec fn white_space(c: char) -> bool {
    let n = c as int;
    ||| 0x9 <= n <= 0xd
    ||| n == 0x20
    ||| n == 0x85
    ||| n == 0xa0
    ||| n == 0x1680
    ||| 0x2000 <= n <= 0x200a
    ||| n == 0x2028
    ||| n == 0x2029
    ||| n == 0x202f
    ||| n == 0x205f
    ||| n == 0x3000
}

/// A text without white space at its end.
pub open spec fn trimmed_end(text: Seq<char>) -> Seq<char>
    decreases text.len(),
{
    if text.len() > 0 && white_space(text.last()) {
        trimmed_end(text.drop_last())
    } else {
        text
    }
}

/// A text without white space at its start.
pub open spec fn trimmed_start(text: Seq<char>) -> Seq<char>
    decreases text.len(),
{
    if text.len() > 0 && white_space(text[0]) {
        trimmed_start(text.drop_first())
    } else {
        text
    }
}

/// A text without white space at either end.
pub open spec fn trimmed(text: Seq<char>) -> Seq<char> {
    trimmed_start(trimmed_end(text))
}

/// Whether a character is white space.
fn is_white_space(c: char) -> (r: bool)
    ensures
        r == white_space(c),
{
    let n: u32 = c as u32;
    (0x9 <= n && n <= 0xd) || n == 0x20 || n == 0x85 || n == 0xa0 || n == 0x1680 || (0x2000 <= n
        && n <= 0x200a) || n == 0x2028 || n == 0x2029 || n == 0x202f || n == 0x205f || n == 0x3000
}

/// `text` without white space at either end.
pub fn trim(text: &str) -> (r: &str)
    ensures
        r@ == trimmed(text@),
{
    let len: usize = text.unicode_len();
    let mut end: usize = len;
    assert(text@.take(end as int) =~= text@);
    while end > 0 && is_white_space(text.get_char(end - 1))
        invariant
            end <= text@.len(),
            trimmed_end(text@.take(end as int)) == trimmed_end(text@),
        decreases end,
    {
        let ghost head = text@.take(end as int);
        end = end - 1;
        assert(head.drop_last() =~= text@.take(end as int));
    }
    let ghost kept = text@.take(end as int);
    assert(kept == trimmed_end(text@));
    let mut start: usize = 0;
    assert(text@.subrange(0, end as int) =~= kept);
    while start < end && is_white_space(text.get_char(start))
        invariant
            start <= end <= text@.len(),
            trimmed_start(text@.subrange(start as int, end as int)) == trimmed_start(kept),
        decreases end - start,
    {
        let ghost tail = text@.subrange(start as int, end as int);
        start = start + 1;
        assert(tail.drop_first() =~= text@.subrange(start as int, end as int));
    }
    text.substring_char(start, end)
}

/// Puts a copy of `text` at the end of a list.
pub fn push_text(list: &mut Vec<String>, text: &str)
    ensures
        texts(final(list)@) == texts(old(list)@).push(text@),
{
    list.push(text.to_owned());
    assert(texts(list@) =~= texts(old(list)@).push(text@));
}

/// A number in decimal notation reads back as itself, and so does it with
/// leading zeros; without them it starts with a zero only if it is zero.
pub proof fn decimal_reads_back(n: nat)
    ensures
        decimal(n).len() > 0,
        crate::capture::camera::all_digits(decimal(n)),
        crate::capture::camera::digits_value(decimal(n)) == n,
        decimal(n)[0] == '0' ==> n == 0,
        n == 0 ==> decimal(n).len() == 1,
    decreases n,
{
    let text = decimal(n);
    if n < 10 {
        assert(text.drop_last() =~= seq![]);
        assert(crate::capture::camera::digits_value(text.drop_last()) == 0);
    } else {
        let head = decimal(n / 10);
        decimal_reads_back(n / 10);
        assert(text.drop_last() =~= head);
        assert forall|i: int| 0 <= i < text.len() implies '0' as int <= #[trigger] text[i] as int
            <= '9' as int by {
            if i < head.len() {
                assert(text[i] == head[i]);
                assert('0' as int <= head[i] as int <= '9' as int);
            }
        }
        assert(text[0] == head[0]);
    }
}

/// Different numbers are written differently.
pub proof fn decimal_tells_numbers_apart(m: nat, n: nat)
    requires
        decimal(m) == decimal(n),
    ensures
        m == n,
{
    decimal_reads_back(m);
    decimal_reads_back(n);
}

/// Ten times as many numbers for each digit.
pub open spec fn power_of_ten(width: nat) -> nat
    decreases width,
{
    if width == 0 {
        1
    } else {
        10 * power_of_ten((width - 1) as nat)
    }
}

/// A number that fits its width is written with exactly that many digits, and
/// they read back as the number.
pub proof fn padded_reads_back(n: nat, width: nat)
    requires
        n < power_of_ten(width),
    ensures
        zero_padded(n, width).len() == width,
        crate::capture::camera::all_digits(zero_padded(n, width)),
        crate::capture::camera::digits_value(zero_padded(n, width)) == n,
    decreases width,
{
    let text = zero_padded(n, width);
    if width > 0 {
        let head = zero_padded(n / 10, (width - 1) as nat);
        padded_reads_back(n / 10, (width - 1) as nat);
        assert(text.drop_last() =~= head);
        assert forall|i: int| 0 <= i < text.len() implies '0' as int <= #[trigger] text[i] as int
            <= '9' as int by {
            if i < head.len() {
                assert(text[i] == head[i]);
                assert('0' as int <= head[i] as int <= '9' as int);
            }
        }
    }
}

/// Alphabetical order is decided by the first place at which two texts differ.
pub proof fn first_difference_decides(
    common: Seq<char>,
    x: char,
    y: char,
    a: Seq<char>,
    b: Seq<char>,
)
    requires
        x != y,
    ensures
        lex_less(common + seq![x] + a, common + seq![y] + b) == ((x as int) < (y as int)),
    decreases common.len(),
{
    let left = common + seq![x] + a;
    let right = common + seq![y] + b;
    if common.len() > 0 {
        let rest = common.drop_first();
        first_difference_decides(rest, x, y, a, b);
        assert(left.drop_first() =~= rest + seq![x] + a);
        assert(right.drop_first() =~= rest + seq![y] + b);
    }
}

/// A text comes before everything that it is the beginning of.
pub proof fn beginning_comes_first(text: Seq<char>, more: Seq<char>)
    ensures
        lex_less(text, text + more) == (more.len() > 0),
    decreases text.len(),
{
    if text.len() > 0 {
        beginning_comes_first(text.drop_first(), more);
        assert((text + more).drop_first() =~= text.drop_first() + more);
    } else {
        assert(text + more =~= more);
    }
}

/// Whether a text is white space throughout.
pub open spec fn blank(text: Seq<char>) -> bool {
    forall|i: int| 0 <= i < text.len() ==> white_space(#[trigger] text[i])
}

/// What is cut off the end of a text is white space, and what is left does not
/// end in any.
proof fn end_is_trimmed(text: Seq<char>) -> (tail: Seq<char>)
    ensures
        text == trimmed_end(text) + tail,
        blank(tail),
        trimmed_end(text).len() > 0 ==> !white_space(trimmed_end(text).last()),
    decreases text.len(),
{
    if text.len() > 0 && white_space(text.last()) {
        let tail = end_is_trimmed(text.drop_last());
        let more = tail.push(text.last());
        assert(text =~= trimmed_end(text) + more) by {
            assert(text =~= text.drop_last().push(text.last()));
        }
        assert forall|i: int| 0 <= i < more.len() implies white_space(#[trigger] more[i]) by {
            if i < tail.len() {
                assert(white_space(tail[i]));
            }
        }
        more
    } else {
        assert(text =~= text + Seq::<char>::empty());
        seq![]
    }
}

/// What is cut off the start of a text is white space, and what is left does
/// not start with any; its end stays.
proof fn start_is_trimmed(text: Seq<char>) -> (head: Seq<char>)
    ensures
        text == head + trimmed_start(text),
        blank(head),
        trimmed_start(text).len() > 0 ==> !white_space(trimmed_start(text)[0])
            && trimmed_start(text).last() == text.last(),
    decreases text.len(),
{
    if text.len() > 0 && white_space(text[0]) {
        let rest = text.drop_first();
        let head = start_is_trimmed(rest);
        let more = seq![text[0]] + head;
        assert(text =~= seq![text[0]] + rest);
        assert(text =~= more + trimmed_start(text));
        assert forall|i: int| 0 <= i < more.len() implies white_space(#[trigger] more[i]) by {
            if i > 0 {
                assert(white_space(head[i - 1]));
            }
        }
        more
    } else {
        assert(text =~= Seq::<char>::empty() + text);
        seq![]
    }
}

/// Trimming takes white space off both ends and nothing else: what is left
/// neither starts nor ends with any.
pub proof fn trimming_takes_white_space_alone(text: Seq<char>)
    ensures
        exists|head: Seq<char>, tail: Seq<char>|
            #![trigger blank(head), blank(tail)]
            blank(head) && blank(tail) && text == head + trimmed(text) + tail,
        trimmed(text).len() > 0 ==> !white_space(trimmed(text)[0]) && !white_space(
            trimmed(text).last(),
        ),
{
    let tail = end_is_trimmed(text);
    let head = start_is_trimmed(trimmed_end(text));
    assert(blank(head) && blank(tail) && text == head + trimmed(text) + tail);
}

/// Line breaks, tabs and blanks are white space; what shows in ASCII is not,
/// nor is anything that takes more than sixteen bits.
pub proof fn what_shows_is_no_white_space(c: char)
    ensures
        c as int == 0x20 || 0x9 <= c as int <= 0xd ==> white_space(c),
        c as int <= 0x8 || 0xe <= c as int <= 0x1f || 0x21 <= c as int <= 0x84 ==> !white_space(c),
        c as int > 0x3000 ==> !white_space(c),
{
}

/// The texts of a list are its entries, one for one.
pub proof fn texts_are_the_entries(list: Seq<String>, slices: Seq<&str>, i: int)
    ensures
        texts(list).len() == list.len(),
        slice_texts(slices).len() == slices.len(),
        0 <= i < list.len() ==> texts(list)[i] == list[i]@,
        0 <= i < slices.len() ==> slice_texts(slices)[i] == slices[i]@,
{
}

} // verus!
