//! The pattern extractor: finds, in a line of text, an integer written as a
//! fixed label followed by optional whitespace and a double-backtick code
//! span holding decimal digits (for example `Servers: ``42```).
//!
//! The grammar is: the leftmost position where `label`, then any run of
//! whitespace, then two backticks, then one or more ASCII decimal digits,
//! then two backticks occur in sequence. The digits are read as a decimal
//! number; a matched number that does not fit in `u32` yields `None` (no
//! later occurrence is tried, mirroring a single leftmost match).

use vstd::prelude::*;

verus! {

/// A whitespace character (the Unicode `White_Space` set).
pub open spec fn is_wspace(c: char) -> bool {
    let u = c as u32;
    ||| u == 9
    ||| u == 10
    ||| u == 11
    ||| u == 12
    ||| u == 13
    ||| u == 32
    ||| u == 0x85
    ||| u == 0xA0
    ||| u == 0x1680
    ||| (0x2000 <= u && u <= 0x200A)
    ||| u == 0x2028
    ||| u == 0x2029
    ||| u == 0x202F
    ||| u == 0x205F
    ||| u == 0x3000
}

/// An ASCII decimal digit.
pub open spec fn is_digit(c: char) -> bool {
    48 <= (c as u32) && (c as u32) <= 57
}

/// Numeric value of a digit character (0 for non-digits).
pub open spec fn digit_val(c: char) -> int {
    if is_digit(c) {
        c as u32 - 48
    } else {
        0
    }
}

/// Length of the maximal whitespace run in `text` starting at `i`.
pub open spec fn wspace_run(text: Seq<char>, i: int) -> int
    decreases text.len() - i,
{
    if 0 <= i < text.len() && is_wspace(text[i]) {
        1 + wspace_run(text, i + 1)
    } else {
        0
    }
}

/// Length of the maximal digit run in `text` starting at `i`.
pub open spec fn digit_run(text: Seq<char>, i: int) -> int
    decreases text.len() - i,
{
    if 0 <= i < text.len() && is_digit(text[i]) {
        1 + digit_run(text, i + 1)
    } else {
        0
    }
}

/// Whether the pattern for `label` matches in `text` starting exactly at `i`.
pub open spec fn match_at(text: Seq<char>, label: Seq<char>, i: int) -> bool {
    let a = i + label.len();
    let b = a + wspace_run(text, a);
    let s = b + 2;
    let d = digit_run(text, s);
    &&& 0 <= i
    &&& a <= text.len()
    &&& text.subrange(i, a) == label
    &&& b + 2 <= text.len()
    &&& text[b] == '`'
    &&& text[b + 1] == '`'
    &&& d >= 1
    &&& s + d + 2 <= text.len()
    &&& text[s + d] == '`'
    &&& text[s + d + 1] == '`'
}

/// The digit characters captured by a match of `label` at position `i`.
pub open spec fn capture_at(text: Seq<char>, label: Seq<char>, i: int) -> Seq<char> {
    let a = i + label.len();
    let s = a + wspace_run(text, a) + 2;
    text.subrange(s, s + digit_run(text, s))
}

/// Value of a digit string read as a decimal number.
pub open spec fn digits_value(s: Seq<char>) -> int
    decreases s.len(),
{
    if s.len() == 0 {
        0
    } else {
        digits_value(s.drop_last()) * 10 + digit_val(s.last())
    }
}

/// The capture of the leftmost match at a position `>= i`, if any.
pub open spec fn scan(text: Seq<char>, label: Seq<char>, i: int) -> Option<Seq<char>>
    decreases text.len() - i,
{
    if !(0 <= i <= text.len()) {
        None
    } else if match_at(text, label, i) {
        Some(capture_at(text, label, i))
    } else if i == text.len() {
        None
    } else {
        scan(text, label, i + 1)
    }
}

/// What the extractor returns for `label` on `text`: the value of the
/// leftmost match if it fits in `u32`, and `None` otherwise.
pub open spec fn extract_spec(label: Seq<char>, text: Seq<char>) -> Option<u32> {
    match scan(text, label, 0) {
        Some(cap) => if digits_value(cap) <= u32::MAX {
            Some(digits_value(cap) as u32)
        } else {
            None
        },
        None => None,
    }
}

fn is_wspace_exec(c: char) -> (r: bool)
    ensures
        r == is_wspace(c),
{
    let u = c as u32;
    u == 9 || u == 10 || u == 11 || u == 12 || u == 13 || u == 32 || u == 0x85 || u == 0xA0
        || u == 0x1680 || (0x2000 <= u && u <= 0x200A) || u == 0x2028 || u == 0x2029
        || u == 0x202F || u == 0x205F || u == 0x3000
}

fn is_digit_exec(c: char) -> (r: bool)
    ensures
        r == is_digit(c),
{
    let u = c as u32;
    48 <= u && u <= 57
}

/// First position at or after `start` that is not inside the whitespace run
/// beginning at `start`.
fn wspace_run_end(text: &str, start: usize) -> (e: usize)
    requires
        start <= text@.len(),
    ensures
        e == start + wspace_run(text@, start as int),
        start <= e <= text@.len(),
{
    let n = text.unicode_len();
    let mut p = start;
    while p < n && is_wspace_exec(text.get_char(p))
        invariant
            start <= p <= n,
            n == text@.len(),
            wspace_run(text@, start as int) == (p - start) + wspace_run(text@, p as int),
        decreases n - p,
    {
        p = p + 1;
    }
    p
}

/// First position at or after `start` that is not inside the digit run
/// beginning at `start`.
fn digit_run_end(text: &str, start: usize) -> (e: usize)
    requires
        start <= text@.len(),
    ensures
        e == start + digit_run(text@, start as int),
        start <= e <= text@.len(),
        forall|j: int| start <= j < e ==> is_digit(text@[j]),
{
    let n = text.unicode_len();
    let mut p = start;
    while p < n && is_digit_exec(text.get_char(p))
        invariant
            start <= p <= n,
            n == text@.len(),
            digit_run(text@, start as int) == (p - start) + digit_run(text@, p as int),
            forall|j: int| start <= j < p ==> is_digit(text@[j]),
        decreases n - p,
    {
        p = p + 1;
    }
    p
}

/// If the pattern for `label` matches in `text` at exactly position `i`,
/// the start and length of the captured digit run.
fn find_span_at(label: &str, text: &str, i: usize) -> (r: Option<(usize, usize)>)
    requires
        i <= text@.len(),
    ensures
        match r {
            Some(sd) => {
                &&& match_at(text@, label@, i as int)
                &&& sd.0 == i + label@.len() + wspace_run(text@, i + label@.len()) + 2
                &&& sd.1 == digit_run(text@, sd.0 as int)
                &&& sd.0 + sd.1 + 2 <= text@.len()
                &&& sd.1 >= 1
                &&& forall|j: int| sd.0 <= j < sd.0 + sd.1 ==> is_digit(text@[j])
            },
            None => !match_at(text@, label@, i as int),
        },
{
    let n = text.unicode_len();
    let ll = label.unicode_len();
    if ll > n - i {
        return None;
    }
    let mut j: usize = 0;
    while j < ll
        invariant
            j <= ll,
            ll == label@.len(),
            i + ll <= n,
            n == text@.len(),
            forall|k: int| 0 <= k < j ==> text@[i + k] == label@[k],
        decreases ll - j,
    {
        if text.get_char(i + j) != label.get_char(j) {
            proof {
                assert(text@.subrange(i as int, (i + ll) as int)[j as int] == text@[i + j]);
            }
            return None;
        }
        j = j + 1;
    }
    proof {
        assert(text@.subrange(i as int, (i + ll) as int) =~= label@);
    }
    let b = wspace_run_end(text, i + ll);
    if n - b < 2 {
        return None;
    }
    if text.get_char(b) != '`' || text.get_char(b + 1) != '`' {
        return None;
    }
    let s = b + 2;
    let e = digit_run_end(text, s);
    let d = e - s;
    if d == 0 {
        return None;
    }
    if n - e < 2 {
        return None;
    }
    if text.get_char(e) != '`' || text.get_char(e + 1) != '`' {
        return None;
    }
    Some((s, d))
}

proof fn lemma_digits_value_nonneg(s: Seq<char>)
    ensures
        digits_value(s) >= 0,
    decreases s.len(),
{
    if s.len() > 0 {
        lemma_digits_value_nonneg(s.drop_last());
    }
}

/// Reading more digits never lowers the value.
proof fn lemma_digits_value_extend(t: Seq<char>, s: int, j: int, e: int)
    requires
        0 <= s <= j <= e <= t.len(),
    ensures
        digits_value(t.subrange(s, e)) >= digits_value(t.subrange(s, j)),
    decreases e - j,
{
    if j < e {
        lemma_digits_value_extend(t, s, j, e - 1);
        assert(t.subrange(s, e).drop_last() =~= t.subrange(s, e - 1));
        lemma_digits_value_nonneg(t.subrange(s, e - 1));
    } else {
        assert(t.subrange(s, e) == t.subrange(s, j));
    }
}

/// Parse the digit run `text[s..s+d]` as a decimal `u32`; `None` exactly
/// when the value does not fit.
fn parse_capture(text: &str, s: usize, d: usize) -> (r: Option<u32>)
    requires
        s + d <= text@.len(),
        s + d <= usize::MAX,
        d >= 1,
        forall|j: int| s <= j < s + d ==> is_digit(text@[j]),
    ensures
        ({
            let v = digits_value(text@.subrange(s as int, (s + d) as int));
            match r {
                Some(x) => v <= u32::MAX && x == v,
                None => v > u32::MAX,
            }
        }),
{
    let mut acc: u32 = 0;
    let mut j = s;
    while j < s + d
        invariant
            s <= j <= s + d,
            s + d <= text@.len(),
            s + d <= usize::MAX,
            forall|k: int| s <= k < s + d ==> is_digit(text@[k]),
            acc == digits_value(text@.subrange(s as int, j as int)),
        decreases s + d - j,
    {
        let c = text.get_char(j);
        let dv = (c as u32) - 48;
        let next: u64 = (acc as u64) * 10 + (dv as u64);
        proof {
            assert(text@.subrange(s as int, (j + 1) as int).drop_last() =~= text@.subrange(
                s as int,
                j as int,
            ));
            assert(text@.subrange(s as int, (j + 1) as int).last() == text@[j as int]);
        }
        if next > u32::MAX as u64 {
            proof {
                lemma_digits_value_extend(text@, s as int, j + 1, (s + d) as int);
            }
            return None;
        }
        acc = next as u32;
        j = j + 1;
    }
    Some(acc)
}

/// Find the labelled integer in `text`, exactly as `extract_spec` states.
pub fn extract_int_value(label: &str, text: &str) -> (r: Option<u32>)
    ensures
        r == extract_spec(label@, text@),
{
    let n = text.unicode_len();
    let mut i: usize = 0;
    loop
        invariant
            i <= n,
            n == text@.len(),
            scan(text@, label@, 0) == scan(text@, label@, i as int),
        decreases n - i,
    {
        match find_span_at(label, text, i) {
            Some((s, d)) => {
                proof {
                    assert(capture_at(text@, label@, i as int) == text@.subrange(
                        s as int,
                        (s + d) as int,
                    ));
                }
                return parse_capture(text, s, d);
            },
            None => {},
        }
        if i == n {
            return None;
        }
        i = i + 1;
    }
}

} // verus!
