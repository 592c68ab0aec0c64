//! The text of a track or disc frame: a number, or a number and a total.
use vstd::prelude::*;
use crate::tools::text::chars_of;
use crate::tools::text::is_digit;
use crate::tools::text::string_of_range;

verus! {

/// The index of the first character of `s` from `from` on that is no digit;
/// the length if there is none.
pub open spec fn digits_end(s: Seq<char>, from: int) -> int
    decreases
            (if from < s.len() {
                s.len() - from
            } else {
                0
            }),
{
    if from < 0 || from >= s.len() {
        s.len() as int
    } else if !is_digit(s[from]) {
        from
    } else {
        digits_end(s, from + 1)
    }
}

/// The index of the first character of `s` from `from` on and before `end`
/// that is not `0`; `end` if there is none.
pub open spec fn zeros_end(s: Seq<char>, from: int, end: int) -> int
    decreases
            (if from < end {
                end - from
            } else {
                0
            }),
{
    if from < 0 || from >= end || from >= s.len() {
        end
    } else if s[from] != '0' {
        from
    } else {
        zeros_end(s, from + 1, end)
    }
}

/// The digits `s[from..end]` without the zeros in front.
pub open spec fn stripped(s: Seq<char>, from: int, end: int) -> Seq<char> {
    s.subrange(zeros_end(s, from, end), end)
}

/// The two numbers of `s`, which is `N` or `N/M` in digits, each without
/// the zeros in front; two empty strings for anything else.
pub open spec fn track_parts(s: Seq<char>) -> (Seq<char>, Seq<char>) {
    let a = digits_end(s, 0);
    if a == 0 {
        (Seq::empty(), Seq::empty())
    } else if a == s.len() {
        (stripped(s, 0, a), Seq::empty())
    } else if s[a] == '/' && a + 1 < s.len() && digits_end(s, a + 1) == s.len() {
        (stripped(s, 0, a), stripped(s, a + 1, s.len() as int))
    } else {
        (Seq::empty(), Seq::empty())
    }
}

/// The index behind the digits that start at `from`.
fn scan_digits(chars: &Vec<char>, from: usize) -> (r: usize)
    requires
        from <= chars@.len(),
    ensures
        r == digits_end(chars@, from as int),
        from <= r <= chars@.len(),
{
    let mut i: usize = from;
    while i < chars.len() && '0' <= chars[i] && chars[i] <= '9'
        invariant
            from <= i <= chars@.len(),
            digits_end(chars@, i as int) == digits_end(chars@, from as int),
        decreases chars@.len() - i,
    {
        i = i + 1;
    }
    i
}

/// The index behind the zeros that start at `from`, before `end`.
fn scan_zeros(chars: &Vec<char>, from: usize, end: usize) -> (r: usize)
    requires
        from <= end <= chars@.len(),
    ensures
        r == zeros_end(chars@, from as int, end as int),
        from <= r <= end,
{
    let mut i: usize = from;
    while i < end && chars[i] == '0'
        invariant
            from <= i <= end <= chars@.len(),
            zeros_end(chars@, i as int, end as int) == zeros_end(chars@, from as int, end as int),
        decreases end - i,
    {
        i = i + 1;
    }
    i
}

/// The digits from `from` to `end` without leading zeros.
fn strip(chars: &Vec<char>, from: usize, end: usize) -> (r: String)
    requires
        from <= end <= chars@.len(),
    ensures
        r@ == stripped(chars@, from as int, end as int),
{
    let start = scan_zeros(chars, from, end);
    string_of_range(chars, start, end)
}

/// Splits the text of a track or disc frame into number and total.
pub fn get_track_number(input: &str) -> (r: (String, String))
    ensures
        (r.0@, r.1@) == track_parts(input@),
{
    let chars = chars_of(input);
    let n: usize = chars.len();
    let a = scan_digits(&chars, 0);
    if a == 0 {
        (String::new(), String::new())
    } else if a == n {
        (strip(&chars, 0, a), String::new())
    } else if chars[a] == '/' && n - a > 1 && scan_digits(&chars, a + 1) == n {
        (strip(&chars, 0, a), strip(&chars, a + 1, n))
    } else {
        (String::new(), String::new())
    }
}

/// Digits are passed over up to the first character that is none.
pub proof fn lemma_digits_end(s: Seq<char>, from: int, end: int)
    requires
        0 <= from <= end <= s.len(),
        forall|i: int| from <= i < end ==> is_digit(#[trigger] s[i]),
        end < s.len() ==> !is_digit(s[end]),
    ensures
        digits_end(s, from) == end,
    decreases end - from,
{
    if from < end {
        lemma_digits_end(s, from + 1, end);
    }
}

/// Where the zeros in front end: at once before another character, and
/// at the end of a single zero.
pub proof fn lemma_zeros_end(s: Seq<char>, from: int, end: int)
    requires
        0 <= from < end <= s.len(),
    ensures
        s[from] != '0' ==> zeros_end(s, from, end) == from,
        s[from] == '0' && end == from + 1 ==> zeros_end(s, from, end) == end,
{
    if s[from] == '0' && end == from + 1 {
        assert(zeros_end(s, from + 1, end) == end);
    }
}

} // verus!
