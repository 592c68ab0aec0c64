//! Release dates as ISO 8601 prefixes.
use vstd::prelude::*;
use crate::tools::text::chars_of;
use crate::tools::text::digit_char;
use crate::tools::text::digit_value;
use crate::tools::text::is_digit;
use crate::tools::text::padded;
use crate::tools::text::padded_int;
use crate::tools::text::padded_int_string;
use crate::tools::text::padded_string;

verus! {

/// A date and time of which only a leading part may be known. UTC only.
#[derive(PartialEq, Debug, Clone, Copy)]
pub struct DateTime {
    pub year: Option<i64>,
    pub month: Option<u8>,
    pub day: Option<u8>,
    pub hour: Option<u8>,
    pub minute: Option<u8>,
    pub second: Option<u8>,
}

impl View for DateTime {
    type V = DateTime;

    open spec fn view(&self) -> DateTime {
        *self
    }
}

impl Default for DateTime {
    fn default() -> (r: DateTime)
        ensures
            r == (DateTime { year: None, month: None, day: None, hour: None, minute: None,
                second: None }),
    {
        DateTime { year: None, month: None, day: None, hour: None, minute: None, second: None }
    }
}

/// The number of the two digits behind the character `lead` at `at` in `s`,
/// if that is what stands there.
pub open spec fn two_digits_after(s: Seq<char>, at: int, lead: char) -> Option<u8> {
    if 0 <= at && at + 3 <= s.len() && s[at] == lead && is_digit(s[at + 1]) && is_digit(
        s[at + 2],
    ) {
        Some((digit_value(s[at + 1]) * 10 + digit_value(s[at + 2])) as u8)
    } else {
        None
    }
}

/// The date that starts `s`: four digits of a year, then as far as they
/// follow one another `-MM`, `-DD`, `THH`, `:MM` and `:SS`. What stands
/// behind is not looked at.
pub open spec fn iso_8601_date(s: Seq<char>) -> Option<DateTime> {
    if s.len() >= 4 && is_digit(s[0]) && is_digit(s[1]) && is_digit(s[2]) && is_digit(s[3]) {
        let year = digit_value(s[0]) * 1000 + digit_value(s[1]) * 100 + digit_value(s[2]) * 10
            + digit_value(s[3]);
        let month = two_digits_after(s, 4, '-');
        let day = if month is Some {
            two_digits_after(s, 7, '-')
        } else {
            None
        };
        let hour = if day is Some {
            two_digits_after(s, 10, 'T')
        } else {
            None
        };
        let minute = if hour is Some {
            two_digits_after(s, 13, ':')
        } else {
            None
        };
        let second = if minute is Some {
            two_digits_after(s, 16, ':')
        } else {
            None
        };
        Some(DateTime { year: Some(year as i64), month, day, hour, minute, second })
    } else {
        None
    }
}

/// The text of a part of a date and of what follows it: nothing where the
/// part is not known; else what leads it in, its two digits or more, and
/// the rest.
#[verifier::opaque]
pub open spec fn part_text(lead: char, value: Option<u8>, rest: Seq<char>) -> Seq<char> {
    match value {
        None => Seq::empty(),
        Some(x) => seq![lead] + padded(x as nat, 2) + rest,
    }
}

/// The text of a date: the year in four digits or more, then as far as
/// one part follows another `-MM`, `-DD`, `THH`, `:MM` and `:SS`.
pub open spec fn iso_8601_text(d: DateTime) -> Seq<char> {
    match d.year {
        None => Seq::empty(),
        Some(year) => padded_int(year as int, 4) + part_text(
            '-',
            d.month,
            part_text(
                '-',
                d.day,
                part_text('T', d.hour,
                    part_text(':', d.minute, part_text(':', d.second, Seq::empty()))),
            ),
        ),
    }
}

/// The two digits behind the character `lead` at `at`, if they stand there.
fn two_digits(chars: &Vec<char>, at: usize, lead: char) -> (r: Option<u8>)
    requires
        at <= 16,
    ensures
        r == two_digits_after(chars@, at as int, lead),
{
    if chars.len() >= at + 3 && chars[at] == lead && '0' <= chars[at + 1] && chars[at + 1] <= '9'
        && '0' <= chars[at + 2] && chars[at + 2] <= '9' {
        let a: u32 = chars[at + 1] as u32 - 48;
        let b: u32 = chars[at + 2] as u32 - 48;
        Some((a * 10 + b) as u8)
    } else {
        None
    }
}

/// The text of one part of a date and of what follows it.
fn part_string(lead: char, value: Option<u8>, rest: String) -> (r: String)
    ensures
        r@ == part_text(lead, value, rest@),
{
    reveal(part_text);
    match value {
        None => String::new(),
        Some(x) => {
            let mut s = String::new();
            crate::tools::text::push_char(&mut s, lead);
            let digits = padded_string(x as u64, 2);
            s.append(digits.as_str());
            s.append(rest.as_str());
            proof {
                assert(s@ =~= seq![lead] + padded(x as nat, 2) + rest@);
            }
            s
        },
    }
}

impl DateTime {
    /// Whether no part is known without the parts before it, and the year
    /// has four digits and the other parts two.
    pub open spec fn well_formed(self) -> bool {
        &&& self.year is Some ==> 0 <= self.year->0 <= 9999
        &&& self.month is Some ==> self.year is Some && self.month->0 <= 99
        &&& self.day is Some ==> self.month is Some && self.day->0 <= 99
        &&& self.hour is Some ==> self.day is Some && self.hour->0 <= 99
        &&& self.minute is Some ==> self.hour is Some && self.minute->0 <= 99
        &&& self.second is Some ==> self.minute is Some && self.second->0 <= 99
    }

    /// Reads the date that `string` starts with.
    pub fn from_iso_8601(string: &str) -> (r: Option<DateTime>)
        ensures
            r == iso_8601_date(string@),
            r is Some ==> r->0.well_formed() && r->0.year is Some,
    {
        let chars = chars_of(string);
        if chars.len() < 4 {
            return None;
        }
        if !('0' <= chars[0] && chars[0] <= '9' && '0' <= chars[1] && chars[1] <= '9' && '0'
            <= chars[2] && chars[2] <= '9' && '0' <= chars[3] && chars[3] <= '9') {
            return None;
        }
        let y0: u32 = chars[0] as u32 - 48;
        let y1: u32 = chars[1] as u32 - 48;
        let y2: u32 = chars[2] as u32 - 48;
        let y3: u32 = chars[3] as u32 - 48;
        let year: i64 = (y0 * 1000 + y1 * 100 + y2 * 10 + y3) as i64;
        let month = two_digits(&chars, 4, '-');
        let day = if month.is_some() {
            two_digits(&chars, 7, '-')
        } else {
            None
        };
        let hour = if day.is_some() {
            two_digits(&chars, 10, 'T')
        } else {
            None
        };
        let minute = if hour.is_some() {
            two_digits(&chars, 13, ':')
        } else {
            None
        };
        let second = if minute.is_some() {
            two_digits(&chars, 16, ':')
        } else {
            None
        };
        Some(DateTime { year: Some(year), month, day, hour, minute, second })
    }

    /// The date as text, as `to_iso_8601` writes it.
    pub fn to_string(&self) -> (s: String)
        ensures
            s@ == iso_8601_text(*self),
    {
        self.to_iso_8601()
    }

    /// Writes the date as far as its parts follow one another.
    pub fn to_iso_8601(&self) -> (s: String)
        ensures
            s@ == iso_8601_text(*self),
    {
        match self.year {
            None => String::new(),
            Some(year) => {
                let seconds = part_string(':', self.second, String::new());
                let minutes = part_string(':', self.minute, seconds);
                let hours = part_string('T', self.hour, minutes);
                let days = part_string('-', self.day, hours);
                let months = part_string('-', self.month, days);
                let mut s = padded_int_string(year, 4);
                s.append(months.as_str());
                s
            },
        }
    }
}

/// A part of a date is read from its text: the part if it is known, and
/// nothing where the text ends.
pub proof fn lemma_part_read(s: Seq<char>, at: int, lead: char, value: Option<u8>, rest: Seq<char>)
    requires
        0 <= at <= s.len(),
        value is Some ==> value->0 <= 99,
        s.skip(at) == part_text(lead, value, rest),
    ensures
        two_digits_after(s, at, lead) == value,
        value is Some ==> at + 3 <= s.len() && s.skip(at + 3) == rest,
{
    reveal(part_text);
    match value {
        None => {
            assert(s.skip(at).len() == 0);
        },
        Some(x) => {
            lemma_part(x);
            let t = s.skip(at);
            let p = padded(x as nat, 2);
            assert(t.len() == 3 + rest.len());
            assert(t[0] == lead && t[1] == p[0] && t[2] == p[1]);
            assert(t[0] == s[at] && t[1] == s[at + 1] && t[2] == s[at + 2]);
            assert(s.skip(at + 3) =~= t.skip(3));
            assert(t.skip(3) =~= rest);
        },
    }
}

/// A date whose parts follow one another from the year on, with a year of
/// four digits at most, is read from its text as it was.
#[verifier::rlimit(50)]
pub proof fn lemma_iso_8601_roundtrip(d: DateTime)
    requires
        d.well_formed(),
        d.year is Some,
    ensures
        iso_8601_date(iso_8601_text(d)) == Some(d),
        iso_8601_text(d).len() >= 4,
{
    let year = padded_int(d.year->0 as int, 4);
    lemma_year(d.year->0);
    let seconds = part_text(':', d.second, Seq::empty());
    let minutes = part_text(':', d.minute, seconds);
    let hours = part_text('T', d.hour, minutes);
    let days = part_text('-', d.day, hours);
    let months = part_text('-', d.month, days);
    let s = iso_8601_text(d);
    assert(s == year + months);
    assert(s[0] == year[0] && s[1] == year[1] && s[2] == year[2] && s[3] == year[3]);
    assert(s.skip(4) =~= months);
    assert(iso_8601_date(s) is Some);
    assert(iso_8601_date(s)->0.year == d.year);
    lemma_part_read(s, 4, '-', d.month, days);
    if d.month is Some {
        lemma_part_read(s, 7, '-', d.day, hours);
        if d.day is Some {
            lemma_part_read(s, 10, 'T', d.hour, minutes);
            if d.hour is Some {
                lemma_part_read(s, 13, ':', d.minute, seconds);
                if d.minute is Some {
                    lemma_part_read(s, 16, ':', d.second, Seq::empty());
                }
            }
        }
    }
}

/// A year of four digits at most is written in four digits that spell it.
#[verifier::rlimit(50)]
pub proof fn lemma_year(y: i64)
    requires
        0 <= y <= 9999,
    ensures
        padded_int(y as int, 4).len() == 4,
        is_digit(padded_int(y as int, 4)[0]),
        is_digit(padded_int(y as int, 4)[1]),
        is_digit(padded_int(y as int, 4)[2]),
        is_digit(padded_int(y as int, 4)[3]),
        digit_value(padded_int(y as int, 4)[0]) * 1000 + digit_value(padded_int(y as int, 4)[1])
            * 100 + digit_value(padded_int(y as int, 4)[2]) * 10 + digit_value(
            padded_int(y as int, 4)[3],
        ) == y,
{
    let n = y as nat;
    crate::tools::text::lemma_padded_four(n);
    let a = n / 1000;
    let b = n / 100 % 10;
    let c = n / 10 % 10;
    let e = n % 10;
    crate::tools::text::lemma_digit_char(a);
    crate::tools::text::lemma_digit_char(b);
    crate::tools::text::lemma_digit_char(c);
    crate::tools::text::lemma_digit_char(e);
    assert(a * 1000 + b * 100 + c * 10 + e == n) by {
        assert(n == 10 * (n / 10) + e);
        assert(n / 10 == 10 * (n / 100) + c);
        assert(n / 100 == 10 * (n / 1000) + b);
    }
    let p = padded_int(y as int, 4);
    assert(p == seq![
        crate::tools::text::digit_char(a),
        crate::tools::text::digit_char(b),
        crate::tools::text::digit_char(c),
        crate::tools::text::digit_char(e),
    ]);
    assert(p[0] == crate::tools::text::digit_char(a));
    assert(p[1] == crate::tools::text::digit_char(b));
    assert(p[2] == crate::tools::text::digit_char(c));
    assert(p[3] == crate::tools::text::digit_char(e));
}

/// A part of a date below a hundred is written in two digits that spell it.
pub proof fn lemma_part(n: u8)
    requires
        n <= 99,
    ensures
        padded(n as nat, 2).len() == 2,
        is_digit(padded(n as nat, 2)[0]),
        is_digit(padded(n as nat, 2)[1]),
        digit_value(padded(n as nat, 2)[0]) * 10 + digit_value(padded(n as nat, 2)[1]) == n,
{
    crate::tools::text::lemma_padded_two(n as nat);
    crate::tools::text::lemma_digit_char(n as nat / 10);
    crate::tools::text::lemma_digit_char(n as nat % 10);
}

/// The text of a part of a date and of what follows it holds no `c`, if
/// what follows holds none and `c` is neither a digit nor what leads in.
pub proof fn lemma_part_lacks(lead: char, value: Option<u8>, rest: Seq<char>, c: char)
    requires
        lead != c,
        !is_digit(c),
        value is Some ==> value->0 <= 99,
        crate::tools::text::lacks(rest, c),
    ensures
        crate::tools::text::lacks(part_text(lead, value, rest), c),
{
    reveal(part_text);
    match value {
        None => {},
        Some(x) => {
            lemma_part(x);
            let p = padded(x as nat, 2);
            let s = part_text(lead, value, rest);
            assert forall|i: int| 0 <= i < s.len() implies #[trigger] s[i] != c by {
                if i == 0 {
                } else if i < 3 {
                    assert(s[i] == p[i - 1]);
                } else {
                    assert(s[i] == rest[i - 3]);
                }
            }
        },
    }
}

/// The text of a well-formed date holds nothing but digits, `-`, `T` and `:`.
pub proof fn lemma_date_lacks(d: DateTime, c: char)
    requires
        d.well_formed(),
        d.year is Some,
        !is_digit(c),
        c != '-',
        c != 'T',
        c != ':',
    ensures
        crate::tools::text::lacks(iso_8601_text(d), c),
{
    let seconds = part_text(':', d.second, Seq::empty());
    lemma_part_lacks(':', d.second, Seq::empty(), c);
    let minutes = part_text(':', d.minute, seconds);
    lemma_part_lacks(':', d.minute, seconds, c);
    let hours = part_text('T', d.hour, minutes);
    lemma_part_lacks('T', d.hour, minutes, c);
    let days = part_text('-', d.day, hours);
    lemma_part_lacks('-', d.day, hours, c);
    let months = part_text('-', d.month, days);
    lemma_part_lacks('-', d.month, days, c);
    lemma_year(d.year->0);
    let year = padded_int(d.year->0 as int, 4);
    let s = iso_8601_text(d);
    assert forall|i: int| 0 <= i < s.len() implies #[trigger] s[i] != c by {
        if i < 4 {
            assert(s[i] == year[i]);
        } else {
            assert(s[i] == months[i - 4]);
        }
    }
}

} // verus!
