//! Text helpers: strings as sequences of characters.
use vstd::prelude::*;

verus! {

/// Appends one character; `String::push` of std.
#[verifier::external_body]
pub(crate) fn push_char(s: &mut String, c: char)
    ensures
        final(s)@ == old(s)@.push(c),
{
    s.push(c)
}

/// The characters of `s`, in order.
pub fn chars_of(s: &str) -> (v: Vec<char>)
    ensures
        v@ == s@,
{
    let mut v: Vec<char> = Vec::new();
    for c in it: s.chars()
        invariant
            v@ == it.seq().take(it.index()),
            it.seq() == s@,
    {
        v.push(c);
    }
    v
}

/// The string made of `chars`.
pub fn string_of(chars: &Vec<char>) -> (s: String)
    ensures
        s@ == chars@,
{
    let mut s = String::new();
    let mut i: usize = 0;
    while i < chars.len()
        invariant
            i <= chars@.len(),
            s@ == chars@.take(i as int),
        decreases chars@.len() - i,
    {
        push_char(&mut s, chars[i]);
        i = i + 1;
        proof {
            assert(chars@.take(i as int) =~= chars@.take(i - 1).push(chars@[i - 1]));
        }
    }
    proof {
        assert(chars@.take(i as int) =~= chars@);
    }
    s
}

/// Whether two strings hold the same characters.
pub fn str_eq(a: &str, b: &str) -> (r: bool)
    ensures
        r == (a@ == b@),
{
    let x = a.as_bytes();
    let y = b.as_bytes();
    if x.len() != y.len() {
        return false;
    }
    let mut i: usize = 0;
    while i < x.len()
        invariant
            i <= x@.len(),
            x@.len() == y@.len(),
            x@.take(i as int) == y@.take(i as int),
            x@ == vstd::utf8::encode_utf8(a@),
            y@ == vstd::utf8::encode_utf8(b@),
        decreases x@.len() - i,
    {
        if x[i] != y[i] {
            return false;
        }
        i = i + 1;
        proof {
            assert(x@.take(i as int) =~= x@.take(i - 1).push(x@[i - 1]));
            assert(y@.take(i as int) =~= y@.take(i - 1).push(y@[i - 1]));
        }
    }
    proof {
        assert(x@.take(i as int) =~= x@);
        assert(y@.take(i as int) =~= y@);
        vstd::utf8::encode_utf8_decode_utf8(a@);
        vstd::utf8::encode_utf8_decode_utf8(b@);
    }
    true
}


/// `s` without the NUL characters at its end.
pub open spec fn trim_nul(s: Seq<char>) -> Seq<char>
    decreases s.len(),
{
    if s.len() > 0 && s.last() == '\0' {
        trim_nul(s.drop_last())
    } else {
        s
    }
}

/// `s` with " / " in place of each NUL character.
pub open spec fn replace_nul(s: Seq<char>) -> Seq<char>
    decreases s.len(),
{
    if s.len() == 0 {
        s
    } else if s.last() == '\0' {
        replace_nul(s.drop_last()) + seq![' ', '/', ' ']
    } else {
        replace_nul(s.drop_last()).push(s.last())
    }
}

/// Whether `c` is one of `0` to `9`.
pub open spec fn is_digit(c: char) -> bool {
    '0' <= c <= '9'
}

/// The value of the digit `c`.
pub open spec fn digit_value(c: char) -> nat {
    (c as u32 - 48) as nat
}

/// The character of the digit `d`, below ten.
pub open spec fn digit_char(d: nat) -> char {
    ((48 + d) as u8) as char
}

/// Whether `s` holds digits only.
pub open spec fn all_digits(s: Seq<char>) -> bool {
    forall|i: int| 0 <= i < s.len() ==> is_digit(#[trigger] s[i])
}

/// The number that the digits `s` spell in base ten.
pub open spec fn digits_value(s: Seq<char>) -> nat
    decreases s.len(),
{
    if s.len() == 0 {
        0
    } else {
        digits_value(s.drop_last()) * 10 + digit_value(s.last())
    }
}

/// `n` in base ten, without leading zeros.
pub open spec fn decimal(n: nat) -> Seq<char>
    decreases n,
{
    if n < 10 {
        seq![digit_char(n)]
    } else {
        decimal(n / 10).push(digit_char(n % 10))
    }
}

/// `n` in base ten with its sign, as `i64` prints.
pub open spec fn decimal_int(n: int) -> Seq<char> {
    if n < 0 {
        seq!['-'] + decimal((-n) as nat)
    } else {
        decimal(n as nat)
    }
}

/// `n` in base ten, with zeros in front up to `width` characters.
pub open spec fn padded(n: nat, width: nat) -> Seq<char> {
    let d = decimal(n);
    if d.len() < width {
        Seq::new((width - d.len()) as nat, |i: int| '0') + d
    } else {
        d
    }
}

/// `n` with its sign and with zeros behind the sign up to `width`
/// characters in all, as the format `{:0width}` prints an integer.
pub open spec fn padded_int(n: int, width: nat) -> Seq<char> {
    if n < 0 {
        seq!['-'] + padded((-n) as nat, if width > 0 { (width - 1) as nat } else { 0 })
    } else {
        padded(n as nat, width)
    }
}

/// The number that `s` spells as `i64` reads it: an optional sign, then
/// one digit or more, within the range of the type.
pub open spec fn parse_i64(s: Seq<char>) -> Option<i64> {
    let negative = s.len() > 0 && s[0] == '-';
    let body = if s.len() > 0 && (s[0] == '-' || s[0] == '+') {
        s.drop_first()
    } else {
        s
    };
    let value = if negative {
        -(digits_value(body) as int)
    } else {
        digits_value(body) as int
    };
    if body.len() > 0 && all_digits(body) && i64::MIN <= value <= i64::MAX {
        Some(value as i64)
    } else {
        None
    }
}

/// `c` in lower case if it is one of `A` to `Z`, else `c`.
pub open spec fn lower_char(c: char) -> char {
    if 'A' <= c <= 'Z' {
        ((c as u32 + 32) as u8) as char
    } else {
        c
    }
}

/// `c` in upper case if it is one of `a` to `z`, else `c`.
pub open spec fn upper_char(c: char) -> char {
    if 'a' <= c <= 'z' {
        ((c as u32 - 32) as u8) as char
    } else {
        c
    }
}

/// `s` with its ASCII letters in lower case.
pub open spec fn lower_ascii(s: Seq<char>) -> Seq<char> {
    Seq::new(s.len(), |i: int| lower_char(s[i]))
}

/// The string of `chars[from..to]`.
pub fn string_of_range(chars: &Vec<char>, from: usize, to: usize) -> (s: String)
    requires
        from <= to <= chars@.len(),
    ensures
        s@ == chars@.subrange(from as int, to as int),
{
    let mut s = String::new();
    let mut i: usize = from;
    while i < to
        invariant
            from <= i <= to <= chars@.len(),
            s@ == chars@.subrange(from as int, i as int),
        decreases to - i,
    {
        push_char(&mut s, chars[i]);
        i = i + 1;
        proof {
            assert(chars@.subrange(from as int, i as int) =~= chars@.subrange(
                from as int,
                i - 1,
            ).push(chars@[i - 1]));
        }
    }
    s
}

/// Trimming stops at the last character that is not NUL.
pub proof fn lemma_trim_nul(s: Seq<char>, end: int)
    requires
        0 <= end <= s.len(),
        forall|i: int| end <= i < s.len() ==> s[i] == '\0',
        end > 0 ==> s[end - 1] != '\0',
    ensures
        trim_nul(s) == s.subrange(0, end),
    decreases s.len() - end,
{
    if end == s.len() {
        assert(s.subrange(0, end) =~= s);
    } else {
        lemma_trim_nul(s.drop_last(), end);
        assert(s.drop_last().subrange(0, end) =~= s.subrange(0, end));
    }
}

/// Drops the NUL characters at the end of `s`.
pub fn trim_end_nul(s: &str) -> (r: String)
    ensures
        r@ == trim_nul(s@),
{
    let chars = chars_of(s);
    let mut end: usize = chars.len();
    while end > 0 && chars[end - 1] == '\0'
        invariant
            end <= chars@.len(),
            forall|i: int| end <= i < chars@.len() ==> chars@[i] == '\0',
        decreases end,
    {
        end = end - 1;
    }
    proof {
        lemma_trim_nul(chars@, end as int);
    }
    string_of_range(&chars, 0, end)
}

/// Puts " / " in place of each NUL character of `s`.
pub fn replace_nul_in(s: &str) -> (r: String)
    ensures
        r@ == replace_nul(s@),
{
    let chars = chars_of(s);
    let mut r = String::new();
    let mut i: usize = 0;
    while i < chars.len()
        invariant
            i <= chars@.len(),
            r@ == replace_nul(chars@.take(i as int)),
        decreases chars@.len() - i,
    {
        proof {
            assert(chars@.take(i + 1).drop_last() =~= chars@.take(i as int));
        }
        if chars[i] == '\0' {
            push_char(&mut r, ' ');
            push_char(&mut r, '/');
            push_char(&mut r, ' ');
            proof {
                assert(replace_nul(chars@.take(i as int)).push(' ').push('/').push(' ')
                    =~= replace_nul(chars@.take(i as int)) + seq![' ', '/', ' ']);
            }
        } else {
            push_char(&mut r, chars[i]);
        }
        i = i + 1;
    }
    proof {
        assert(chars@.take(i as int) =~= chars@);
    }
    r
}

/// The digits of `n` in base ten.
pub fn decimal_chars(n: u64) -> (v: Vec<char>)
    ensures
        v@ == decimal(n as nat),
    decreases n,
{
    if n < 10 {
        let mut v: Vec<char> = Vec::new();
        v.push((48u8 + n as u8) as char);
        proof {
            assert(v@ =~= decimal(n as nat));
        }
        v
    } else {
        let mut v = decimal_chars(n / 10);
        v.push((48u8 + (n % 10) as u8) as char);
        v
    }
}

/// `n` as text in base ten.
pub fn u64_to_string(n: u64) -> (s: String)
    ensures
        s@ == decimal(n as nat),
{
    let v = decimal_chars(n);
    string_of(&v)
}

/// `n` as text in base ten, with `-` in front if it is negative.
pub fn i64_to_string(n: i64) -> (s: String)
    ensures
        s@ == decimal_int(n as int),
{
    let magnitude: u64 = if n >= 0 {
        n as u64
    } else if n == i64::MIN {
        0x8000_0000_0000_0000u64
    } else {
        (-n) as u64
    };
    let digits = decimal_chars(magnitude);
    if n < 0 {
        let mut v: Vec<char> = Vec::new();
        v.push('-');
        let mut i: usize = 0;
        while i < digits.len()
            invariant
                i <= digits@.len(),
                v@ == seq!['-'] + digits@.take(i as int),
            decreases digits@.len() - i,
        {
            v.push(digits[i]);
            i = i + 1;
            proof {
                assert(seq!['-'] + digits@.take(i as int) =~= (seq!['-'] + digits@.take(
                    i - 1,
                )).push(digits@[i - 1]));
            }
        }
        proof {
            assert(digits@.take(i as int) =~= digits@);
        }
        string_of(&v)
    } else {
        string_of(&digits)
    }
}


/// One more digit at the end multiplies the number by ten and adds the digit.
pub proof fn lemma_digits_value_push(s: Seq<char>, c: char)
    ensures
        digits_value(s.push(c)) == digits_value(s) * 10 + digit_value(c),
{
    assert(s.push(c).drop_last() =~= s);
}

/// Reads `s` as a decimal number with an optional sign.
pub fn parse_i64_str(s: &str) -> (r: Option<i64>)
    ensures
        r == parse_i64(s@),
{
    let chars = chars_of(s);
    let n: usize = chars.len();
    let negative: bool = n > 0 && chars[0] == '-';
    let start: usize = if n > 0 && (chars[0] == '-' || chars[0] == '+') {
        1
    } else {
        0
    };
    let ghost body = chars@.subrange(start as int, n as int);
    proof {
        if start == 1 {
            assert(chars@.drop_first() =~= body);
        } else {
            assert(chars@ =~= body);
        }
    }
    if start == n {
        return None;
    }
    let mut acc: u64 = 0;
    let mut overflow: bool = false;
    let mut i: usize = start;
    proof {
        assert(body.take(0) =~= Seq::<char>::empty());
    }
    while i < n
        invariant
            start <= i <= n,
            n == chars@.len(),
            chars@ == s@,
            body == chars@.subrange(start as int, n as int),
            body == (if s@.len() > 0 && (s@[0] == '-' || s@[0] == '+') {
                s@.drop_first()
            } else {
                s@
            }),
            all_digits(body.take(i - start)),
            !overflow ==> acc == digits_value(body.take(i - start)) && acc
                <= 0x8000_0000_0000_0000u64,
            overflow ==> digits_value(body.take(i - start)) > 0x8000_0000_0000_0000u64,
        decreases n - i,
    {
        let c = chars[i];
        if !('0' <= c && c <= '9') {
            proof {
                assert(body[i - start] == c);
                assert(!is_digit(body[i - start]));
            }
            return None;
        }
        let d: u64 = (c as u32 - 48) as u64;
        proof {
            lemma_digits_value_push(body.take(i - start), c);
            assert(body.take(i - start).push(c) =~= body.take(i + 1 - start));
        }
        if !overflow {
            let next: u128 = acc as u128 * 10 + d as u128;
            if next > 0x8000_0000_0000_0000u128 {
                overflow = true;
            } else {
                acc = next as u64;
            }
        }
        i = i + 1;
    }
    proof {
        assert(body.take(n - start) =~= body);
    }
    if overflow {
        None
    } else if negative {
        if acc == 0x8000_0000_0000_0000u64 {
            Some(i64::MIN)
        } else {
            Some(-(acc as i64))
        }
    } else if acc <= 0x7fff_ffff_ffff_ffffu64 {
        Some(acc as i64)
    } else {
        None
    }
}

/// Whether `a` in lower case is `b`.
pub fn eq_lower_ascii(a: &str, b: &str) -> (r: bool)
    ensures
        r == (lower_ascii(a@) == b@),
{
    let x = chars_of(a);
    let y = chars_of(b);
    if x.len() != y.len() {
        return false;
    }
    let mut i: usize = 0;
    while i < x.len()
        invariant
            i <= x@.len(),
            x@.len() == y@.len(),
            x@ == a@,
            y@ == b@,
            forall|k: int| 0 <= k < i ==> lower_char(x@[k]) == y@[k],
        decreases x@.len() - i,
    {
        let c = x[i];
        let l: char = if 'A' <= c && c <= 'Z' {
            ((c as u32 + 32) as u8) as char
        } else {
            c
        };
        if l != y[i] {
            proof {
                assert(lower_ascii(x@)[i as int] != y@[i as int]);
            }
            return false;
        }
        i = i + 1;
    }
    proof {
        assert(lower_ascii(x@) =~= y@);
    }
    true
}


/// `n` as text in base ten, with zeros in front up to `width` characters.
pub fn padded_string(n: u64, width: usize) -> (s: String)
    ensures
        s@ == padded(n as nat, width as nat),
{
    let digits = decimal_chars(n);
    let mut s = String::new();
    let mut i: usize = digits.len();
    while i < width
        invariant
            digits@.len() <= i,
            i <= width || i == digits@.len(),
            s@ == Seq::new((i - digits@.len()) as nat, |k: int| '0'),
        decreases width - i,
    {
        push_char(&mut s, '0');
        i = i + 1;
        proof {
            assert(s@ =~= Seq::new((i - digits@.len()) as nat, |k: int| '0'));
        }
    }
    let ghost zeros = s@;
    let mut k: usize = 0;
    proof {
        assert(zeros + digits@.take(0) =~= zeros);
    }
    while k < digits.len()
        invariant
            k <= digits@.len(),
            s@ == zeros + digits@.take(k as int),
            digits@ == decimal(n as nat),
            zeros == Seq::new(
                (if digits@.len() < width {
                    width - digits@.len()
                } else {
                    0
                }) as nat,
                |k: int| '0',
            ),
        decreases digits@.len() - k,
    {
        push_char(&mut s, digits[k]);
        k = k + 1;
        proof {
            assert(zeros + digits@.take(k as int) =~= (zeros + digits@.take(k - 1)).push(
                digits@[k - 1],
            ));
        }
    }
    proof {
        assert(digits@.take(k as int) =~= digits@);
        if digits@.len() >= width {
            assert(zeros + digits@ =~= digits@);
        }
    }
    s
}

/// `n` as text with its sign and with zeros behind the sign up to `width`
/// characters in all.
pub fn padded_int_string(n: i64, width: usize) -> (s: String)
    ensures
        s@ == padded_int(n as int, width as nat),
{
    if n >= 0 {
        padded_string(n as u64, width)
    } else {
        let magnitude: u64 = if n == i64::MIN {
            0x8000_0000_0000_0000u64
        } else {
            (-n) as u64
        };
        let body = padded_string(
            magnitude,
            if width > 0 {
                width - 1
            } else {
                0
            },
        );
        let mut s = String::from_str("-");
        proof {
            reveal_strlit("-");
            assert("-"@ =~= seq!['-']);
        }
        s.append(body.as_str());
        s
    }
}


/// The character of the hexadecimal digit `d`, below sixteen, in upper case.
pub open spec fn hex_char(d: nat) -> char {
    if d < 10 {
        ((48 + d) as u8) as char
    } else {
        ((55 + d) as u8) as char
    }
}

/// `n` in base sixteen with upper-case digits, without leading zeros.
pub open spec fn hex_upper(n: nat) -> Seq<char>
    decreases n,
{
    if n < 16 {
        seq![hex_char(n)]
    } else {
        hex_upper(n / 16).push(hex_char(n % 16))
    }
}

/// The digits of `n` in base sixteen.
pub fn hex_chars(n: u64) -> (v: Vec<char>)
    ensures
        v@ == hex_upper(n as nat),
    decreases n,
{
    let d: u8 = (n % 16) as u8;
    let c: char = if d < 10 {
        (48u8 + d) as char
    } else {
        (55u8 + d) as char
    };
    if n < 16 {
        let mut v: Vec<char> = Vec::new();
        v.push(c);
        proof {
            assert(v@ =~= hex_upper(n as nat));
        }
        v
    } else {
        let mut v = hex_chars(n / 16);
        v.push(c);
        v
    }
}


/// The bytes `bytes` as a list in square brackets, each in base sixteen with
/// upper-case digits, with a comma and a space between two of them.
pub open spec fn hex_list(bytes: Seq<u8>) -> Seq<char> {
    seq!['['] + hex_items(bytes) + seq![']']
}

/// What stands between the brackets of `hex_list`.
pub open spec fn hex_items(bytes: Seq<u8>) -> Seq<char>
    decreases bytes.len(),
{
    if bytes.len() == 0 {
        Seq::empty()
    } else if bytes.len() == 1 {
        hex_upper(bytes[0] as nat)
    } else {
        hex_items(bytes.drop_last()) + seq![',', ' '] + hex_upper(bytes.last() as nat)
    }
}

/// The list of `bytes` in base sixteen.
pub fn hex_list_string(bytes: &[u8]) -> (s: String)
    ensures
        s@ == hex_list(bytes@),
{
    let mut s = String::new();
    push_char(&mut s, '[');
    let mut i: usize = 0;
    while i < bytes.len()
        invariant
            i <= bytes@.len(),
            s@ == seq!['['] + hex_items(bytes@.take(i as int)),
        decreases bytes@.len() - i,
    {
        let ghost before = s@;
        if i > 0 {
            push_char(&mut s, ',');
            push_char(&mut s, ' ');
        }
        let digits = string_of(&hex_chars(bytes[i] as u64));
        s.append(digits.as_str());
        proof {
            let now = bytes@.take(i + 1);
            assert(now.drop_last() =~= bytes@.take(i as int));
            assert(now.last() == bytes@[i as int]);
            if i > 0 {
                assert(s@ =~= seq!['['] + (hex_items(bytes@.take(i as int)) + seq![',', ' ']
                    + hex_upper(bytes@[i as int] as nat)));
            } else {
                assert(hex_items(bytes@.take(0)) =~= Seq::<char>::empty());
                assert(s@ =~= seq!['['] + hex_upper(bytes@[i as int] as nat));
            }
        }
        i = i + 1;
    }
    proof {
        assert(bytes@.take(i as int) =~= bytes@);
    }
    push_char(&mut s, ']');
    s
}

/// Whether `s` holds no character `c`.
pub open spec fn lacks(s: Seq<char>, c: char) -> bool {
    forall|i: int| 0 <= i < s.len() ==> #[trigger] s[i] != c
}

/// Whether `s` holds no NUL character.
pub open spec fn no_nul(s: Seq<char>) -> bool {
    lacks(s, '\0')
}

/// A number in digits holds no character that is neither a digit nor `-`.
pub proof fn lemma_decimal_lacks(n: int, c: char)
    requires
        !is_digit(c),
        c != '-',
    ensures
        lacks(decimal_int(n), c),
{
    let m: nat = if n < 0 {
        (-n) as nat
    } else {
        n as nat
    };
    lemma_decimal(m);
    let s = decimal_int(n);
    assert forall|i: int| 0 <= i < s.len() implies #[trigger] s[i] != c by {
        if n < 0 {
            if i > 0 {
                assert(s[i] == decimal(m)[i - 1]);
                assert(is_digit(decimal(m)[i - 1]));
            }
        } else {
            assert(is_digit(decimal(m)[i]));
        }
    }
}

/// Text without NUL characters stays as it is where NULs are trimmed or replaced,
/// also with one NUL behind it.
pub proof fn lemma_no_nul_kept(s: Seq<char>)
    requires
        no_nul(s),
    ensures
        trim_nul(s) == s,
        trim_nul(s.push('\0')) == s,
        replace_nul(s) == s,
    decreases s.len(),
{
    assert(s.push('\0').drop_last() =~= s);
    assert(s.push('\0').last() == '\0');
    assert(trim_nul(s.push('\0')) == trim_nul(s.push('\0').drop_last()));
    if s.len() > 0 {
        assert(s.last() != '\0');
        assert(no_nul(s.drop_last())) by {
            assert forall|i: int| 0 <= i < s.drop_last().len() implies #[trigger] s.drop_last()[i]
                != '\0' by {
                assert(s.drop_last()[i] == s[i]);
            }
        }
        lemma_no_nul_kept(s.drop_last());
        assert(s.drop_last().push(s.last()) =~= s);
    }
}

/// The digits of a number spell the number.
pub proof fn lemma_decimal(n: nat)
    ensures
        decimal(n).len() >= 1,
        all_digits(decimal(n)),
        digits_value(decimal(n)) == n,
        n >= 1 ==> decimal(n)[0] != '0',
        n == 0 ==> decimal(n) == seq!['0'],
    decreases n,
{
    if n < 10 {
        let d = decimal(n);
        assert(d.len() == 1);
        assert(d[0] == digit_char(n));
        assert(is_digit(d[0]));
        assert(d.drop_last().len() == 0);
        assert(digits_value(d.drop_last()) == 0);
        assert(digit_value(d.last()) == n);
        if n == 0 {
            assert(d =~= seq!['0']);
        }
    } else {
        lemma_decimal(n / 10);
        let head = decimal(n / 10);
        let c = digit_char(n % 10);
        lemma_digits_value_push(head, c);
        assert(is_digit(c));
        assert(digit_value(c) == n % 10);
        assert forall|i: int| 0 <= i < head.push(c).len() implies is_digit(
            #[trigger] head.push(c)[i],
        ) by {
            if i < head.len() {
                assert(head.push(c)[i] == head[i]);
            }
        }
        assert(head.push(c)[0] == head[0]);
    }
}

/// A number that was written is read as it was.
pub proof fn lemma_parse_decimal(n: i64)
    ensures
        parse_i64(decimal_int(n as int)) == Some(n),
{
    if n < 0 {
        let m = (-n) as nat;
        lemma_decimal(m);
        let s = seq!['-'] + decimal(m);
        assert(s.drop_first() =~= decimal(m));
        assert(s[0] == '-');
    } else {
        lemma_decimal(n as nat);
        let s = decimal(n as nat);
        assert(is_digit(s[0]));
    }
}

/// The digit that a digit's character stands for is the digit.
pub proof fn lemma_digit_char(d: nat)
    requires
        d < 10,
    ensures
        is_digit(digit_char(d)),
        digit_value(digit_char(d)) == d,
{
}

/// A number below a hundred is written in two digits.
pub proof fn lemma_padded_two(n: nat)
    requires
        n < 100,
    ensures
        padded(n, 2) == seq![digit_char(n / 10), digit_char(n % 10)],
{
    if n < 10 {
        assert(decimal(n) =~= seq![digit_char(n)]);
        assert(padded(n, 2) =~= seq![digit_char(0), digit_char(n)]);
    } else {
        assert(decimal(n / 10) =~= seq![digit_char(n / 10)]);
        assert(decimal(n) =~= seq![digit_char(n / 10), digit_char(n % 10)]);
    }
}

/// A number below ten thousand is written in four digits.
pub proof fn lemma_padded_four(n: nat)
    requires
        n < 10000,
    ensures
        padded(n, 4) == seq![
            digit_char(n / 1000),
            digit_char(n / 100 % 10),
            digit_char(n / 10 % 10),
            digit_char(n % 10),
        ],
{
    let ideal = seq![
        digit_char(n / 1000),
        digit_char(n / 100 % 10),
        digit_char(n / 10 % 10),
        digit_char(n % 10),
    ];
    if n < 10 {
        assert(decimal(n) =~= seq![digit_char(n)]);
        assert(padded(n, 4) =~= ideal);
    } else if n < 100 {
        assert(decimal(n / 10) =~= seq![digit_char(n / 10)]);
        assert(decimal(n) =~= seq![digit_char(n / 10), digit_char(n % 10)]);
        assert(padded(n, 4) =~= ideal);
    } else if n < 1000 {
        assert(decimal(n / 100) =~= seq![digit_char(n / 100)]);
        assert(decimal(n / 10) =~= seq![digit_char(n / 100), digit_char(n / 10 % 10)]);
        assert(decimal(n) =~= seq![
            digit_char(n / 100),
            digit_char(n / 10 % 10),
            digit_char(n % 10),
        ]);
        assert(padded(n, 4) =~= ideal);
    } else {
        assert(decimal(n / 1000) =~= seq![digit_char(n / 1000)]);
        assert(decimal(n / 100) =~= seq![digit_char(n / 1000), digit_char(n / 100 % 10)]);
        assert(decimal(n / 10) =~= seq![
            digit_char(n / 1000),
            digit_char(n / 100 % 10),
            digit_char(n / 10 % 10),
        ]);
        assert(decimal(n) =~= ideal);
    }
}

} // verus!
