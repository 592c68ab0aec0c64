//! Synchsafe integers, unsynchronization and frame ids.
use vstd::prelude::*;
use crate::tools::text::decimal;
use crate::tools::text::u64_to_string;
use crate::tools::text::push_char;
use crate::tools::text::chars_of;
use crate::tools::text::hex_list;
use crate::tools::text::hex_list_string;

verus! {

/// `s` with the `00` after each `FF` taken out, from left to right: a byte
/// that was looked at is not looked at again.
pub open spec fn unsynch_removed(s: Seq<u8>) -> Seq<u8>
    decreases s.len(),
{
    if s.len() < 2 {
        s
    } else if s[0] == 0xFF && s[1] == 0x00 {
        seq![0xFFu8] + unsynch_removed(s.skip(2))
    } else {
        seq![s[0]] + unsynch_removed(s.skip(1))
    }
}

/// Undoes unsynchronization: takes out the `00` that follows each `FF`.
pub fn undo_unsynch(vec: &mut Vec<u8>)
    ensures
        final(vec)@ == unsynch_removed(old(vec)@),
{
    let n: usize = vec.len();
    let mut out: Vec<u8> = Vec::new();
    let mut i: usize = 0;
    proof {
        assert(vec@.skip(0) =~= vec@);
    }
    while n - i > 1
        invariant
            i <= n,
            n == vec@.len(),
            vec@ == old(vec)@,
            out@ + unsynch_removed(vec@.skip(i as int)) == unsynch_removed(vec@),
        decreases n - i,
    {
        let ghost tail = vec@.skip(i as int);
        let ghost before = out@;
        let b: u8 = vec[i];
        out.push(b);
        if b == 0xFF && vec[i + 1] == 0x00 {
            proof {
                assert(tail.skip(2) =~= vec@.skip(i + 2));
                assert(out@ + unsynch_removed(vec@.skip(i + 2)) =~= before + (seq![0xFFu8]
                    + unsynch_removed(tail.skip(2))));
            }
            i = i + 2;
        } else {
            proof {
                assert(tail.skip(1) =~= vec@.skip(i + 1));
                assert(out@ + unsynch_removed(vec@.skip(i + 1)) =~= before + (seq![tail[0]]
                    + unsynch_removed(tail.skip(1))));
            }
            i = i + 1;
        }
    }
    if i < n {
        out.push(vec[i]);
        proof {
            assert(vec@.skip(i as int) =~= seq![vec@[i as int]]);
        }
    } else {
        proof {
            assert(vec@.skip(i as int) =~= Seq::<u8>::empty());
        }
    }
    proof {
        assert(out@ =~= unsynch_removed(vec@));
    }
    *vec = out;
}

/// The number that `bytes` spell in base 128, most significant byte first.
pub open spec fn synch_value(bytes: Seq<u8>) -> nat
    decreases bytes.len(),
{
    if bytes.len() == 0 {
        0
    } else {
        synch_value(bytes.drop_last()) * 128 + bytes.last() as nat
    }
}

/// Whether `b` has its high bit clear.
pub open spec fn is_synchsafe(b: u8) -> bool {
    b < 0x80
}

/// The index of the first byte of `bytes` with its high bit set, from
/// `from` on; the length if there is none.
pub open spec fn first_unsafe(bytes: Seq<u8>, from: int) -> int
    decreases bytes.len() - from,
{
    if from < 0 || from >= bytes.len() {
        bytes.len() as int
    } else if !is_synchsafe(bytes[from]) {
        from
    } else {
        first_unsafe(bytes, from + 1)
    }
}

/// What decoding a synchsafe integer gives: the number in 32 bits, or the
/// message of the error.
pub open spec fn decode_synch_spec(bytes: Seq<u8>) -> Result<u32, Seq<char>> {
    if bytes.len() > 5 {
        Err("Synchsafe ints are limited to 32 bits"@)
    } else if first_unsafe(bytes, 0) < bytes.len() {
        Err("Invalid synch-safe byte at position "@ + decimal(first_unsafe(bytes, 0) as nat))
    } else {
        Ok((synch_value(bytes) % 0x1_0000_0000) as u32)
    }
}

/// The synchsafe bytes of `n`: four groups of seven bits, after the four
/// bits above them where `fifth` asks for five bytes.
pub open spec fn synch_bytes(n: u32, fifth: bool) -> Seq<u8> {
    let low = seq![
        (n / 0x20_0000 % 0x80) as u8,
        (n / 0x4000 % 0x80) as u8,
        (n / 0x80 % 0x80) as u8,
        (n % 0x80) as u8,
    ];
    if fifth {
        seq![(n / 0x1000_0000) as u8] + low
    } else {
        low
    }
}

/// What encoding a synchsafe integer gives: a number of 2^28 or more needs
/// the fifth byte.
pub open spec fn encode_synch_spec(n: u32, fifth: bool) -> Result<Seq<u8>, Seq<char>> {
    if n >= 0x1000_0000 && !fifth {
        Err("Input uses more than 28 bits, but use fifth bit option is not enabled."@)
    } else {
        Ok(synch_bytes(n, fifth))
    }
}

/// One more byte at the end multiplies the number by 128 and adds the byte.
pub proof fn lemma_synch_value_push(bytes: Seq<u8>, b: u8)
    ensures
        synch_value(bytes.push(b)) == synch_value(bytes) * 128 + b as nat,
{
    assert(bytes.push(b).drop_last() =~= bytes);
}

/// No byte before the first unsafe one is unsafe.
pub proof fn lemma_first_unsafe(bytes: Seq<u8>, from: int, upto: int)
    requires
        0 <= from <= upto <= bytes.len(),
        forall|k: int| from <= k < upto ==> is_synchsafe(bytes[k]),
    ensures
        first_unsafe(bytes, from) == first_unsafe(bytes, upto),
    decreases upto - from,
{
    if from < upto {
        lemma_first_unsafe(bytes, from + 1, upto);
    }
}

/// Decodes a synchsafe integer of up to five bytes.
pub fn decode_synch_int(input: &[u8]) -> (r: Result<u32, String>)
    ensures
        match r {
            Ok(v) => decode_synch_spec(input@) == Ok::<u32, Seq<char>>(v),
            Err(m) => decode_synch_spec(input@) == Err::<u32, Seq<char>>(m@),
        },
{
    if input.len() > 5 {
        return Err(String::from_str("Synchsafe ints are limited to 32 bits"));
    }
    let mut result: u32 = 0;
    let mut i: usize = 0;
    proof {
        assert(input@.take(0) =~= Seq::<u8>::empty());
    }
    while i < input.len()
        invariant
            i <= input@.len() <= 5,
            forall|k: int| 0 <= k < i ==> is_synchsafe(input@[k]),
            result as nat == synch_value(input@.take(i as int)) % 0x1_0000_0000,
        decreases input@.len() - i,
    {
        let b: u8 = input[i];
        if b >= 0x80 {
            proof {
                lemma_first_unsafe(input@, 0, i as int);
            }
            let mut m = String::from_str("Invalid synch-safe byte at position ");
            let pos = u64_to_string(i as u64);
            m.append(pos.as_str());
            return Err(m);
        }
        proof {
            let before = synch_value(input@.take(i as int));
            lemma_synch_value_push(input@.take(i as int), b);
            assert(input@.take(i as int).push(b) =~= input@.take(i + 1));
            assert((before * 128 + b) % 0x1_0000_0000 == ((before % 0x1_0000_0000) * 128 + b)
                % 0x1_0000_0000) by (nonlinear_arith);
        }
        result = ((result as u64 * 128 + b as u64) % 0x1_0000_0000) as u32;
        i = i + 1;
    }
    proof {
        assert(input@.take(i as int) =~= input@);
        lemma_first_unsafe(input@, 0, i as int);
    }
    Ok(result)
}

/// Encodes `input` as a synchsafe integer of four bytes, or of five with
/// `use_fifth_bit`.
pub fn encode_synch_int(input: u32, use_fifth_bit: bool) -> (r: Result<Vec<u8>, String>)
    ensures
        match r {
            Ok(v) => encode_synch_spec(input, use_fifth_bit) == Ok::<Seq<u8>, Seq<char>>(v@),
            Err(m) => encode_synch_spec(input, use_fifth_bit) == Err::<Seq<u8>, Seq<char>>(m@),
        },
{
    if input >= 0x1000_0000 && !use_fifth_bit {
        Err(
            String::from_str(
                "Input uses more than 28 bits, but use fifth bit option is not enabled.",
            ),
        )
    } else {
        let mut result: Vec<u8> = Vec::new();
        if use_fifth_bit {
            result.push((input / 0x1000_0000) as u8);
        }
        result.push((input / 0x20_0000 % 0x80) as u8);
        result.push((input / 0x4000 % 0x80) as u8);
        result.push((input / 0x80 % 0x80) as u8);
        result.push((input % 0x80) as u8);
        proof {
            assert(result@ =~= synch_bytes(input, use_fifth_bit));
        }
        Ok(result)
    }
}

/// Decoding what was encoded gives the number back: every number with the
/// fifth byte, and every number below 2^28 without it.
pub proof fn lemma_synch_roundtrip(n: u32, fifth: bool)
    requires
        fifth || n < 0x1000_0000,
    ensures
        encode_synch_spec(n, fifth) == Ok::<Seq<u8>, Seq<char>>(synch_bytes(n, fifth)),
        decode_synch_spec(synch_bytes(n, fifth)) == Ok::<u32, Seq<char>>(n),
{
    let b = synch_bytes(n, fifth);
    assert forall|k: int| 0 <= k < b.len() implies is_synchsafe(b[k]) by {}
    lemma_first_unsafe(b, 0, b.len() as int);
    if fifth {
        let b4 = b.drop_last();
        let b3 = b4.drop_last();
        let b2 = b3.drop_last();
        let b1 = b2.drop_last();
        assert(b1.drop_last().len() == 0);
        assert(synch_value(b1.drop_last()) == 0);
        assert(synch_value(b1) == b[0]);
        assert(synch_value(b2) == b[0] * 128 + b[1]);
        assert(synch_value(b3) == (b[0] * 128 + b[1]) * 128 + b[2]);
        assert(synch_value(b4) == ((b[0] * 128 + b[1]) * 128 + b[2]) * 128 + b[3]);
        assert(synch_value(b) == n);
    } else {
        let b3 = b.drop_last();
        let b2 = b3.drop_last();
        let b1 = b2.drop_last();
        assert(b1.drop_last().len() == 0);
        assert(synch_value(b1.drop_last()) == 0);
        assert(synch_value(b1) == b[0]);
        assert(synch_value(b2) == b[0] * 128 + b[1]);
        assert(synch_value(b3) == (b[0] * 128 + b[1]) * 128 + b[2]);
        assert(synch_value(b) == n);
    }
}

/// Without the fifth byte a number of 2^28 or more is refused.
pub proof fn lemma_synch_refused(n: u32)
    requires
        n >= 0x1000_0000,
    ensures
        encode_synch_spec(n, false) is Err,
{
}

/// Whether `c` may stand in a frame id: `A` to `Z` or `0` to `9`.
pub open spec fn is_id_char(c: char) -> bool {
    ('A' <= c <= 'Z') || ('0' <= c <= '9')
}

/// Whether `b` may stand in a frame id: `A` to `Z` or `0` to `9` in ASCII.
pub open spec fn is_id_byte(b: u8) -> bool {
    (0x41 <= b <= 0x5A) || (0x30 <= b <= 0x39)
}

/// Whether every character of `s` may stand in a frame id.
pub open spec fn valid_id_chars(s: Seq<char>) -> bool {
    forall|i: int| 0 <= i < s.len() ==> is_id_char(#[trigger] s[i])
}

/// Whether every byte of `s` may stand in a frame id.
pub open spec fn valid_id_bytes(s: Seq<u8>) -> bool {
    forall|i: int| 0 <= i < s.len() ==> is_id_byte(#[trigger] s[i])
}

/// The frame id that `bytes` spell, if every byte may stand in one.
pub open spec fn frame_id_chars(bytes: Seq<u8>) -> Option<Seq<char>> {
    if valid_id_bytes(bytes) {
        Some(Seq::new(bytes.len(), |i: int| bytes[i] as char))
    } else {
        None
    }
}

/// The bytes of the frame id `chars`, if every character may stand in one.
pub open spec fn frame_id_bytes(chars: Seq<char>) -> Option<Seq<u8>> {
    if valid_id_chars(chars) {
        Some(Seq::new(chars.len(), |i: int| chars[i] as u8))
    } else {
        None
    }
}

/// What the error for bytes or a string that are no frame id ends with.
pub open spec fn not_an_id() -> Seq<char> {
    ": Invalid frame ID (contains characters that are not A-Z or 0-9)"@
}

/// The text of the error for bytes that are no frame id.
pub open spec fn decode_refused(bytes: Seq<u8>) -> Seq<char> {
    "Cannot decode "@ + hex_list(bytes) + not_an_id()
}

/// The text of the error for a string that is no frame id.
pub open spec fn encode_refused(chars: Seq<char>) -> Seq<char> {
    "Cannot encode \""@ + chars + "\""@ + not_an_id()
}

/// The error for bytes that are no frame id.
fn cannot_decode(input: &[u8]) -> (r: String)
    ensures
        r@ == decode_refused(input@),
{
    let mut s = String::from_str("Cannot decode ");
    let list = hex_list_string(input);
    s.append(list.as_str());
    s.append(": Invalid frame ID (contains characters that are not A-Z or 0-9)");
    s
}

/// The error for a string that is no frame id.
fn cannot_encode(input: &str) -> (r: String)
    ensures
        r@ == encode_refused(input@),
{
    let mut s = String::from_str("Cannot encode \"");
    s.append(input);
    s.append("\"");
    s.append(": Invalid frame ID (contains characters that are not A-Z or 0-9)");
    s
}

/// Reads a frame id; fails on a byte that is not `A` to `Z` or `0` to `9`.
pub fn decode_frame_id(input: &[u8]) -> (r: Result<String, String>)
    ensures
        match r {
            Ok(s) => frame_id_chars(input@) == Some(s@),
            Err(e) => frame_id_chars(input@) is None && e@ == decode_refused(input@),
        },
{
    let mut s = String::new();
    let mut i: usize = 0;
    while i < input.len()
        invariant
            i <= input@.len(),
            valid_id_bytes(input@.take(i as int)),
            s@ == Seq::new(i as nat, |k: int| input@[k] as char),
        decreases input@.len() - i,
    {
        let c: u8 = input[i];
        if (c >= 0x41 && c <= 0x5A) || (c >= 0x30 && c <= 0x39) {
            push_char(&mut s, c as char);
        } else {
            proof {
                assert(!is_id_byte(input@[i as int]));
            }
            return Err(cannot_decode(input));
        }
        i = i + 1;
        proof {
            assert(s@ =~= Seq::new(i as nat, |k: int| input@[k] as char));
            assert forall|k: int| 0 <= k < i implies is_id_byte(
                #[trigger] input@.take(i as int)[k],
            ) by {
                if k < i - 1 {
                    assert(input@.take(i - 1)[k] == input@[k]);
                }
            }
        }
    }
    proof {
        assert(input@.take(i as int) =~= input@);
    }
    Ok(s)
}

/// Writes a frame id; fails on a character that is not `A` to `Z` or `0` to `9`.
pub fn encode_frame_id(input: &str) -> (r: Result<Vec<u8>, String>)
    ensures
        match r {
            Ok(v) => frame_id_bytes(input@) == Some(v@),
            Err(e) => frame_id_bytes(input@) is None && e@ == encode_refused(input@),
        },
{
    let chars = chars_of(input);
    let mut v: Vec<u8> = Vec::new();
    let mut i: usize = 0;
    while i < chars.len()
        invariant
            i <= chars@.len(),
            chars@ == input@,
            valid_id_chars(chars@.take(i as int)),
            v@ == Seq::new(i as nat, |k: int| chars@[k] as u8),
        decreases chars@.len() - i,
    {
        let c: char = chars[i];
        if ('A' <= c && c <= 'Z') || ('0' <= c && c <= '9') {
            v.push(c as u8);
        } else {
            proof {
                assert(!is_id_char(chars@[i as int]));
            }
            return Err(cannot_encode(input));
        }
        i = i + 1;
        proof {
            assert(v@ =~= Seq::new(i as nat, |k: int| chars@[k] as u8));
            assert forall|k: int| 0 <= k < i implies is_id_char(
                #[trigger] chars@.take(i as int)[k],
            ) by {
                if k < i - 1 {
                    assert(chars@.take(i - 1)[k] == chars@[k]);
                }
            }
        }
    }
    proof {
        assert(chars@.take(i as int) =~= chars@);
    }
    Ok(v)
}

/// A frame id of `A` to `Z` and `0` to `9` comes back from its bytes as it was.
pub proof fn lemma_frame_id_roundtrip(id: Seq<char>)
    requires
        valid_id_chars(id),
    ensures
        frame_id_bytes(id) is Some,
        frame_id_chars(frame_id_bytes(id)->0) == Some(id),
{
    let bytes = frame_id_bytes(id)->0;
    assert forall|i: int| 0 <= i < bytes.len() implies is_id_byte(#[trigger] bytes[i]) by {
        assert(is_id_char(id[i]));
    }
    assert(frame_id_chars(bytes)->0 =~= id) by {
        assert forall|i: int| 0 <= i < id.len() implies (bytes[i] as char) == id[i] by {
            assert(is_id_char(id[i]));
        }
    }
}

/// The bytes of a frame id come back from its characters as they were.
pub proof fn lemma_frame_id_bytes_roundtrip(bytes: Seq<u8>)
    requires
        valid_id_bytes(bytes),
    ensures
        frame_id_chars(bytes) is Some,
        frame_id_bytes(frame_id_chars(bytes)->0) == Some(bytes),
{
    let id = frame_id_chars(bytes)->0;
    assert forall|i: int| 0 <= i < id.len() implies is_id_char(#[trigger] id[i]) by {
        assert(is_id_byte(bytes[i]));
    }
    assert(frame_id_bytes(id)->0 =~= bytes) by {
        assert forall|i: int| 0 <= i < bytes.len() implies (id[i] as u8) == bytes[i] by {
            assert(is_id_byte(bytes[i]));
        }
    }
}

} // verus!
