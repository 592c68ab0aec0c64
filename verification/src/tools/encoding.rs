//! Conversions between bytes and text.
//!
//! ISO 8859-1 maps each byte to the character of the same number, and is
//! done here. UTF-8 and UTF-16 are decoded by the `encoding` crate, which
//! puts U+FFFD in place of what it cannot decode.
use vstd::prelude::*;
use vstd::slice::slice_subrange;
use crate::tools::text::push_char;
use crate::tools::text::chars_of;
use crate::tools::text::trim_end_nul;
use crate::tools::text::trim_nul;

verus! {

/// The bytes of `chars` in ISO 8859-1, with `?` for a character above U+00FF.
pub open spec fn latin1_bytes(chars: Seq<char>) -> Seq<u8> {
    Seq::new(
        chars.len(),
        |i: int|
            if chars[i] as u32 <= 0xFF {
                chars[i] as u8
            } else {
                0x3Fu8
            },
    )
}

/// The characters that `bytes` spell in ISO 8859-1.
pub open spec fn latin1_chars(bytes: Seq<u8>) -> Seq<char> {
    Seq::new(bytes.len(), |i: int| bytes[i] as char)
}

/// The text of `bytes` in ISO 8859-1, without the NULs at its end.
pub open spec fn latin1_text(bytes: Seq<u8>) -> Seq<char> {
    trim_nul(latin1_chars(bytes))
}

/// What the `encoding` crate's UTF-8 decoder makes of `bytes` when it
/// replaces what is malformed.
pub uninterp spec fn utf8_replaced(bytes: Seq<u8>) -> Option<Seq<char>>;

/// What the `encoding` crate's UTF-16 little-endian decoder makes of `bytes`
/// when it replaces what is malformed.
pub uninterp spec fn utf16le_replaced(bytes: Seq<u8>) -> Option<Seq<char>>;

/// What the `encoding` crate's UTF-16 big-endian decoder makes of `bytes`
/// when it replaces what is malformed.
pub uninterp spec fn utf16be_replaced(bytes: Seq<u8>) -> Option<Seq<char>>;

/// The characters of a decoder's result, none if it failed.
pub open spec fn text_or_empty(decoded: Option<Seq<char>>) -> Seq<char> {
    match decoded {
        Some(s) => s,
        None => Seq::empty(),
    }
}

/// The characters of `bytes` in UTF-8: those that well-formed bytes
/// encode; for other bytes what the decoder makes of them.
pub open spec fn utf8_chars(bytes: Seq<u8>) -> Seq<char> {
    if vstd::utf8::valid_utf8(bytes) {
        vstd::utf8::decode_utf8(bytes)
    } else {
        text_or_empty(utf8_replaced(bytes))
    }
}

/// The text of `bytes` in UTF-8, without the NULs at its end.
pub open spec fn utf8_text(bytes: Seq<u8>) -> Seq<char> {
    trim_nul(utf8_chars(bytes))
}

/// What the UTF-16 decoders make of `bytes`: little-endian after the byte
/// order mark `FF FE`, big-endian after `FE FF` or without a mark.
pub open spec fn utf16_decoded(bytes: Seq<u8>) -> Option<Seq<char>> {
    if bytes.len() >= 2 && bytes[0] == 0xFF && bytes[1] == 0xFE {
        utf16le_replaced(bytes.skip(2))
    } else if bytes.len() >= 2 && bytes[0] == 0xFE && bytes[1] == 0xFF {
        utf16be_replaced(bytes.skip(2))
    } else {
        utf16be_replaced(bytes)
    }
}

/// The text of `bytes` in UTF-16, without the NULs at its end.
pub open spec fn utf16_text(bytes: Seq<u8>) -> Seq<char> {
    trim_nul(text_or_empty(utf16_decoded(bytes)))
}

/// `decode` of the `encoding` crate's `UTF_8` with the trap `Replace`:
/// the result is a function of the bytes, and well-formed UTF-8 decodes to
/// the characters it encodes.
#[verifier::external_body]
fn utf8_decode_replace(input: &[u8]) -> (r: Option<String>)
    ensures
        match r {
            Some(s) => utf8_replaced(input@) == Some(s@),
            None => utf8_replaced(input@) is None,
        },
        vstd::utf8::valid_utf8(input@) ==> r is Some && r->0@ == vstd::utf8::decode_utf8(input@),
{
    encoding::Encoding::decode(encoding::all::UTF_8, input, encoding::DecoderTrap::Replace).ok()
}

/// `decode` of the `encoding` crate's `UTF_16LE` with the trap `Replace`:
/// the result is a function of the bytes.
#[verifier::external_body]
fn utf16le_decode_replace(input: &[u8]) -> (r: Option<String>)
    ensures
        match r {
            Some(s) => utf16le_replaced(input@) == Some(s@),
            None => utf16le_replaced(input@) is None,
        },
{
    encoding::Encoding::decode(encoding::all::UTF_16LE, input, encoding::DecoderTrap::Replace).ok()
}

/// `decode` of the `encoding` crate's `UTF_16BE` with the trap `Replace`:
/// the result is a function of the bytes.
#[verifier::external_body]
fn utf16be_decode_replace(input: &[u8]) -> (r: Option<String>)
    ensures
        match r {
            Some(s) => utf16be_replaced(input@) == Some(s@),
            None => utf16be_replaced(input@) is None,
        },
{
    encoding::Encoding::decode(encoding::all::UTF_16BE, input, encoding::DecoderTrap::Replace).ok()
}

/// The decoded text without the NULs at its end; empty if decoding failed.
fn trimmed(decoded: Option<String>) -> (r: String)
    ensures
        r@ == trim_nul(
            text_or_empty(
                match decoded {
                    Some(s) => Some(s@),
                    None => None,
                },
            ),
        ),
{
    match decoded {
        Some(s) => trim_end_nul(s.as_str()),
        None => String::new(),
    }
}

/// Writes `input` in ISO 8859-1, with `?` for what the encoding lacks.
pub fn encode_iso_8859_1(input: &str) -> (r: Vec<u8>)
    ensures
        r@ == latin1_bytes(input@),
{
    let chars = chars_of(input);
    let mut r: Vec<u8> = Vec::new();
    let mut i: usize = 0;
    while i < chars.len()
        invariant
            i <= chars@.len(),
            r@ == latin1_bytes(chars@.take(i as int)),
        decreases chars@.len() - i,
    {
        let c = chars[i];
        let b: u8 = if c as u32 <= 0xFF {
            c as u8
        } else {
            0x3F
        };
        r.push(b);
        i = i + 1;
        proof {
            assert(r@ =~= latin1_bytes(chars@.take(i as int)));
        }
    }
    proof {
        assert(chars@.take(i as int) =~= chars@);
    }
    r
}

/// Reads `input` as ISO 8859-1 and drops the NULs at the end.
pub fn decode_iso_8859_1(input: &[u8]) -> (r: String)
    ensures
        r@ == latin1_text(input@),
{
    let mut s = String::new();
    let mut i: usize = 0;
    while i < input.len()
        invariant
            i <= input@.len(),
            s@ == latin1_chars(input@.take(i as int)),
        decreases input@.len() - i,
    {
        push_char(&mut s, input[i] as char);
        i = i + 1;
        proof {
            assert(s@ =~= latin1_chars(input@.take(i as int)));
        }
    }
    proof {
        assert(input@.take(i as int) =~= input@);
    }
    trim_end_nul(s.as_str())
}

/// Reads `input` as UTF-8 and drops the NULs at the end.
pub fn decode_utf8(input: &[u8]) -> (r: String)
    ensures
        r@ == utf8_text(input@),
{
    trimmed(utf8_decode_replace(input))
}

/// Reads `input` as UTF-16 in the byte order that its mark gives, big-endian
/// without one, and drops the NULs at the end.
pub fn decode_utf16(input: &[u8]) -> (r: String)
    ensures
        r@ == utf16_text(input@),
{
    let n: usize = input.len();
    if n >= 2 && input[0] == 0xFF && input[1] == 0xFE {
        trimmed(utf16le_decode_replace(slice_subrange(input, 2, n)))
    } else if n >= 2 && input[0] == 0xFE && input[1] == 0xFF {
        trimmed(utf16be_decode_replace(slice_subrange(input, 2, n)))
    } else {
        trimmed(utf16be_decode_replace(input))
    }
}

/// The bytes of text with one character more are the bytes of the text and
/// those of the character.
pub proof fn lemma_encode_push(s: Seq<char>, c: char)
    ensures
        vstd::utf8::encode_utf8(s.push(c)) == vstd::utf8::encode_utf8(s)
            + vstd::utf8::encode_scalar(c as u32),
    decreases s.len(),
{
    if s.len() == 0 {
        assert(s.push(c).drop_first() =~= Seq::<char>::empty());
        assert(vstd::utf8::encode_utf8(s.push(c).drop_first()) =~= Seq::<u8>::empty());
        assert(vstd::utf8::encode_utf8(s) =~= Seq::<u8>::empty());
        assert(s.push(c)[0] == c);
        assert(vstd::utf8::encode_utf8(s.push(c)) =~= vstd::utf8::encode_utf8(s)
            + vstd::utf8::encode_scalar(c as u32));
    } else {
        lemma_encode_push(s.drop_first(), c);
        assert(s.push(c).drop_first() =~= s.drop_first().push(c));
        assert(s.push(c)[0] == s[0]);
        assert(vstd::utf8::encode_utf8(s.push(c)) =~= vstd::utf8::encode_utf8(s)
            + vstd::utf8::encode_scalar(c as u32));
    }
}

/// Text in UTF-8 with a zero byte behind it is read as the text, if the
/// text holds no NUL.
pub proof fn lemma_utf8_text_written(s: Seq<char>)
    requires
        crate::tools::text::no_nul(s),
    ensures
        utf8_text(vstd::utf8::encode_utf8(s) + seq![0u8]) == s,
        utf8_text(vstd::utf8::encode_utf8(s)) == s,
{
    let b = vstd::utf8::encode_utf8(s);
    lemma_encode_push(s, '\0');
    assert(vstd::utf8::encode_scalar('\0' as u32) =~= seq![0u8]) by {
        let z: u32 = 0;
        assert(vstd::utf8::has_width_1_encoding(z));
        assert(vstd::utf8::leading_byte_width_1(z) == 0u8) by (bit_vector)
            requires
                z == 0u32,
        ;
    }
    vstd::utf8::encode_utf8_valid_utf8(s.push('\0'));
    vstd::utf8::encode_utf8_decode_utf8(s.push('\0'));
    vstd::utf8::encode_utf8_valid_utf8(s);
    vstd::utf8::encode_utf8_decode_utf8(s);
    crate::tools::text::lemma_no_nul_kept(s);
}

/// The bytes of two texts one after the other are the bytes of the one and
/// those of the other.
pub proof fn lemma_encode_concat(a: Seq<char>, b: Seq<char>)
    ensures
        vstd::utf8::encode_utf8(a + b) == vstd::utf8::encode_utf8(a) + vstd::utf8::encode_utf8(b),
    decreases b.len(),
{
    if b.len() == 0 {
        assert(a + b =~= a);
        assert(vstd::utf8::encode_utf8(b) =~= Seq::<u8>::empty());
        assert(vstd::utf8::encode_utf8(a) + vstd::utf8::encode_utf8(b) =~= vstd::utf8::encode_utf8(
            a,
        ));
    } else {
        let c = b.last();
        let front = b.drop_last();
        lemma_encode_concat(a, front);
        lemma_encode_push(a + front, c);
        lemma_encode_push(front, c);
        assert((a + front).push(c) =~= a + b);
        assert(front.push(c) =~= b);
        assert(vstd::utf8::encode_utf8(a + b) =~= vstd::utf8::encode_utf8(a)
            + vstd::utf8::encode_utf8(b));
    }
}

/// The bytes of letters and other characters of ASCII are the characters.
pub proof fn lemma_ascii_bytes(s: Seq<char>)
    requires
        vstd::utf8::is_ascii_chars(s),
    ensures
        vstd::utf8::encode_utf8(s) == Seq::new(s.len(), |i: int| s[i] as u8),
{
    vstd::utf8::is_ascii_chars_encode_utf8(s);
    assert(vstd::utf8::encode_utf8(s) =~= Seq::new(s.len(), |i: int| s[i] as u8));
}

} // verus!
