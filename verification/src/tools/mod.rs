//! Fixed-width integer codecs shared by the tag formats.
use vstd::prelude::*;

pub mod encoding;
pub mod tags;
pub mod text;
use crate::Error;
use crate::ErrorView;

verus! {

/// The number that `bytes` spell in base 256, most significant byte first.
pub open spec fn be_value(bytes: Seq<u8>) -> nat
    decreases bytes.len(),
{
    if bytes.len() == 0 {
        0
    } else {
        be_value(bytes.drop_last()) * 256 + bytes.last() as nat
    }
}

/// The number that `bytes` spell in base 256, least significant byte first.
pub open spec fn le_value(bytes: Seq<u8>) -> nat
    decreases bytes.len(),
{
    if bytes.len() == 0 {
        0
    } else {
        bytes[0] as nat + 256 * le_value(bytes.drop_first())
    }
}

/// The two bytes of `n`, most significant first.
pub open spec fn be_bytes_u16(n: u16) -> Seq<u8> {
    seq![(n / 0x100) as u8, (n % 0x100) as u8]
}

/// The four bytes of `n`, most significant first.
pub open spec fn be_bytes_u32(n: u32) -> Seq<u8> {
    seq![
        (n / 0x100_0000) as u8,
        (n / 0x1_0000 % 0x100) as u8,
        (n / 0x100 % 0x100) as u8,
        (n % 0x100) as u8,
    ]
}

/// The four bytes of `n`, least significant first.
pub open spec fn le_bytes_u32(n: u32) -> Seq<u8> {
    seq![
        (n % 0x100) as u8,
        (n / 0x100 % 0x100) as u8,
        (n / 0x1_0000 % 0x100) as u8,
        (n / 0x100_0000) as u8,
    ]
}

/// A big-endian number of `n` bytes is below `256^n`, for the widths in use.
pub proof fn lemma_be_value_bound(bytes: Seq<u8>)
    requires
        bytes.len() <= 4,
    ensures
        bytes.len() == 0 ==> be_value(bytes) == 0,
        bytes.len() == 1 ==> be_value(bytes) < 0x100,
        bytes.len() == 2 ==> be_value(bytes) < 0x1_0000,
        bytes.len() == 3 ==> be_value(bytes) < 0x100_0000,
        bytes.len() == 4 ==> be_value(bytes) < 0x1_0000_0000,
    decreases bytes.len(),
{
    if bytes.len() > 0 {
        lemma_be_value_bound(bytes.drop_last());
    }
}

/// A little-endian number of `n` bytes is below `256^n`, for the widths in use.
pub proof fn lemma_le_value_bound(bytes: Seq<u8>)
    requires
        bytes.len() <= 4,
    ensures
        bytes.len() == 0 ==> le_value(bytes) == 0,
        bytes.len() == 1 ==> le_value(bytes) < 0x100,
        bytes.len() == 2 ==> le_value(bytes) < 0x1_0000,
        bytes.len() == 3 ==> le_value(bytes) < 0x100_0000,
        bytes.len() == 4 ==> le_value(bytes) < 0x1_0000_0000,
    decreases bytes.len(),
{
    if bytes.len() > 0 {
        lemma_le_value_bound(bytes.drop_first());
    }
}

/// Appending a byte multiplies a big-endian number by 256 and adds the byte.
pub proof fn lemma_be_value_push(bytes: Seq<u8>, b: u8)
    ensures
        be_value(bytes.push(b)) == be_value(bytes) * 256 + b as nat,
{
    assert(bytes.push(b).drop_last() =~= bytes);
}

/// A big-endian number of two bytes is the first times 256 plus the second.
pub proof fn lemma_be_value_two(bytes: Seq<u8>)
    requires
        bytes.len() == 2,
    ensures
        be_value(bytes) == bytes[0] * 256 + bytes[1],
{
    let b1 = bytes.drop_last();
    assert(b1.drop_last().len() == 0);
    assert(be_value(b1.drop_last()) == 0);
    assert(be_value(b1) == bytes[0]);
}

/// Wraps a message into the tag-format error.
pub fn tag_error(err: &str) -> (e: Error)
    ensures
        e@ == ErrorView::TagError(err@),
{
    Error::TagError(String::from_str(err))
}

/// Reads up to four bytes as a big-endian number.
pub fn decode_int_be_u32(input: &[u8]) -> (result: u32)
    requires
        input@.len() <= 4,
    ensures
        result as nat == be_value(input@),
{
    let mut result: u32 = 0;
    let mut i: usize = 0;
    proof {
        assert(input@.subrange(0, 0) =~= Seq::<u8>::empty());
    }
    while i < input.len()
        invariant
            i <= input@.len() <= 4,
            result as nat == be_value(input@.subrange(0, i as int)),
        decreases input@.len() - i,
    {
        proof {
            lemma_be_value_bound(input@.subrange(0, i as int));
            lemma_be_value_push(input@.subrange(0, i as int), input@[i as int]);
            assert(input@.subrange(0, i as int).push(input@[i as int]) =~= input@.subrange(
                0,
                i + 1,
            ));
        }
        result = result * 256 + input[i] as u32;
        i = i + 1;
    }
    proof {
        assert(input@.subrange(0, i as int) =~= input@);
    }
    result
}

/// Reads up to four bytes as a little-endian number.
pub fn decode_int_le_u32(input: &[u8]) -> (result: u32)
    requires
        input@.len() <= 4,
    ensures
        result as nat == le_value(input@),
{
    let mut result: u32 = 0;
    let mut i: usize = input.len();
    proof {
        assert(input@.subrange(i as int, input@.len() as int) =~= Seq::<u8>::empty());
    }
    while i > 0
        invariant
            i <= input@.len() <= 4,
            result as nat == le_value(input@.subrange(i as int, input@.len() as int)),
        decreases i,
    {
        proof {
            let tail = input@.subrange(i as int, input@.len() as int);
            let whole = input@.subrange(i - 1, input@.len() as int);
            lemma_le_value_bound(tail);
            assert(whole.drop_first() =~= tail);
        }
        i = i - 1;
        result = result * 256 + input[i] as u32;
    }
    proof {
        assert(input@.subrange(0, input@.len() as int) =~= input@);
    }
    result
}

/// Writes `input` as two big-endian bytes.
pub fn encode_int_be_u16(input: u16) -> (result: Vec<u8>)
    ensures
        result@ == be_bytes_u16(input),
{
    let mut result: Vec<u8> = Vec::new();
    result.push((input / 0x100) as u8);
    result.push((input % 0x100) as u8);
    proof {
        assert(result@ =~= be_bytes_u16(input));
    }
    result
}

/// Writes `input` as four big-endian bytes.
pub fn encode_int_be_u32(input: u32) -> (result: Vec<u8>)
    ensures
        result@ == be_bytes_u32(input),
{
    let mut result: Vec<u8> = Vec::new();
    result.push((input / 0x100_0000) as u8);
    result.push((input / 0x1_0000 % 0x100) as u8);
    result.push((input / 0x100 % 0x100) as u8);
    result.push((input % 0x100) as u8);
    proof {
        assert(result@ =~= be_bytes_u32(input));
    }
    result
}

/// Writes `input` as four little-endian bytes.
pub fn encode_int_le_u32(input: u32) -> (result: Vec<u8>)
    ensures
        result@ == le_bytes_u32(input),
{
    let mut result: Vec<u8> = Vec::new();
    result.push((input % 0x100) as u8);
    result.push((input / 0x100 % 0x100) as u8);
    result.push((input / 0x1_0000 % 0x100) as u8);
    result.push((input / 0x100_0000) as u8);
    proof {
        assert(result@ =~= le_bytes_u32(input));
    }
    result
}

/// Decoding the big-endian bytes of a number gives the number back.
pub proof fn lemma_be_u32_roundtrip(n: u32)
    ensures
        be_bytes_u32(n).len() == 4,
        be_value(be_bytes_u32(n)) == n,
{
    let b = be_bytes_u32(n);
    let b3 = b.drop_last();
    let b2 = b3.drop_last();
    let b1 = b2.drop_last();
    assert(b1.drop_last().len() == 0);
    assert(be_value(b1.drop_last()) == 0);
    assert(be_value(b1) == b[0]);
    assert(be_value(b2) == b[0] * 256 + b[1]);
    assert(be_value(b3) == (b[0] * 256 + b[1]) * 256 + b[2]);
}

/// Decoding the big-endian bytes of a 16-bit number gives the number back.
pub proof fn lemma_be_u16_roundtrip(n: u16)
    ensures
        be_bytes_u16(n).len() == 2,
        be_value(be_bytes_u16(n)) == n,
{
    let b = be_bytes_u16(n);
    let b1 = b.drop_last();
    assert(b1.drop_last().len() == 0);
    assert(be_value(b1.drop_last()) == 0);
    assert(be_value(b1) == b[0]);
}

/// Decoding the little-endian bytes of a number gives the number back.
pub proof fn lemma_le_u32_roundtrip(n: u32)
    ensures
        le_bytes_u32(n).len() == 4,
        le_value(le_bytes_u32(n)) == n,
{
    let b = le_bytes_u32(n);
    let b1 = b.drop_first();
    let b2 = b1.drop_first();
    let b3 = b2.drop_first();
    assert(b3.drop_first().len() == 0);
    assert(le_value(b3.drop_first()) == 0);
    assert(le_value(b3) == b[3]);
    assert(le_value(b2) == b[2] + 256 * b[3]);
    assert(le_value(b1) == b[1] + 256 * (b[2] + 256 * b[3]));
}

} // verus!
