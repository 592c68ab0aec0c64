//! Cover art.
use vstd::prelude::*;
use vstd::slice::slice_subrange;
use crate::tools::be_value;
use crate::tools::text::decimal;
use crate::tools::text::hex_chars;
use crate::tools::text::hex_upper;
use crate::tools::text::string_of;
use crate::tools::text::u64_to_string;

verus! {

/// A cover image: the bytes of a PNG or JPEG file, or no image.
#[derive(PartialEq, Debug)]
pub enum Image {
    PNG(Vec<u8>),
    JPEG(Vec<u8>),
    Empty,
}

/// What contracts say of an [`Image`].
pub enum ImageView {
    PNG(Seq<u8>),
    JPEG(Seq<u8>),
    Empty,
}

impl View for Image {
    type V = ImageView;

    open spec fn view(&self) -> ImageView {
        match self {
            Image::PNG(v) => ImageView::PNG(v@),
            Image::JPEG(v) => ImageView::JPEG(v@),
            Image::Empty => ImageView::Empty,
        }
    }
}

impl Clone for Image {
    fn clone(&self) -> (r: Image)
        ensures
            r@ == self@,
    {
        match self {
            Image::PNG(v) => Image::PNG(v.clone()),
            Image::JPEG(v) => Image::JPEG(v.clone()),
            Image::Empty => Image::Empty,
        }
    }
}

/// The CRC-32 of `bytes` with the IEEE polynomial, as the `crc` crate computes it.
pub uninterp spec fn crc32_ieee(bytes: Seq<u8>) -> u32;

/// `crc32::checksum_ieee` of the `crc` crate: the checksum is a function of the bytes.
#[verifier::external_body]
fn checksum_ieee(bytes: &[u8]) -> (r: u32)
    ensures
        r == crc32_ieee(bytes@),
{
    crc::crc32::checksum_ieee(bytes)
}

/// The eight bytes that a PNG file starts with.
pub open spec fn png_signature() -> Seq<u8> {
    seq![0x89u8, 0x50u8, 0x4Eu8, 0x47u8, 0x0Du8, 0x0Au8, 0x1Au8, 0x0Au8]
}

/// Width, height and bits per pixel of a PNG file: they stand in its first
/// chunk, behind the signature.
pub open spec fn png_dimensions(v: Seq<u8>) -> Option<(u32, u32, u8)> {
    if v.len() >= 25 && v.subrange(0, 8) == png_signature() {
        Some((be_value(v.subrange(16, 20)) as u32, be_value(v.subrange(20, 24)) as u32, v[24]))
    } else {
        None
    }
}

/// Width, height and bits per sample of a JPEG stream, from the first
/// start-of-frame segment (`FF C0` to `FF CF`) found from `pos` on, going
/// from segment to segment by their lengths.
pub open spec fn jpeg_dimensions_from(v: Seq<u8>, pos: int) -> Option<(u32, u32, u8)>
    decreases
            (if pos < v.len() {
                v.len() - pos
            } else {
                0
            }),
{
    if pos < 0 || pos + 8 >= v.len() {
        None
    } else if v[pos] == 0xFF && 0xC0 <= v[pos + 1] <= 0xCF {
        Some(
            (
                be_value(v.subrange(pos + 7, pos + 9)) as u32,
                be_value(v.subrange(pos + 5, pos + 7)) as u32,
                v[pos + 4],
            ),
        )
    } else {
        jpeg_dimensions_from(v, pos + 2 + v[pos + 2] * 256 + v[pos + 3])
    }
}

/// Width, height and bits per sample of a JPEG file, which starts with `FF D8`.
pub open spec fn jpeg_dimensions(v: Seq<u8>) -> Option<(u32, u32, u8)> {
    if v.len() >= 2 && v[0] == 0xFF && v[1] == 0xD8 {
        jpeg_dimensions_from(v, 2)
    } else {
        None
    }
}

/// Reads up to four bytes as a big-endian number.
pub fn decode_int_be_u32(input: &[u8]) -> (result: u32)
    requires
        input@.len() <= 4,
    ensures
        result as nat == be_value(input@),
{
    crate::tools::decode_int_be_u32(input)
}

/// Width, height and bits per pixel of a PNG file.
fn png_size(v: &Vec<u8>) -> (r: Option<(u32, u32, u8)>)
    ensures
        r == png_dimensions(v@),
{
    if v.len() < 25 {
        return None;
    }
    if v[0] != 0x89 || v[1] != 0x50 || v[2] != 0x4E || v[3] != 0x47 || v[4] != 0x0D || v[5]
        != 0x0A || v[6] != 0x1A || v[7] != 0x0A {
        proof {
            let head = v@.subrange(0, 8);
            assert(head[0] == v@[0] && head[1] == v@[1] && head[2] == v@[2] && head[3] == v@[3]
                && head[4] == v@[4] && head[5] == v@[5] && head[6] == v@[6] && head[7]
                == v@[7]);
        }
        return None;
    }
    proof {
        assert(v@.subrange(0, 8) =~= png_signature());
    }
    let width = crate::tools::decode_int_be_u32(slice_subrange(v.as_slice(), 16, 20));
    let height = crate::tools::decode_int_be_u32(slice_subrange(v.as_slice(), 20, 24));
    Some((width, height, v[24]))
}

/// Width, height and bits per pixel of a JPEG file.
fn jpeg_size(v: &Vec<u8>) -> (r: Option<(u32, u32, u8)>)
    ensures
        r == jpeg_dimensions(v@),
{
    let n: usize = v.len();
    if n < 2 || v[0] != 0xFF || v[1] != 0xD8 {
        return None;
    }
    let mut pos: usize = 2;
    while n - pos > 8
        invariant
            2 <= pos <= n,
            n == v@.len(),
            jpeg_dimensions_from(v@, pos as int) == jpeg_dimensions(v@),
        decreases n - pos,
    {
        if v[pos] == 0xFF && 0xC0 <= v[pos + 1] && v[pos + 1] <= 0xCF {
            let width = crate::tools::decode_int_be_u32(
                slice_subrange(v.as_slice(), pos + 7, pos + 9),
            );
            let height = crate::tools::decode_int_be_u32(
                slice_subrange(v.as_slice(), pos + 5, pos + 7),
            );
            return Some((width, height, v[pos + 4]));
        }
        let size = crate::tools::decode_int_be_u32(slice_subrange(v.as_slice(), pos + 2, pos + 4));
        proof {
            crate::tools::lemma_be_value_bound(v@.subrange(pos + 2, pos + 4));
            crate::tools::lemma_be_value_two(v@.subrange(pos + 2, pos + 4));
        }
        let step: usize = 2 + size as usize;
        if n - pos <= step {
            proof {
                assert(jpeg_dimensions_from(v@, pos + step) is None);
            }
            return None;
        }
        pos = pos + step;
    }
    None
}

impl ImageView {
    /// The media type of the image; empty without an image.
    pub open spec fn mime(self) -> Seq<char> {
        match self {
            ImageView::PNG(_) => "image/png"@,
            ImageView::JPEG(_) => "image/jpeg"@,
            ImageView::Empty => ""@,
        }
    }

    /// Width, height and bits per pixel, as far as the file's own header
    /// gives them.
    pub open spec fn dimensions(self) -> Option<(u32, u32, u8)> {
        match self {
            ImageView::PNG(v) => png_dimensions(v),
            ImageView::JPEG(v) => jpeg_dimensions(v),
            ImageView::Empty => None,
        }
    }

    /// The bytes of the image; none without an image.
    pub open spec fn bytes(self) -> Seq<u8> {
        match self {
            ImageView::PNG(v) => v,
            ImageView::JPEG(v) => v,
            ImageView::Empty => Seq::empty(),
        }
    }
}

/// The line that describes an image: its kind, checksum, length and size,
/// which is 0 by 0 at 0 bits where it is not found.
pub open spec fn image_line(image: ImageView) -> Seq<char> {
    let size = match image.dimensions() {
        Some(d) => d,
        None => (0u32, 0u32, 0u8),
    };
    match image {
        ImageView::Empty => "None"@,
        _ => (if image is PNG {
            "PNG 0x"@
        } else {
            "JPEG 0x"@
        }) + hex_upper(crc32_ieee(image.bytes()) as nat) + " ("@ + decimal(image.bytes().len())
            + " bytes, "@ + decimal(size.0 as nat) + "x"@ + decimal(size.1 as nat) + ", "@
            + decimal(size.2 as nat) + "bpp)"@,
    }
}

impl Image {
    /// Describes the image in one line.
    pub fn describe(&self) -> (r: String)
        ensures
            r@ == image_line(self@),
    {
        let (kind, x): (&str, &Vec<u8>) = match self {
            Image::PNG(x) => ("PNG 0x", x),
            Image::JPEG(x) => ("JPEG 0x", x),
            Image::Empty => {
                return String::from_str("None");
            },
        };
        let res = match self.dimensions() {
            Some(d) => d,
            None => (0u32, 0u32, 0u8),
        };
        let mut s = String::from_str(kind);
        let sum = string_of(&hex_chars(checksum_ieee(x.as_slice()) as u64));
        s.append(sum.as_str());
        s.append(" (");
        s.append(u64_to_string(x.len() as u64).as_str());
        s.append(" bytes, ");
        s.append(u64_to_string(res.0 as u64).as_str());
        s.append("x");
        s.append(u64_to_string(res.1 as u64).as_str());
        s.append(", ");
        s.append(u64_to_string(res.2 as u64).as_str());
        s.append("bpp)");
        s
    }


    /// The MIME type of the image; empty where there is none.
    pub fn mime(&self) -> (r: String)
        ensures
            r@ == self@.mime(),
    {
        match self {
            Image::PNG(_) => String::from_str("image/png"),
            Image::JPEG(_) => String::from_str("image/jpeg"),
            Image::Empty => String::from_str(""),
        }
    }

    /// Whether there is an image.
    pub fn is_some(&self) -> (r: bool)
        ensures
            r == !(self is Empty),
    {
        match self {
            Image::Empty => false,
            _ => true,
        }
    }

    /// Whether there is no image.
    pub fn is_none(&self) -> (r: bool)
        ensures
            r == (self is Empty),
    {
        !self.is_some()
    }

    /// The bytes of the image.
    pub fn unwrap(self) -> (r: Vec<u8>)
        requires
            !(self is Empty),
        ensures
            self == Image::PNG(r) || self == Image::JPEG(r),
            r@ == self@.bytes(),
    {
        match self {
            Image::PNG(v) => v,
            Image::JPEG(v) => v,
            Image::Empty => vstd::pervasive::unreached(),
        }
    }

    /// The CRC-32 of the image's bytes.
    pub fn crc32(&self) -> (r: Option<u32>)
        ensures
            r == (if self@ is Empty {
                None
            } else {
                Some(crc32_ieee(self@.bytes()))
            }),
    {
        match self {
            Image::JPEG(x) => Some(checksum_ieee(x.as_slice())),
            Image::PNG(x) => Some(checksum_ieee(x.as_slice())),
            Image::Empty => None,
        }
    }

    /// Width, height and bits per pixel.
    pub fn dimensions(&self) -> (r: Option<(u32, u32, u8)>)
        ensures
            r == self@.dimensions(),
    {
        match self {
            Image::JPEG(v) => jpeg_size(v),
            Image::PNG(v) => png_size(v),
            Image::Empty => None,
        }
    }
}

} // verus!
