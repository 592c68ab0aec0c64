//! Reading the parts of an ID3v2 tag: its header, frame headers, text,
//! comments and pictures.
use vstd::prelude::*;
use vstd::slice::slice_subrange;
use crate::id3v2::structure::FrameHeader;
use crate::id3v2::structure::FrameHeaderView;
use crate::id3v2::structure::Header;
use crate::id3v2::tools::decode_frame_id;
use crate::id3v2::tools::decode_refused;
use crate::id3v2::tools::decode_synch_int;
use crate::id3v2::tools::decode_synch_spec;
use crate::id3v2::tools::frame_id_chars;
use crate::store::avail;
use crate::store::read_filled;
use crate::store::read_over;
use crate::store::skipped;
use crate::store::Store;
use crate::tools::be_value;
use crate::tools::decode_int_be_u32;
use crate::tools::encoding::decode_iso_8859_1;
use crate::tools::encoding::decode_utf16;
use crate::tools::encoding::decode_utf8;
use crate::tools::encoding::latin1_text;
use crate::tools::encoding::utf16_text;
use crate::tools::encoding::utf8_text;
use crate::tools::lemma_be_value_bound;
use crate::tools::tag_error;
use crate::tools::text::decimal;
use crate::tools::text::replace_nul;
use crate::tools::text::replace_nul_in;
use crate::tools::text::u64_to_string;
use crate::types::image::Image;
use crate::types::image::ImageView;
use crate::Error;
use crate::ErrorView;

verus! {

/// Whether the bit `mask`, a power of two, is set in `b`.
pub open spec fn has_bit(b: u8, mask: u8) -> bool {
    b / mask % 2 == 1
}

/// Whether the bit `mask`, a power of two, is set in `b`.
pub fn bit(b: u8, mask: u8) -> (r: bool)
    requires
        mask > 0,
    ensures
        r == has_bit(b, mask),
{
    b / mask % 2 == 1
}

/// The text of a frame's content: the first byte names the encoding (0 for
/// ISO 8859-1, 1 and 2 for UTF-16, anything else for UTF-8) of the rest. A
/// frame without content has no text.
pub open spec fn encoded_text(bytes: Seq<u8>) -> Seq<char> {
    if bytes.len() == 0 {
        Seq::empty()
    } else if bytes[0] == 0 {
        latin1_text(bytes.skip(1))
    } else if bytes[0] == 1 || bytes[0] == 2 {
        utf16_text(bytes.skip(1))
    } else {
        utf8_text(bytes.skip(1))
    }
}

/// The text of a frame as the tags hold it: " / " stands between the
/// strings of a list.
pub open spec fn frame_text(bytes: Seq<u8>) -> Seq<char> {
    replace_nul(encoded_text(bytes))
}

/// Decodes the content of a text frame.
pub fn string_from_slice(arr: &[u8]) -> (r: String)
    ensures
        r@ == encoded_text(arr@),
{
    let n: usize = arr.len();
    if n == 0 {
        return String::new();
    }
    let rest = slice_subrange(arr, 1, n);
    proof {
        assert(rest@ =~= arr@.skip(1));
    }
    if arr[0] == 0 {
        decode_iso_8859_1(rest)
    } else if arr[0] == 1 || arr[0] == 2 {
        decode_utf16(rest)
    } else {
        decode_utf8(rest)
    }
}

/// Reads the text of a frame of `length` bytes.
pub fn string(input: &mut Store, length: u32) -> (r: String)
    ensures
        r@ == frame_text(read_filled(old(input).data@, old(input).pos as int, length as int, 0)),
        final(input).data == old(input).data,
        final(input).pos == old(input).pos + avail(
            old(input).data@.len() as int,
            old(input).pos as int,
            length as int,
        ),
{
    let vec = input.read_filled(length as usize, 0);
    let s = string_from_slice(vec.as_slice());
    replace_nul_in(s.as_str())
}

/// The comment of a frame of `length` bytes at `pos`, and where the cursor
/// stands after it. A frame under five bytes, or one with a description
/// (its fifth byte is not zero), is skipped and has no comment.
pub open spec fn comment_at(data: Seq<u8>, pos: int, length: u32) -> (Option<Seq<char>>, int) {
    if length < 5 {
        (None, skipped(pos, length as int))
    } else {
        let header = read_filled(data, pos, 5, 0);
        let pos1 = pos + avail(data.len() as int, pos, 5);
        if header[4] != 0 {
            (None, skipped(pos1, length - 5))
        } else {
            (
                Some(frame_text(seq![header[0]] + read_filled(data, pos1, length - 5, 0))),
                pos1 + avail(data.len() as int, pos1, length - 5),
            )
        }
    }
}

/// Reads a comment frame of `length` bytes; only a comment without a
/// description is collected.
pub fn comment(input: &mut Store, length: u32) -> (r: Option<String>)
    ensures
        (match r {
            Some(s) => Some(s@),
            None => None,
        }) == comment_at(old(input).data@, old(input).pos as int, length).0,
        final(input).pos == comment_at(old(input).data@, old(input).pos as int, length).1,
        final(input).data == old(input).data,
{
    if length < 5 {
        input.skip(length as i64);
        return None;
    }
    let header = input.read_filled(5, 0);
    if header[4] != 0x00 {
        input.skip(length as i64 - 5);
        return None;
    }
    let mut vec: Vec<u8> = vec![0; length as usize - 5 + 1];
    let ghost pos1 = input.pos as int;
    input.read_at(&mut vec, 1);
    vec[0] = header[0];
    proof {
        assert(vec@ =~= seq![header@[0]] + read_filled(input.data@, pos1, length - 5, 0));
    }
    let s = string_from_slice(vec.as_slice());
    Some(replace_nul_in(s.as_str()))
}

/// The header of the frame that starts `arr`, the bytes read for it, in a
/// tag of the given version; none where the id or the size is malformed.
/// Version 2 has three bytes of id and three of size; later versions four of
/// each, the size synchsafe in version 4, and two bytes of flags.
pub open spec fn frame_header_of(arr: Seq<u8>, version: u8) -> Option<FrameHeaderView> {
    if version == 2 {
        match frame_id_chars(arr.subrange(0, 3)) {
            Some(name) => Some(
                FrameHeaderView {
                    name,
                    size: be_value(arr.subrange(3, 6)) as u32,
                    drop_after_tag_alteration: false,
                    drop_after_file_alteration: false,
                    is_unsynchronized: false,
                    is_compressed: false,
                },
            ),
            None => None,
        }
    } else {
        let size: Option<u32> = if version == 3 {
            Some(be_value(arr.subrange(4, 8)) as u32)
        } else if version == 4 {
            match decode_synch_spec(arr.subrange(4, 8)) {
                Ok(v) => Some(v),
                Err(_) => None,
            }
        } else {
            None
        };
        match (size, frame_id_chars(arr.subrange(0, 4))) {
            (Some(size), Some(name)) => Some(
                FrameHeaderView {
                    name,
                    size,
                    drop_after_tag_alteration: has_bit(arr[8], 0x40),
                    drop_after_file_alteration: has_bit(arr[8], 0x20),
                    is_unsynchronized: has_bit(arr[9], 0x02),
                    is_compressed: has_bit(arr[9], 0x08),
                },
            ),
            _ => None,
        }
    }
}

/// How many bytes the header of a frame takes.
pub open spec fn frame_header_len(version: u8) -> int {
    if version == 2 {
        6
    } else {
        10
    }
}

/// What the error says where `arr` holds no header of a frame: a size
/// that is not synchsafe comes before an id that is none.
pub open spec fn frame_header_refused(arr: Seq<u8>, version: u8) -> Seq<char> {
    if version == 2 {
        decode_refused(arr.subrange(0, 3))
    } else if version == 3 {
        decode_refused(arr.subrange(0, 4))
    } else if version == 4 {
        match decode_synch_spec(arr.subrange(4, 8)) {
            Ok(_) => decode_refused(arr.subrange(0, 4)),
            Err(m) => m,
        }
    } else {
        "Unknown ID3 version"@
    }
}

/// The header of the frame at `pos`.
pub open spec fn frame_header_at(data: Seq<u8>, pos: int, version: u8) -> Option<
    FrameHeaderView,
> {
    frame_header_of(read_filled(data, pos, frame_header_len(version), 0), version)
}

/// Reads the header of a frame.
pub fn frame_header(input: &mut Store, version: u8) -> (r: Result<FrameHeader, Error>)
    ensures
        match r {
            Ok(f) => frame_header_at(old(input).data@, old(input).pos as int, version) == Some(
                f@,
            ),
            Err(e) => frame_header_at(old(input).data@, old(input).pos as int, version) is None
                && e@ == ErrorView::TagError(
                frame_header_refused(
                    read_filled(
                        old(input).data@,
                        old(input).pos as int,
                        frame_header_len(version),
                        0,
                    ),
                    version,
                ),
            ),
        },
        final(input).data == old(input).data,
        final(input).pos == old(input).pos + avail(
            old(input).data@.len() as int,
            old(input).pos as int,
            frame_header_len(version),
        ),
{
    if version == 2 {
        let arr = input.read_filled(6, 0);
        let name = match decode_frame_id(slice_subrange(arr.as_slice(), 0, 3)) {
            Ok(name) => name,
            Err(m) => {
                return Err(Error::TagError(m));
            },
        };
        proof {
            lemma_be_value_bound(arr@.subrange(3, 6));
        }
        let size = decode_int_be_u32(slice_subrange(arr.as_slice(), 3, 6));
        return Ok(
            FrameHeader {
                name,
                size,
                drop_after_tag_alteration: false,
                drop_after_file_alteration: false,
                is_unsynchronized: false,
                is_compressed: false,
            },
        );
    }
    let arr = input.read_filled(10, 0);
    let size: u32 = if version == 3 {
        proof {
            lemma_be_value_bound(arr@.subrange(4, 8));
        }
        decode_int_be_u32(slice_subrange(arr.as_slice(), 4, 8))
    } else if version == 4 {
        match decode_synch_int(slice_subrange(arr.as_slice(), 4, 8)) {
            Ok(v) => v,
            Err(m) => {
                return Err(Error::TagError(m));
            },
        }
    } else {
        return Err(tag_error("Unknown ID3 version"));
    };
    let flags1: u8 = arr[8];
    let flags2: u8 = arr[9];
    let name = match decode_frame_id(slice_subrange(arr.as_slice(), 0, 4)) {
        Ok(name) => name,
        Err(m) => {
            return Err(Error::TagError(m));
        },
    };
    Ok(
        FrameHeader {
            name,
            size,
            drop_after_tag_alteration: bit(flags1, 0x40),
            drop_after_file_alteration: bit(flags1, 0x20),
            is_unsynchronized: bit(flags2, 0x02),
            is_compressed: bit(flags2, 0x08),
        },
    )
}

/// The header of the tag that starts `data`: `ID3`, the version (2 to 4), a
/// byte of revision, the flags, of which the low four must be clear and the
/// extended header is not supported, and the synchsafe size.
pub open spec fn header_of(data: Seq<u8>) -> Result<Header, ErrorView> {
    let arr = read_filled(data, 0, 10, 0);
    if !(arr[0] == 0x49 && arr[1] == 0x44 && arr[2] == 0x33) {
        Err(ErrorView::TagError("ID3v2 header not found"@))
    } else if arr[3] == 0xFF {
        Err(ErrorView::TagError("Invalid ID3v2 version"@))
    } else if arr[3] > 4 || arr[3] < 2 {
        Err(ErrorView::TagError("ID3v2."@ + decimal(arr[3] as nat) + " is not supported"@))
    } else if arr[5] % 0x10 != 0 {
        Err(ErrorView::TagError("Unsupported flags found in ID3 header"@))
    } else if has_bit(arr[5], 0x40) {
        Err(ErrorView::TagError("Extended ID3 headers are currently not supported"@))
    } else {
        match decode_synch_spec(arr.subrange(6, 10)) {
            Ok(size) => Ok(
                Header {
                    version: arr[3],
                    size,
                    is_unsynchronized: has_bit(arr[5], 0x80),
                    is_experimental: has_bit(arr[5], 0x20),
                    has_footer: has_bit(arr[5], 0x10),
                    extended_header: None,
                },
            ),
            Err(m) => Err(ErrorView::TagError(m)),
        }
    }
}

/// Reads the header of the tag at the start of the store.
pub fn header(input: &mut Store) -> (r: Result<Header, Error>)
    ensures
        match r {
            Ok(h) => header_of(old(input).data@) == Ok::<Header, ErrorView>(h) && 2 <= h.version
                <= 4,
            Err(e) => header_of(old(input).data@) == Err::<Header, ErrorView>(e@),
        },
        final(input).data == old(input).data,
        final(input).pos == avail(old(input).data@.len() as int, 0, 10),
{
    input.seek_start(0);
    let arr = input.read_filled(10, 0);
    if !(arr[0] == 0x49 && arr[1] == 0x44 && arr[2] == 0x33) {
        return Err(tag_error("ID3v2 header not found"));
    }
    let version: u8 = arr[3];
    if version == 0xFF {
        return Err(tag_error("Invalid ID3v2 version"));
    }
    if version > 4 || version < 2 {
        let mut m = String::from_str("ID3v2.");
        let number = u64_to_string(version as u64);
        m.append(number.as_str());
        m.append(" is not supported");
        return Err(Error::TagError(m));
    }
    let flags: u8 = arr[5];
    if flags % 0x10 != 0 {
        return Err(tag_error("Unsupported flags found in ID3 header"));
    }
    if bit(flags, 0x40) {
        return Err(tag_error("Extended ID3 headers are currently not supported"));
    }
    match decode_synch_int(slice_subrange(arr.as_slice(), 6, 10)) {
        Ok(size) => Ok(
            Header {
                version,
                size,
                is_unsynchronized: bit(flags, 0x80),
                is_experimental: bit(flags, 0x20),
                has_footer: bit(flags, 0x10),
                extended_header: None,
            },
        ),
        Err(m) => Err(Error::TagError(m)),
    }
}

/// The bytes of `s` in UTF-8.
pub open spec fn text_bytes(s: Seq<char>) -> Seq<u8> {
    vstd::utf8::encode_utf8(s)
}

/// Whether a JPEG file starts at `i` in `v`, behind a zero: `00 FF D8 FF`.
pub open spec fn jpeg_at(v: Seq<u8>, i: int) -> bool {
    v[i - 1] == 0x00 && v[i] == 0xFF && v[i + 1] == 0xD8 && v[i + 2] == 0xFF
}

/// Whether a PNG file starts at `i` in `v`, behind a zero: `00 89 50 4E`.
pub open spec fn png_at(v: Seq<u8>, i: int) -> bool {
    v[i - 1] == 0x00 && v[i] == 0x89 && v[i + 1] == 0x50 && v[i + 2] == 0x4E
}

/// The image that starts at the first place from `i` on and before `end`
/// where the start of a JPEG or PNG file stands behind a zero; it runs to
/// the end of `v`.
pub open spec fn image_from(v: Seq<u8>, i: int, end: int) -> ImageView
    decreases
            (if i < end {
                end - i
            } else {
                0
            }),
{
    if i >= end {
        ImageView::Empty
    } else if jpeg_at(v, i) {
        ImageView::JPEG(v.skip(i))
    } else if png_at(v, i) {
        ImageView::PNG(v.skip(i))
    } else {
        image_from(v, i + 1, end)
    }
}

/// What the header of a picture frame says to do with the frame.
pub enum Plan {
    /// Not a picture to collect: pass over the frame.
    Skip,
    /// The image starts at `at` in the frame.
    Take { jpeg: bool, at: usize, kind: u8 },
    /// A description stands before the image: look for its start from `from` on.
    Scan { from: usize, kind: u8 },
}

/// Whether the media type of a picture frame with the header `header` is
/// `name`: it follows the encoding byte and ends with a zero.
pub open spec fn named(header: Seq<u8>, name: Seq<char>) -> bool {
    let b = text_bytes(name);
    let end = 1 + b.len() as int;
    end < header.len() && header.subrange(1, end) == b && header[end] == 0
}

/// The plan for a frame whose media type is `name`, none if it is not; a
/// picture of any type is collected. With
/// an empty description the image follows at once, and `ideal` says that
/// the header may be trusted on that; its first byte, where the header
/// reaches it, must then start a JPEG (`FF`) or PNG (`89`) file.
pub open spec fn mime_plan(header: Seq<u8>, name: Seq<char>, jpeg: bool, ideal: bool) -> Option<
    Plan,
> {
    let l = text_bytes(name).len() as int;
    if named(header, name) && l + 2 < header.len() && l + 4 <= usize::MAX {
        let kind = header[l + 2];
        if ideal && l + 4 <= header.len() && header[l + 3] == 0 && (l + 4 == header.len()
            || header[l + 4] == (if jpeg {
            0xFFu8
        } else {
            0x89u8
        })) {
            Some(Plan::Take { jpeg, at: (l + 4) as usize, kind })
        } else {
            Some(Plan::Scan { from: (l + 1) as usize, kind })
        }
    } else {
        None
    }
}

/// The plan for an `APIC` frame with the given first fourteen bytes.
pub open spec fn apic_plan_of(header: Seq<u8>) -> Plan {
    if mime_plan(header, "image/jpeg"@, true, true) is Some {
        mime_plan(header, "image/jpeg"@, true, true)->0
    } else if mime_plan(header, "image/jpg"@, true, true) is Some {
        mime_plan(header, "image/jpg"@, true, true)->0
    } else if mime_plan(header, "image/png"@, false, true) is Some {
        mime_plan(header, "image/png"@, false, true)->0
    } else if mime_plan(header, "png"@, false, false) is Some {
        mime_plan(header, "png"@, false, false)->0
    } else if mime_plan(header, "jpeg"@, true, false) is Some {
        mime_plan(header, "jpeg"@, true, false)->0
    } else {
        Plan::Skip
    }
}

/// The plan for a `PIC` frame of version 2 with the given first six bytes:
/// the encoding, `JPG` or `PNG`, the picture type, and the first byte of
/// the description. A picture of any type is collected.
pub open spec fn pic_plan_of(header: Seq<u8>) -> Plan {
    let kind = header[4];
    let jpeg = header[1] == 0x4A && header[2] == 0x50 && header[3] == 0x47;
    let png = header[1] == 0x50 && header[2] == 0x4E && header[3] == 0x47;
    if !jpeg && !png {
        Plan::Skip
    } else if header[5] == 0 {
        Plan::Take { jpeg, at: 6, kind }
    } else {
        Plan::Scan { from: 6, kind }
    }
}

/// The image of a frame and its picture type, by the plan. A frame that is
/// passed over gives no image and the type `FF`; one in which no image is
/// found gives no image and the type 0.
pub open spec fn picture_of(frame: Seq<u8>, plan: Plan, end: int) -> (ImageView, u8) {
    match plan {
        Plan::Skip => (ImageView::Empty, 0xFFu8),
        Plan::Take { jpeg, at, kind } => (
            if jpeg {
                ImageView::JPEG(frame.skip(at as int))
            } else {
                ImageView::PNG(frame.skip(at as int))
            },
            kind,
        ),
        Plan::Scan { from, kind } => {
            let found = image_from(frame, from as int, end);
            (
                found,
                if found is Empty {
                    0u8
                } else {
                    kind
                },
            )
        },
    }
}

/// The picture of the frame of `length` bytes at `pos` whose header takes
/// `header_len` bytes, and where the cursor stands after it: a frame that
/// is passed over is not read.
pub open spec fn picture_at(
    data: Seq<u8>,
    pos: int,
    length: u32,
    header_len: int,
    plan: Plan,
    gap: int,
) -> ((ImageView, u8), int) {
    let pos1 = pos + avail(data.len() as int, pos, header_len);
    if plan is Skip {
        ((ImageView::Empty, 0xFFu8), skipped(pos1, length - header_len))
    } else {
        (
            picture_of(read_filled(data, pos, length as int, 0), plan, length - gap),
            pos1 + avail(data.len() as int, pos1, length - header_len),
        )
    }
}

/// The picture of the `APIC` frame of `length` bytes at `pos`, with its
/// type, and where the cursor stands after it.
pub open spec fn image_at(data: Seq<u8>, pos: int, length: u32) -> ((ImageView, u8), int) {
    if length < 14 {
        ((ImageView::Empty, 0xFFu8), skipped(pos, length as int))
    } else {
        picture_at(data, pos, length, 14, apic_plan_of(read_filled(data, pos, 14, 0)), 4)
    }
}

/// The picture of the `PIC` frame of `length` bytes at `pos`, with its
/// type, and where the cursor stands after it.
pub open spec fn image_v2_at(data: Seq<u8>, pos: int, length: u32) -> ((ImageView, u8), int) {
    if length < 6 {
        ((ImageView::Empty, 0xFFu8), skipped(pos, length as int))
    } else {
        picture_at(data, pos, length, 6, pic_plan_of(read_filled(data, pos, 6, 0)), 3)
    }
}

/// Whether `buf[at..]` starts with the bytes of `pat`.
pub fn bytes_at(buf: &[u8], at: usize, pat: &str) -> (r: bool)
    ensures
        r == (at + text_bytes(pat@).len() <= buf@.len() && buf@.subrange(
            at as int,
            at + text_bytes(pat@).len(),
        ) == text_bytes(pat@)),
{
    let p = pat.as_bytes();
    let n: usize = p.len();
    if at > buf.len() || buf.len() - at < n {
        return false;
    }
    let mut i: usize = 0;
    while i < n
        invariant
            i <= n,
            n == p@.len(),
            p@ == text_bytes(pat@),
            at + n <= buf.len(),
            forall|k: int| 0 <= k < i ==> buf@[at + k] == p@[k],
        decreases n - i,
    {
        if buf[at + i] != p[i] {
            proof {
                assert(buf@.subrange(at as int, at + n)[i as int] != p@[i as int]);
            }
            return false;
        }
        i = i + 1;
    }
    proof {
        assert(buf@.subrange(at as int, at + n) =~= p@);
    }
    true
}

/// Where the image starts if `name` stands at the start of the frame.
fn plan_for(header: &Vec<u8>, name: &str, jpeg: bool, ideal: bool) -> (r: Option<Plan>)
    ensures
        r == mime_plan(header@, name@, jpeg, ideal),
{
    let l: usize = name.len();
    let n: usize = header.len();
    if !bytes_at(header.as_slice(), 1, name) {
        return None;
    }
    if !(n - 1 > l && header[1 + l] == 0 && n - l > 2 && l <= usize::MAX - 4) {
        return None;
    }
    let kind: u8 = header[l + 2];
    let magic: u8 = if jpeg {
        0xFF
    } else {
        0x89
    };
    if ideal && l + 4 <= n && header[l + 3] == 0 && (l + 4 == n || header[l + 4] == magic) {
        Some(Plan::Take { jpeg, at: l + 4, kind })
    } else {
        Some(Plan::Scan { from: l + 1, kind })
    }
}

/// Where the image of a picture frame starts, and of which kind it is.
fn apic_plan(header: &Vec<u8>) -> (r: Plan)
    ensures
        r == apic_plan_of(header@),
{
    if let Some(p) = plan_for(header, "image/jpeg", true, true) {
        return p;
    }
    if let Some(p) = plan_for(header, "image/jpg", true, true) {
        return p;
    }
    if let Some(p) = plan_for(header, "image/png", false, true) {
        return p;
    }
    if let Some(p) = plan_for(header, "png", false, false) {
        return p;
    }
    if let Some(p) = plan_for(header, "jpeg", true, false) {
        return p;
    }
    Plan::Skip
}

/// Where the image of a picture frame of version 2 starts, and of which kind it is.
fn pic_plan(header: &Vec<u8>) -> (r: Plan)
    requires
        header@.len() == 6,
    ensures
        r == pic_plan_of(header@),
{
    let kind: u8 = header[4];
    let jpeg: bool = header[1] == 0x4A && header[2] == 0x50 && header[3] == 0x47;
    let png: bool = header[1] == 0x50 && header[2] == 0x4E && header[3] == 0x47;
    if !jpeg && !png {
        Plan::Skip
    } else if header[5] == 0 {
        Plan::Take { jpeg, at: 6, kind }
    } else {
        Plan::Scan { from: 6, kind }
    }
}

/// Looks in `frame` for the start of an image from `from` on and before `end`.
fn find_picture(buf: Vec<u8>, from: usize, end: usize) -> (r: Image)
    requires
        1 <= from,
        end + 2 <= buf@.len() || end <= from,
    ensures
        r@ == image_from(buf@, from as int, end as int),
{
    let ghost whole = buf@;
    let mut frame = buf;
    let mut i: usize = from;
    while i < end
        invariant
            1 <= from <= i,
            frame@ == whole,
            whole == buf@,
            end + 2 <= frame.len() || end <= from,
            image_from(whole, i as int, end as int) == image_from(whole, from as int, end as int),
        decreases end - i,
    {
        if frame[i - 1] == 0x00 && frame[i] == 0xFF && frame[i + 1] == 0xD8 && frame[i + 2]
            == 0xFF {
            let image = frame.split_off(i);
            proof {
                assert(image@ =~= whole.skip(i as int));
            }
            return Image::JPEG(image);
        }
        if frame[i - 1] == 0x00 && frame[i] == 0x89 && frame[i + 1] == 0x50 && frame[i + 2]
            == 0x4E {
            let image = frame.split_off(i);
            proof {
                assert(image@ =~= whole.skip(i as int));
            }
            return Image::PNG(image);
        }
        i = i + 1;
    }
    Image::Empty
}

/// Carries out the plan for a picture frame of which `header` was read.
fn take_picture(input: &mut Store, header: Vec<u8>, length: u32, plan: Plan, gap: usize) -> (r: (
    Image,
    u8,
))
    requires
        header@.len() <= length,
        1 <= header@.len(),
        2 <= gap <= header@.len(),
        match plan {
            Plan::Skip => true,
            Plan::Take { jpeg, at, kind } => at <= length,
            Plan::Scan { from, kind } => 1 <= from,
        },
    ensures
        final(input).data == old(input).data,
        final(input).pos == (if plan is Skip {
            skipped(old(input).pos as int, length - header@.len())
        } else {
            old(input).pos + avail(
                old(input).data@.len() as int,
                old(input).pos as int,
                length - header@.len(),
            )
        }),
        (r.0@, r.1) == picture_of(
            read_over(
                header@ + Seq::new((length - header@.len()) as nat, |i: int| 0u8),
                header@.len() as int,
                old(input).data@,
                old(input).pos as int,
            ),
            plan,
            length - gap,
        ),
{
    let n: usize = header.len();
    match plan {
        Plan::Skip => {
            input.skip(length as i64 - n as i64);
            (Image::Empty, 0xFF)
        },
        Plan::Take { jpeg, at, kind } => {
            let mut frame = header;
            frame.resize(length as usize, 0);
            proof {
                assert(frame@ =~= header@ + Seq::new((length - n) as nat, |i: int| 0u8));
            }
            input.read_at(&mut frame, n);
            let ghost whole = frame@;
            let image = frame.split_off(at);
            proof {
                assert(image@ =~= whole.skip(at as int));
            }
            if jpeg {
                (Image::JPEG(image), kind)
            } else {
                (Image::PNG(image), kind)
            }
        },
        Plan::Scan { from, kind } => {
            let mut frame = header;
            frame.resize(length as usize, 0);
            proof {
                assert(frame@ =~= header@ + Seq::new((length - n) as nat, |i: int| 0u8));
            }
            input.read_at(&mut frame, n);
            let end: usize = length as usize - gap;
            let image = find_picture(frame, from, end);
            let found: bool = image.is_some();
            (
                image,
                if found {
                    kind
                } else {
                    0
                },
            )
        },
    }
}

/// A frame read in two parts, header and rest, is the frame read at once.
pub proof fn lemma_read_in_two(data: Seq<u8>, pos: int, length: int, head: int)
    requires
        0 <= pos,
        0 <= head <= length,
    ensures
        read_over(
            read_filled(data, pos, head, 0) + Seq::new((length - head) as nat, |i: int| 0u8),
            head,
            data,
            pos + avail(data.len() as int, pos, head),
        ) == read_filled(data, pos, length, 0),
        pos + avail(data.len() as int, pos, head) + avail(
            data.len() as int,
            pos + avail(data.len() as int, pos, head),
            length - head,
        ) == pos + avail(data.len() as int, pos, length),
{
    assert(read_over(
        read_filled(data, pos, head, 0) + Seq::new((length - head) as nat, |i: int| 0u8),
        head,
        data,
        pos + avail(data.len() as int, pos, head),
    ) =~= read_filled(data, pos, length, 0));
}

/// Reads the picture of an `APIC` frame of `length` bytes: the image and
/// its picture type.
pub fn image(input: &mut Store, length: u32) -> (r: (Image, u8))
    ensures
        (r.0@, r.1) == image_at(old(input).data@, old(input).pos as int, length).0,
        final(input).pos == image_at(old(input).data@, old(input).pos as int, length).1,
        final(input).data == old(input).data,
{
    if length < 14 {
        input.skip(length as i64);
        return (Image::Empty, 0xFF);
    }
    let header = input.read_filled(14, 0);
    let plan = apic_plan(&header);
    proof {
        lemma_read_in_two(old(input).data@, old(input).pos as int, length as int, 14);
    }
    take_picture(input, header, length, plan, 4)
}

/// Reads the picture of a `PIC` frame of `length` bytes: the image and its
/// picture type.
pub fn image_v2(input: &mut Store, length: u32) -> (r: (Image, u8))
    ensures
        (r.0@, r.1) == image_v2_at(old(input).data@, old(input).pos as int, length).0,
        final(input).pos == image_v2_at(old(input).data@, old(input).pos as int, length).1,
        final(input).data == old(input).data,
{
    if length < 6 {
        input.skip(length as i64);
        return (Image::Empty, 0xFF);
    }
    let header = input.read_filled(6, 0);
    let plan = pic_plan(&header);
    proof {
        lemma_read_in_two(old(input).data@, old(input).pos as int, length as int, 6);
    }
    take_picture(input, header, length, plan, 3)
}

} // verus!
