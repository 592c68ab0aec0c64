//! FLAC: the metadata blocks at the start of a stream.
use vstd::prelude::*;

pub mod order;
pub mod roundtrip;

use crate::id3v2::append_bytes;
use crate::id3v2::read::text_bytes;
use crate::store::avail;
use crate::store::read_filled;
use crate::store::read_over;
use crate::store::seek_target;
use crate::store::Store;
use crate::tools::be_bytes_u32;
use crate::tools::be_value;
use crate::tools::decode_int_be_u32;
use crate::tools::encode_int_be_u32;
use crate::tools::encoding::decode_utf8;
use crate::tools::encoding::utf8_text;
use crate::tools::lemma_be_value_bound;
use crate::tools::text::eq_lower_ascii;
use crate::tools::text::lower_ascii;
use crate::types::image::Image;
use crate::types::image::ImageView;
use crate::types::tags::TagOption;
use crate::types::tags::Tags;
use crate::types::tags::TagsView;
use crate::store::rest;
use crate::tools::tags::delta;
use crate::tools::tags::delta_view;
use crate::vorbis::comments_at;
use crate::vorbis::comments_written;
use crate::Error;
use crate::ErrorView;

verus! {

/// A length as the 32 bits of a length field hold it.
pub open spec fn len32(len: nat) -> u32 {
    (len % 0x1_0000_0000) as u32
}

/// A length as the 32 bits of a length field hold it.
pub fn len_u32(len: usize) -> (r: u32)
    ensures
        r == len32(len as nat),
{
    (len as u64 % 0x1_0000_0000) as u32
}

/// The message of the error for what is no image.
pub open spec fn not_an_image() -> Seq<char> {
    "Not an image"@
}

/// The message of the error for an image whose size cannot be found.
pub open spec fn no_dimensions() -> Seq<char> {
    "Could not determine image dimensions to generate the FLAC picture block (is the image a valid JPG/PNG file?)"@
}

/// The start of a picture block: the picture type 3 of a front cover, and
/// the media type with its length.
pub open spec fn picture_head(mime: Seq<u8>) -> Seq<u8> {
    Seq::<u8>::empty() + be_bytes_u32(3) + be_bytes_u32(len32(mime.len())) + mime
}

/// Width, height, bits per pixel and the number of colours, which is 0.
pub open spec fn picture_numbers(w: u32, h: u32, bpp: u32) -> Seq<u8> {
    be_bytes_u32(w) + be_bytes_u32(h) + be_bytes_u32(bpp) + be_bytes_u32(0)
}

/// The rest of a picture block: an empty description, the numbers, and the
/// image with its length.
pub open spec fn picture_tail(numbers: Seq<u8>, bytes: Seq<u8>) -> Seq<u8> {
    be_bytes_u32(0) + numbers + be_bytes_u32(len32(bytes.len())) + bytes
}

/// The picture block of an image: the picture type 3 of a front cover, the
/// media type with its length, an empty description, width, height and
/// bits per pixel, the number of colours, which is 0, and the image with
/// its length; every number in four bytes, most significant first.
#[verifier::opaque]
pub open spec fn picture_block_of(image: ImageView) -> Result<Seq<u8>, Seq<char>> {
    match image {
        ImageView::Empty => Err(not_an_image()),
        _ => match image.dimensions() {
            None => Err(no_dimensions()),
            Some((w, h, bpp)) => Ok(
                picture_head(text_bytes(image.mime())) + picture_tail(
                    picture_numbers(w, h, bpp as u32),
                    image.bytes(),
                ),
            ),
        },
    }
}

/// Appends `n` as four bytes, the most significant first.
fn push_u32(vec: &mut Vec<u8>, n: u32)
    ensures
        final(vec)@ == old(vec)@ + be_bytes_u32(n),
{
    let bytes = encode_int_be_u32(n);
    append_bytes(vec, bytes.as_slice());
}

/// Writes the picture block of an image.
pub fn get_picture_block(image: &Image) -> (r: Result<Vec<u8>, String>)
    ensures
        (match r {
            Ok(v) => Ok(v@),
            Err(m) => Err(m@),
        }) == picture_block_of(image@),
{
    reveal(picture_block_of);
    let img_vec: &Vec<u8> = match image {
        Image::PNG(v) => v,
        Image::JPEG(v) => v,
        Image::Empty => {
            return Err(String::from_str("Not an image"));
        },
    };
    let mut vec: Vec<u8> = Vec::new();
    push_u32(&mut vec, 0x03);
    let mime = image.mime();
    let mime_bytes = mime.as_str().as_bytes();
    push_u32(&mut vec, len_u32(mime_bytes.len()));
    append_bytes(&mut vec, mime_bytes);
    let (w, h, bpp) = match image.dimensions() {
        Some(x) => x,
        None => {
            return Err(
                String::from_str(
                    "Could not determine image dimensions to generate the FLAC picture block (is the image a valid JPG/PNG file?)",
                ),
            );
        },
    };
    let mut numbers = encode_int_be_u32(w);
    push_u32(&mut numbers, h);
    push_u32(&mut numbers, bpp as u32);
    push_u32(&mut numbers, 0);
    let mut tail = encode_int_be_u32(0);
    append_bytes(&mut tail, numbers.as_slice());
    push_u32(&mut tail, len_u32(img_vec.len()));
    append_bytes(&mut tail, img_vec.as_slice());
    append_bytes(&mut vec, tail.as_slice());
    Ok(vec)
}

/// Whether the media type `mime`, in lower case, is one of a JPEG image.
pub open spec fn is_jpeg_mime(mime: Seq<char>) -> bool {
    let m = lower_ascii(mime);
    m == "image/jpeg"@ || m == "image/jpg"@ || m == "jpg"@ || m == "jpeg"@
}

/// Whether the media type `mime`, in lower case, is one of a PNG image.
pub open spec fn is_png_mime(mime: Seq<char>) -> bool {
    let m = lower_ascii(mime);
    m == "image/png"@ || m == "png"@
}

/// What a block gives that is passed over from `pos` by `offset`: no image
/// and the type `FF`, or the error of a seek to no position.
pub open spec fn passed_over(pos: int, offset: int) -> (Result<(ImageView, u32), ErrorView>, int) {
    match seek_target(pos, offset) {
        Some(p) => (Ok((ImageView::Empty, 0xFFu32)), p as int),
        None => (Err(ErrorView::IOError), pos),
    }
}

/// The four bytes of a number field after a read at `pos` into the buffer
/// `buf`: what a short read does not reach stays as it was.
pub open spec fn field_read(buf: Seq<u8>, data: Seq<u8>, pos: int) -> Seq<u8> {
    read_over(buf, 0, data, pos)
}

/// The image of the picture block of `length` bytes at `pos`, with its
/// picture type, and where the cursor stands after it. A picture of any
/// type is collected if its media type is JPEG or PNG; any other block is
/// passed over to its end. The image is
/// filled up with bytes `09` where the data ends before it.
pub open spec fn picture_block_at(data: Seq<u8>, pos: int, length: u32) -> (
    Result<(ImageView, u32), ErrorView>,
    int,
) {
    let n = data.len() as int;
    let b1 = field_read(seq![0u8, 0u8, 0u8, 0u8], data, pos);
    let at1 = pos + avail(n, pos, 4);
    let kind = be_value(b1) as u32;
    let b2 = field_read(b1, data, at1);
    let at2 = at1 + avail(n, at1, 4);
    let mime_length = be_value(b2) as u32;
    let mime = utf8_text(read_filled(data, at2, mime_length as int, 0));
    let at3 = at2 + avail(n, at2, mime_length as int);
    if !is_jpeg_mime(mime) && !is_png_mime(mime) {
        passed_over(at3, length - 8 - mime_length)
    } else {
        picture_body_at(data, at3, b2, kind, is_jpeg_mime(mime))
    }
}

/// The image of a picture block behind its media type, at `pos`: the
/// description with its length, sixteen bytes of numbers, and the image
/// with its length. `buf` is what the number field held last.
pub open spec fn picture_body_at(data: Seq<u8>, pos: int, buf: Seq<u8>, kind: u32, jpeg: bool) -> (
    Result<(ImageView, u32), ErrorView>,
    int,
) {
    let n = data.len() as int;
    let b3 = field_read(buf, data, pos);
    let at4 = pos + avail(n, pos, 4);
    let description_length = be_value(b3) as u32;
    match seek_target(at4, description_length as int) {
        None => (Err(ErrorView::IOError), at4),
        Some(at5) => match seek_target(at5 as int, 16) {
            None => (Err(ErrorView::IOError), at5 as int),
            Some(at6) => {
                let b4 = field_read(b3, data, at6 as int);
                let at7 = at6 + avail(n, at6 as int, 4);
                let len = be_value(b4) as u32;
                let bytes = read_filled(data, at7, len as int, 9);
                let at8 = at7 + avail(n, at7, len as int);
                (
                    Ok(
                        (
                            if jpeg {
                                ImageView::JPEG(bytes)
                            } else {
                                ImageView::PNG(bytes)
                            },
                            kind,
                        ),
                    ),
                    at8,
                )
            },
        },
    }
}

/// Reads the four bytes of a length, the most significant first.
fn read_field(input: &mut Store, buf: &mut Vec<u8>) -> (r: u32)
    requires
        old(buf)@.len() == 4,
    ensures
        final(buf)@ == field_read(old(buf)@, old(input).data@, old(input).pos as int),
        final(buf)@.len() == 4,
        r == be_value(final(buf)@),
        final(input).data == old(input).data,
        final(input).pos == old(input).pos + avail(
            old(input).data@.len() as int,
            old(input).pos as int,
            4,
        ),
{
    input.read(buf);
    proof {
        lemma_be_value_bound(buf@);
    }
    decode_int_be_u32(buf.as_slice())
}

/// Moves the cursor over a picture that is not read: there is no image then.
fn pass_over(input: &mut Store, offset: i64) -> (r: Result<(Image, u32), Error>)
    ensures
        final(input).data == old(input).data,
        crate::flac::view_picture(r) == passed_over(old(input).pos as int, offset as int).0,
        final(input).pos == passed_over(old(input).pos as int, offset as int).1,
{
    match input.seek_current(offset) {
        Ok(_) => Ok((Image::Empty, 0xFF)),
        Err(e) => Err(e),
    }
}

/// What contracts say of the result of reading a picture block.
pub open spec fn view_picture(r: Result<(Image, u32), Error>) -> Result<
    (ImageView, u32),
    ErrorView,
> {
    match r {
        Ok((image, kind)) => Ok((image@, kind)),
        Err(e) => Err(e@),
    }
}

/// Reads the text of `length` bytes in UTF-8.
pub fn read_string(input: &mut Store, length: u32) -> (r: Result<String, Error>)
    ensures
        r is Ok,
        r->Ok_0@ == utf8_text(
            read_filled(old(input).data@, old(input).pos as int, length as int, 0),
        ),
        final(input).data == old(input).data,
        final(input).pos == old(input).pos + avail(
            old(input).data@.len() as int,
            old(input).pos as int,
            length as int,
        ),
{
    let vec = input.read_filled(length as usize, 0);
    Ok(decode_utf8(vec.as_slice()))
}

/// Reads a picture block of `length` bytes: the image and its picture type.
pub fn read_image(input: &mut Store, length: u32) -> (r: Result<(Image, u32), Error>)
    ensures
        view_picture(r) == picture_block_at(old(input).data@, old(input).pos as int, length).0,
        final(input).pos == picture_block_at(old(input).data@, old(input).pos as int, length).1,
        final(input).data == old(input).data,
{
    let mut buf: Vec<u8> = vec![0u8; 4];
    proof {
        assert(buf@ =~= seq![0u8, 0u8, 0u8, 0u8]);
    }
    let apic_type = read_field(input, &mut buf);
    let mime_length = read_field(input, &mut buf);
    let mime = match read_string(input, mime_length) {
        Ok(s) => s,
        Err(e) => {
            return Err(e);
        },
    };
    let m = mime.as_str();
    let jpeg: bool = eq_lower_ascii(m, "image/jpeg") || eq_lower_ascii(m, "image/jpg")
        || eq_lower_ascii(m, "jpg") || eq_lower_ascii(m, "jpeg");
    let png: bool = eq_lower_ascii(m, "image/png") || eq_lower_ascii(m, "png");
    if !jpeg && !png {
        return pass_over(input, length as i64 - 8 - mime_length as i64);
    }
    let description_length = read_field(input, &mut buf);
    match input.seek_current(description_length as i64) {
        Ok(_) => {},
        Err(e) => {
            return Err(e);
        },
    }
    match input.seek_current(16) {
        Ok(_) => {},
        Err(e) => {
            return Err(e);
        },
    }
    let len = read_field(input, &mut buf);
    let vec = input.read_filled(len as usize, 9);
    if jpeg {
        Ok((Image::JPEG(vec), apic_type))
    } else {
        Ok((Image::PNG(vec), apic_type))
    }
}

/// What has been collected from the blocks read so far.
pub struct BlockScan {
    pub tags: Tags,
    /// The picture of the picture blocks.
    pub image: Option<Image>,
    /// Whether `image` is a front cover.
    pub found_best_cover: bool,
    /// The blocks that are kept as they are.
    pub out: Vec<u8>,
}

/// What contracts say of a [`BlockScan`].
pub struct BlockScanView {
    pub tags: TagsView,
    pub image: Option<ImageView>,
    pub found_best_cover: bool,
    pub out: Seq<u8>,
}

impl View for BlockScan {
    type V = BlockScanView;

    open spec fn view(&self) -> BlockScanView {
        BlockScanView {
            tags: self.tags@,
            image: match self.image {
                Some(image) => Some(image@),
                None => None,
            },
            found_best_cover: self.found_best_cover,
            out: self.out@,
        }
    }
}

impl BlockScanView {
    /// Nothing collected yet.
    pub open spec fn start() -> BlockScanView {
        BlockScanView {
            tags: TagsView::none(),
            image: None,
            found_best_cover: false,
            out: Seq::empty(),
        }
    }

    /// The tags with the picture of the picture blocks as their cover, if
    /// there was one.
    pub open spec fn finished(self) -> TagsView {
        match self.image {
            Some(image) => TagsView { front_cover: TagOption::Present(image), ..self.tags },
            None => self.tags,
        }
    }
}

/// The message of the error for a block of the type 127.
pub open spec fn invalid_block() -> Seq<char> {
    "Invalid block type (127) detected when parsing FLAC metadata"@
}

/// The message of the error for a stream without its marker.
pub open spec fn no_marker() -> Seq<char> {
    "FLAC stream marker not found (is this a valid FLAC file?)"@
}

/// The scan after the picture block that gave `image` with the picture
/// type `kind`: a front cover always becomes the picture, anything else
/// only while no front cover was found.
pub open spec fn with_block_picture(s: BlockScanView, image: ImageView,
    kind: u32) -> BlockScanView {
    if kind == 0x03 || !s.found_best_cover {
        BlockScanView { image: Some(image), found_best_cover: kind == 0x03, ..s }
    } else {
        s
    }
}

/// The scan after the block with the given header whose content starts at
/// `pos`, and where the cursor stands after it. Type 4 holds the comments,
/// type 6 a picture, type 127 is invalid. Any other block is passed over;
/// where `copy` is set it is kept instead, without the mark of the last
/// block, unless it is padding (type 1).
pub open spec fn block_read(
    data: Seq<u8>,
    pos: int,
    header: Seq<u8>,
    copy: bool,
    s: BlockScanView,
) -> Result<(BlockScanView, int), ErrorView> {
    let kind = header[0] % 128;
    let len = be_value(header.subrange(1, 4)) as u32;
    if kind == 4 {
        match comments_at(data, pos) {
            (Ok(tags), p) => Ok((BlockScanView { tags, ..s }, p)),
            (Err(e), _) => Err(e),
        }
    } else if kind == 6 {
        match picture_block_at(data, pos, len) {
            (Ok((image, t)), p) => Ok((with_block_picture(s, image, t), p)),
            (Err(e), _) => Err(e),
        }
    } else if kind == 127 {
        Err(ErrorView::TagError(invalid_block()))
    } else if !copy || kind == 1 {
        match seek_target(pos, len as int) {
            Some(p) => Ok((s, p as int)),
            None => Err(ErrorView::IOError),
        }
    } else {
        Ok(
            (
                BlockScanView {
                    out: s.out + seq![kind] + header.subrange(1, 4) + read_filled(
                        data,
                        pos,
                        len as int,
                        0,
                    ),
                    ..s
                },
                pos + avail(data.len() as int, pos, len as int),
            ),
        )
    }
}

/// The scan after the blocks from `pos` on, and where the cursor stands
/// then. The blocks end with the one that is marked as the last, or where
/// the data ends; a block that leaves the cursor at its start or before it
/// ends them too.
pub open spec fn blocks_scanned(data: Seq<u8>, pos: int, copy: bool, s: BlockScanView) -> Result<
    (BlockScanView, int),
    ErrorView,
>
    decreases
            (if pos < data.len() {
                data.len() - pos
            } else {
                0
            }),
{
    if pos < 0 || pos + 4 > data.len() {
        Ok((s, pos + avail(data.len() as int, pos, 4)))
    } else {
        let header = data.subrange(pos, pos + 4);
        match block_read(data, pos + 4, header, copy, s) {
            Err(e) => Err(e),
            Ok((next, p)) => if header[0] >= 128 || p <= pos {
                Ok((next, p))
            } else {
                blocks_scanned(data, p, copy, next)
            },
        }
    }
}

/// What reading the tags of the FLAC stream at `pos` gives.
#[verifier::opaque]
pub open spec fn flac_tags(data: Seq<u8>, pos: int) -> Result<TagsView, ErrorView> {
    if read_filled(data, pos, 4, 0) != seq![0x66u8, 0x4Cu8, 0x61u8, 0x43u8] {
        Err(ErrorView::TagError(no_marker()))
    } else {
        match blocks_scanned(
            data,
            pos + avail(data.len() as int, pos, 4),
            false,
            BlockScanView::start(),
        ) {
            Ok((s, _)) => Ok(s.finished()),
            Err(e) => Err(e),
        }
    }
}

/// Whether `buf` is the marker that a stream starts with.
fn is_marker(buf: &Vec<u8>) -> (r: bool)
    requires
        buf@.len() == 4,
    ensures
        r == (buf@ == seq![0x66u8, 0x4Cu8, 0x61u8, 0x43u8]),
{
    let r = buf[0] == 0x66 && buf[1] == 0x4C && buf[2] == 0x61 && buf[3] == 0x43;
    proof {
        if r {
            assert(buf@ =~= seq![0x66u8, 0x4Cu8, 0x61u8, 0x43u8]);
        } else {
            let m = seq![0x66u8, 0x4Cu8, 0x61u8, 0x43u8];
            assert(m[0] == 0x66 && m[1] == 0x4C && m[2] == 0x61 && m[3] == 0x43);
        }
    }
    r
}

/// Reads the content of one block into the scan.
fn read_block(input: &mut Store, header: &Vec<u8>, copy: bool, scan: &mut BlockScan) -> (r: Result<
    (),
    Error,
>)
    requires
        header@.len() == 4,
    ensures
        final(input).data == old(input).data,
        match block_read(old(input).data@, old(input).pos as int, header@, copy, old(scan)@) {
            Ok((next, p)) => r is Ok && final(scan)@ == next && final(input).pos == p,
            Err(e) => r is Err && r->Err_0@ == e,
        },
{
    let kind: u8 = header[0] % 128;
    proof {
        lemma_be_value_bound(header@.subrange(1, 4));
    }
    let len = decode_int_be_u32(vstd::slice::slice_subrange(header.as_slice(), 1, 4));
    if kind == 4 {
        match crate::vorbis::get_tags(input) {
            Ok(tags) => {
                scan.tags = tags;
                Ok(())
            },
            Err(e) => Err(e),
        }
    } else if kind == 6 {
        match read_image(input, len) {
            Ok((img, apic_type)) => {
                if apic_type == 0x03 || !scan.found_best_cover {
                    scan.image = Some(img);
                    scan.found_best_cover = apic_type == 0x03;
                }
                Ok(())
            },
            Err(e) => Err(e),
        }
    } else if kind == 127 {
        Err(crate::tools::tag_error("Invalid block type (127) detected when parsing FLAC metadata"))
    } else if !copy || kind == 1 {
        match input.seek_current(len as i64) {
            Ok(_) => Ok(()),
            Err(e) => Err(e),
        }
    } else {
        let ghost before = scan.out@;
        scan.out.push(kind);
        scan.out.push(header[1]);
        scan.out.push(header[2]);
        scan.out.push(header[3]);
        let content = input.read_filled(len as usize, 0);
        append_bytes(&mut scan.out, content.as_slice());
        proof {
            assert(scan.out@ =~= before + seq![kind] + header@.subrange(1, 4) + content@);
        }
        Ok(())
    }
}

/// Reads the blocks from the cursor on into the scan.
fn scan_blocks(input: &mut Store, copy: bool, scan: &mut BlockScan) -> (r: Result<(), Error>)
    ensures
        final(input).data == old(input).data,
        match blocks_scanned(old(input).data@, old(input).pos as int, copy, old(scan)@) {
            Ok((next, p)) => r is Ok && final(scan)@ == next && final(input).pos == p,
            Err(e) => r is Err && r->Err_0@ == e,
        },
{
    let ghost target = blocks_scanned(input.data@, input.pos as int, copy, scan@);
    let mut done: bool = false;
    while !done
        invariant
            input.data == old(input).data,
            target == blocks_scanned(old(input).data@, old(input).pos as int, copy, old(scan)@),
            !done ==> blocks_scanned(input.data@, input.pos as int, copy, scan@) == target,
            done ==> target == Ok::<(BlockScanView, int), ErrorView>((scan@, input.pos as int)),
        decreases
                (if done {
                    0
                } else if input.pos < input.data@.len() {
                    input.data@.len() - input.pos + 1
                } else {
                    1
                }),
    {
        let start: u64 = input.pos;
        let mut buf: Vec<u8> = vec![0u8; 4];
        let n = input.read(&mut buf);
        if n < 4 {
            done = true;
        } else {
            proof {
                assert(buf@ =~= input.data@.subrange(start as int, start + 4));
            }
            match read_block(input, &buf, copy, scan) {
                Ok(_) => {},
                Err(e) => {
                    return Err(e);
                },
            }
            if buf[0] >= 128 || input.pos <= start {
                done = true;
            }
        }
    }
    Ok(())
}

/// The scan before the first block.
fn new_block_scan() -> (scan: BlockScan)
    ensures
        scan@ == BlockScanView::start(),
{
    BlockScan { tags: Tags::none(), image: None, found_best_cover: false, out: Vec::new() }
}

/// The tags that the scan found, and the blocks that it kept.
fn finish_blocks(scan: BlockScan) -> (r: (Tags, Vec<u8>))
    ensures
        r.0@ == scan@.finished(),
        r.1@ == scan@.out,
{
    let BlockScan { tags, image, found_best_cover, out } = scan;
    let mut tags = tags;
    if let Some(x) = image {
        tags.front_cover = TagOption::Present(x);
    }
    (tags, out)
}

/// Reads the tags of a FLAC stream: those of its comments, with the picture
/// of its picture blocks as the cover.
pub fn get(input: &mut Store) -> (r: Result<Tags, Error>)
    ensures
        crate::view_result(r) == flac_tags(old(input).data@, old(input).pos as int),
        final(input).data == old(input).data,
{
    reveal(flac_tags);
    let buf = input.read_filled(4, 0);
    if !is_marker(&buf) {
        return Err(
            crate::tools::tag_error("FLAC stream marker not found (is this a valid FLAC file?)"),
        );
    }
    let mut scan = new_block_scan();
    match scan_blocks(input, false, &mut scan) {
        Ok(_) => {},
        Err(e) => {
            return Err(e);
        },
    }
    Ok(finish_blocks(scan).0)
}

/// The header of a block: its type, and the length of its content in three
/// bytes, most significant first.
pub open spec fn block_header(kind: u8, len: nat) -> Seq<u8> {
    be_bytes_u32(len as u32).update(0, kind)
}

/// The message of the error for comments that do not fit into a block.
pub open spec fn comment_too_large() -> Seq<char> {
    "Could not write FLAC comment as it is larger than 16,777,215 bytes"@
}

/// The message of the error for a picture that does not fit into a block.
pub open spec fn picture_too_large() -> Seq<char> {
    "Could not write FLAC picture block as it is larger than 16,777,215 bytes"@
}

/// The padding block that ends the metadata: marked as the last block, of
/// the type 1, with two bytes of content.
pub open spec fn padding_block() -> Seq<u8> {
    seq![0x81u8, 0x00u8, 0x00u8, 0x02u8, 0x00u8, 0x00u8]
}

/// The blocks that hold the tags `t`: the comments, and the picture if the
/// tags have a cover. Fails for a cover that is no image or whose size is
/// not found, and for a block of 2^24 bytes or more.
#[verifier::opaque]
pub open spec fn tag_blocks(t: TagsView) -> Result<Seq<u8>, ErrorView> {
    let vc = comments_written(t, false);
    if vc.len() > 0x00FF_FFFF {
        Err(ErrorView::TagError(comment_too_large()))
    } else {
        let head = block_header(0x04, vc.len()) + vc;
        match t.front_cover {
            TagOption::Present(x) => match picture_block_of(x) {
                Err(m) => Err(ErrorView::TagError(m)),
                Ok(block) => if block.len() > 0x00FF_FFFF {
                    Err(ErrorView::TagError(picture_too_large()))
                } else {
                    Ok(head + block_header(0x06, block.len()) + block)
                },
            },
            _ => Ok(head),
        }
    }
}

/// The stream at `pos` with its tags updated by `new`: the marker, the
/// blocks that are kept, the blocks of the merged tags, the padding, and
/// what follows the metadata.
#[verifier::opaque]
pub open spec fn flac_rewritten(data: Seq<u8>, pos: int, new: TagsView) -> Result<
    Seq<u8>,
    ErrorView,
> {
    let marker = read_filled(data, pos, 4, 0);
    if marker != seq![0x66u8, 0x4Cu8, 0x61u8, 0x43u8] {
        Err(ErrorView::TagError(no_marker()))
    } else {
        match blocks_scanned(
            data,
            pos + avail(data.len() as int, pos, 4),
            true,
            BlockScanView::start(),
        ) {
            Err(e) => Err(e),
            Ok((s, p)) => match tag_blocks(delta_view(s.finished(), new)) {
                Err(e) => Err(e),
                Ok(blocks) => Ok(marker + s.out + blocks + padding_block() + rest(data, p)),
            },
        }
    }
}

/// Appends a block of the given type, not marked as the last.
fn push_block(out: &mut Vec<u8>, kind: u8, content: &Vec<u8>)
    requires
        content@.len() <= 0x00FF_FFFF,
    ensures
        final(out)@ == old(out)@ + block_header(kind, content@.len()) + content@,
{
    let mut header = encode_int_be_u32(content.len() as u32);
    header[0] = kind;
    append_bytes(out, header.as_slice());
    append_bytes(out, content.as_slice());
}

/// Writes the blocks that hold the tags `t` behind `out`.
fn write_blocks(out: &mut Vec<u8>, t: &Tags) -> (r: Result<(), Error>)
    ensures
        match tag_blocks(t@) {
            Ok(blocks) => r is Ok && final(out)@ == old(out)@ + blocks,
            Err(e) => r is Err && r->Err_0@ == e,
        },
{
    reveal(tag_blocks);
    let vc = crate::vorbis::from_tags(t, false);
    if vc.len() > 0x00FF_FFFF {
        return Err(
            crate::tools::tag_error(
                "Could not write FLAC comment as it is larger than 16,777,215 bytes",
            ),
        );
    }
    let ghost head = block_header(0x04, vc@.len()) + vc@;
    push_block(out, 0x04, &vc);
    proof {
        assert(out@ =~= old(out)@ + head);
    }
    if let TagOption::Present(x) = &t.front_cover {
        let img_block = match get_picture_block(x) {
            Ok(block) => block,
            Err(m) => {
                return Err(Error::TagError(m));
            },
        };
        if img_block.len() > 0x00FF_FFFF {
            return Err(
                crate::tools::tag_error(
                    "Could not write FLAC picture block as it is larger than 16,777,215 bytes",
                ),
            );
        }
        push_block(out, 0x06, &img_block);
        proof {
            assert(out@ =~= old(out)@ + (head + block_header(0x06, img_block@.len())
                + img_block@));
        }
    }
    Ok(())
}

/// Rewrites the stream in `input` into `output` with its tags updated by
/// `new`. Nothing is written where that fails.
pub fn set(input: &mut Store, output: &mut Vec<u8>, new: &Tags) -> (r: Result<(), Error>)
    ensures
        final(input).data == old(input).data,
        match flac_rewritten(old(input).data@, old(input).pos as int, new@) {
            Ok(file) => r is Ok && final(output)@ == old(output)@ + file,
            Err(e) => r is Err && r->Err_0@ == e && final(output)@ == old(output)@,
        },
{
    reveal(flac_rewritten);
    let buf = input.read_filled(4, 0);
    if !is_marker(&buf) {
        return Err(
            crate::tools::tag_error("FLAC stream marker not found (is this a valid FLAC file?)"),
        );
    }
    let mut scan = new_block_scan();
    match scan_blocks(input, true, &mut scan) {
        Ok(_) => {},
        Err(e) => {
            return Err(e);
        },
    }
    let ghost scanned = scan@;
    let ghost end = input.pos as int;
    let (old, kept) = finish_blocks(scan);
    let tags = delta(&old, new);
    let mut out: Vec<u8> = buf;
    append_bytes(&mut out, kept.as_slice());
    let ghost before = out@;
    match write_blocks(&mut out, &tags) {
        Ok(_) => {},
        Err(e) => {
            return Err(e);
        },
    }
    out.push(0x81);
    out.push(0x00);
    out.push(0x00);
    out.push(0x02);
    out.push(0x00);
    out.push(0x00);
    proof {
        assert(out@ =~= before + tag_blocks(tags@)->Ok_0 + padding_block());
    }
    input.copy_rest(&mut out);
    append_bytes(output, out.as_slice());
    Ok(())
}

} // verus!
