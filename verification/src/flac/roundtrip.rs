//! A FLAC stream that was rewritten is read back with the tags that were
//! written.
use vstd::prelude::*;
use crate::flac::block_header;
use crate::flac::block_read;
use crate::flac::blocks_scanned;
use crate::flac::field_read;
use crate::flac::flac_rewritten;
use crate::flac::flac_tags;
use crate::flac::invalid_block;
use crate::flac::is_jpeg_mime;
use crate::flac::is_png_mime;
use crate::flac::len32;
use crate::flac::padding_block;
use crate::flac::picture_block_at;
use crate::flac::picture_body_at;
use crate::flac::picture_block_of;
use crate::flac::picture_head;
use crate::flac::picture_numbers;
use crate::flac::picture_tail;
use crate::flac::tag_blocks;
use crate::flac::with_block_picture;
use crate::flac::BlockScanView;
use crate::id3v2::read::text_bytes;
use crate::store::avail;
use crate::store::read_filled;
use crate::store::read_over;
use crate::store::rest;
use crate::store::seek_target;
use crate::tools::be_bytes_u32;
use crate::tools::be_value;
use crate::tools::encoding::lemma_utf8_text_written;
use crate::tools::encoding::utf8_text;
use crate::tools::lemma_be_u32_roundtrip;
use crate::tools::lemma_be_value_bound;
use crate::tools::tags::delta_view;
use crate::tools::text::lower_ascii;
use crate::types::image::ImageView;
use crate::types::tags::TagOption;
use crate::types::tags::TagsView;
use crate::vorbis::comments_at;
use crate::vorbis::comments_written;
use crate::vorbis::roundtrip::lemma_comments_read;
use crate::vorbis::roundtrip::lemma_stands_at;
use crate::vorbis::roundtrip::stands_at;
use crate::vorbis::roundtrip::storable;
use crate::vorbis::roundtrip::without_cover;
use crate::ErrorView;

verus! {

/// Whether a block of the type `k` is passed over on reading, and goes on to
/// the next block.
pub open spec fn is_other_kind(k: u8) -> bool {
    k < 128 && k != 4 && k != 6 && k != 127
}

/// Whether `out` is blocks one after another that are passed over on
/// reading, each whole.
pub open spec fn kept_blocks(out: Seq<u8>) -> bool
    decreases out.len(),
{
    out.len() == 0 || (out.len() >= 4 && is_other_kind(out[0]) && 4 + be_value(out.subrange(1, 4))
        <= out.len() && kept_blocks(out.skip(4 + be_value(out.subrange(1, 4)) as int)))
}

/// Blocks that are passed over, with one more behind them, are blocks that
/// are passed over.
pub proof fn lemma_kept_blocks_push(a: Seq<u8>, b: Seq<u8>)
    requires
        kept_blocks(a),
        b.len() >= 4,
        is_other_kind(b[0]),
        4 + be_value(b.subrange(1, 4)) == b.len(),
    ensures
        kept_blocks(a + b),
    decreases a.len(),
{
    if a.len() == 0 {
        assert(a + b =~= b);
        assert(b.skip(b.len() as int) =~= Seq::<u8>::empty());
        assert(kept_blocks(b.skip(b.len() as int)));
    } else {
        let n = 4 + be_value(a.subrange(1, 4)) as int;
        lemma_kept_blocks_push(a.skip(n), b);
        assert((a + b).subrange(1, 4) =~= a.subrange(1, 4));
        assert((a + b).skip(n) =~= a.skip(n) + b);
    }
}

/// The blocks that a scan keeps are blocks that are passed over on reading.
pub proof fn lemma_kept(data: Seq<u8>, pos: int, s: BlockScanView)
    requires
        kept_blocks(s.out),
        blocks_scanned(data, pos, true, s) is Ok,
    ensures
        kept_blocks(blocks_scanned(data, pos, true, s)->Ok_0.0.out),
    decreases
            (if pos < data.len() {
                data.len() - pos
            } else {
                0
            }),
{
    if pos < 0 || pos + 4 > data.len() {
    } else {
        let header = data.subrange(pos, pos + 4);
        let step = block_read(data, pos + 4, header, true, s);
        let next = step->Ok_0.0;
        let p = step->Ok_0.1;
        let kind = header[0] % 128;
        let len = be_value(header.subrange(1, 4)) as u32;
        lemma_be_value_bound(header.subrange(1, 4));
        if kind == 4 || kind == 6 || kind == 1 {
            assert(next.out == s.out);
        } else {
            let content = read_filled(data, pos + 4, len as int, 0);
            let b = seq![kind] + header.subrange(1, 4) + content;
            assert(next.out =~= s.out + b);
            assert(b.subrange(1, 4) =~= header.subrange(1, 4));
            lemma_kept_blocks_push(s.out, b);
        }
        if header[0] >= 128 || p <= pos {
        } else {
            lemma_kept(data, p, next);
        }
    }
}

/// Reading passes over blocks that are passed over.
pub proof fn lemma_kept_passed(file: Seq<u8>, at: int, kept: Seq<u8>, s: BlockScanView)
    requires
        kept_blocks(kept),
        stands_at(kept, file, at),
        at + kept.len() + 4 <= file.len(),
        file.len() <= u64::MAX,
    ensures
        blocks_scanned(file, at, false, s) == blocks_scanned(file, at + kept.len(), false, s),
    decreases kept.len(),
{
    if kept.len() > 0 {
        let len = be_value(kept.subrange(1, 4)) as int;
        let n = 4 + len;
        let header = file.subrange(at, at + 4);
        assert(header =~= kept.subrange(0, 4)) by {
            assert forall|i: int| 0 <= i < 4 implies header[i] == kept[i] by {
                assert(file.subrange(at, at + kept.len() as int)[i] == kept[i]);
            }
        }
        assert(header.subrange(1, 4) =~= kept.subrange(1, 4));
        assert(header[0] == kept[0]);
        lemma_be_value_bound(header.subrange(1, 4));
        assert(seek_target(at + 4, len) == Some((at + 4 + len) as u64));
        assert(block_read(file, at + 4, header, false, s) == Ok::<
            (BlockScanView, int),
            ErrorView,
        >((s, at + n)));
        assert(stands_at(kept.skip(n), file, at + n)) by {
            assert(file.subrange(at + n, at + n + kept.skip(n).len() as int) =~= kept.skip(n)) by {
                assert forall|i: int| 0 <= i < kept.skip(n).len() implies file[at + n + i]
                    == kept.skip(n)[i] by {
                    assert(file.subrange(at, at + kept.len() as int)[n + i] == kept[n + i]);
                }
            }
        }
        lemma_kept_passed(file, at + n, kept.skip(n), s);
    }
}

/// A number of four bytes that stands in the data is read from there.
pub proof fn lemma_field_read(data: Seq<u8>, pos: int, buf: Seq<u8>, n: u32)
    requires
        buf.len() == 4,
        stands_at(be_bytes_u32(n), data, pos),
    ensures
        field_read(buf, data, pos) == be_bytes_u32(n),
        be_value(field_read(buf, data, pos)) == n,
        avail(data.len() as int, pos, 4) == 4,
{
    lemma_be_u32_roundtrip(n);
    let b = be_bytes_u32(n);
    assert(field_read(buf, data, pos) =~= b) by {
        assert forall|i: int| 0 <= i < 4 implies field_read(buf, data, pos)[i] == b[i] by {
            assert(data.subrange(pos, pos + 4)[i] == b[i]);
        }
    }
}

/// Bytes that stand in the data are read from there.
pub proof fn lemma_bytes_read(data: Seq<u8>, pos: int, x: Seq<u8>, fill: u8)
    requires
        stands_at(x, data, pos),
    ensures
        read_filled(data, pos, x.len() as int, fill) == x,
        avail(data.len() as int, pos, x.len() as int) == x.len(),
{
    assert(read_filled(data, pos, x.len() as int, fill) =~= x) by {
        assert forall|i: int| 0 <= i < x.len() implies read_filled(
            data,
            pos,
            x.len() as int,
            fill,
        )[i] == x[i] by {
            assert(data.subrange(pos, pos + x.len() as int)[i] == x[i]);
        }
    }
}

/// The media types of the images that are written, as they are read.
pub proof fn lemma_mimes()
    ensures
        text_bytes("image/png"@).len() == 9,
        text_bytes("image/jpeg"@).len() == 10,
        utf8_text(text_bytes("image/png"@)) == "image/png"@,
        utf8_text(text_bytes("image/jpeg"@)) == "image/jpeg"@,
        is_png_mime("image/png"@),
        !is_jpeg_mime("image/png"@),
        is_jpeg_mime("image/jpeg"@),
{
    reveal_strlit("image/png");
    reveal_strlit("image/jpeg");
    reveal_strlit("image/jpg");
    reveal_strlit("jpg");
    reveal_strlit("jpeg");
    reveal_strlit("png");
    let png = "image/png"@;
    let jpeg = "image/jpeg"@;
    assert(vstd::utf8::is_ascii_chars(png));
    assert(vstd::utf8::is_ascii_chars(jpeg));
    vstd::utf8::is_ascii_chars_encode_utf8(png);
    vstd::utf8::is_ascii_chars_encode_utf8(jpeg);
    assert(crate::tools::text::no_nul(png));
    assert(crate::tools::text::no_nul(jpeg));
    lemma_utf8_text_written(png);
    lemma_utf8_text_written(jpeg);
    assert(lower_ascii(png) =~= png);
    assert(lower_ascii(jpeg) =~= jpeg);
    assert(png[6] == 'p');
    assert(jpeg[6] == 'j');
}

/// The image of a picture block is read from behind its media type.
#[verifier::rlimit(50)]
pub proof fn lemma_picture_body_read(
    data: Seq<u8>,
    pos: int,
    buf: Seq<u8>,
    kind: u32,
    jpeg: bool,
    numbers: Seq<u8>,
    bytes: Seq<u8>,
)
    requires
        buf.len() == 4,
        numbers.len() == 16,
        bytes.len() < 0x1_0000_0000,
        stands_at(picture_tail(numbers, bytes), data, pos),
        data.len() <= u64::MAX,
    ensures
        picture_body_at(data, pos, buf, kind, jpeg) == (
            Ok::<(ImageView, u32), ErrorView>(
                (
                    if jpeg {
                        ImageView::JPEG(bytes)
                    } else {
                        ImageView::PNG(bytes)
                    },
                    kind,
                ),
            ),
            pos + 24 + bytes.len(),
        ),
{
    let l = len32(bytes.len());
    let x1 = be_bytes_u32(0);
    let x2 = x1 + numbers;
    let x3 = x2 + be_bytes_u32(l);
    assert(picture_tail(numbers, bytes) == x3 + bytes);
    lemma_be_u32_roundtrip(0);
    lemma_be_u32_roundtrip(l);
    lemma_stands_at(x3, bytes, data, pos);
    lemma_stands_at(x2, be_bytes_u32(l), data, pos);
    lemma_stands_at(x1, numbers, data, pos);
    lemma_field_read(data, pos, buf, 0);
    let b3 = field_read(buf, data, pos);
    assert(seek_target(pos + 4, 0) == Some((pos + 4) as u64));
    assert(seek_target(pos + 4, 16) == Some((pos + 20) as u64));
    lemma_field_read(data, pos + 20, b3, l);
    lemma_bytes_read(data, pos + 24, bytes, 9);
}

/// A picture block that stands in the data is read as the image that it holds.
#[verifier::rlimit(50)]
pub proof fn lemma_picture_layout_read(
    data: Seq<u8>,
    pos: int,
    mime: Seq<u8>,
    numbers: Seq<u8>,
    bytes: Seq<u8>,
)
    requires
        is_jpeg_mime(utf8_text(mime)) || is_png_mime(utf8_text(mime)),
        numbers.len() == 16,
        (picture_head(mime) + picture_tail(numbers, bytes)).len() < 0x1_0000_0000,
        stands_at(picture_head(mime) + picture_tail(numbers, bytes), data, pos),
        data.len() <= u64::MAX,
    ensures
        picture_block_at(
            data,
            pos,
            (picture_head(mime) + picture_tail(numbers, bytes)).len() as u32,
        ) == (
            Ok::<(ImageView, u32), ErrorView>(
                (
                    if is_jpeg_mime(utf8_text(mime)) {
                        ImageView::JPEG(bytes)
                    } else {
                        ImageView::PNG(bytes)
                    },
                    3u32,
                ),
            ),
            pos + (picture_head(mime) + picture_tail(numbers, bytes)).len(),
        ),
{
    let m = len32(mime.len());
    lemma_be_u32_roundtrip(3);
    lemma_be_u32_roundtrip(m);
    lemma_be_u32_roundtrip(0);
    lemma_be_u32_roundtrip(len32(bytes.len()));
    let tail = picture_tail(numbers, bytes);
    let e = Seq::<u8>::empty();
    let x1 = e + be_bytes_u32(3);
    let x2 = x1 + be_bytes_u32(m);
    let x3 = x2 + mime;
    assert(x3 == picture_head(mime));
    assert(x3.len() == 8 + mime.len());
    assert(tail.len() == 24 + bytes.len());
    lemma_stands_at(x3, tail, data, pos);
    lemma_stands_at(x2, mime, data, pos);
    lemma_stands_at(x1, be_bytes_u32(m), data, pos);
    lemma_stands_at(e, be_bytes_u32(3), data, pos);
    let zeros = seq![0u8, 0u8, 0u8, 0u8];
    lemma_field_read(data, pos, zeros, 3);
    let b1 = field_read(zeros, data, pos);
    lemma_field_read(data, pos + 4, b1, m);
    let b2 = field_read(b1, data, pos + 4);
    lemma_bytes_read(data, pos + 8, mime, 0);
    let at3 = pos + 8 + mime.len();
    lemma_picture_body_read(data, at3, b2, 3, is_jpeg_mime(utf8_text(mime)), numbers, bytes);
}

/// A written picture block is read as its image, of the type of a front cover.
pub proof fn lemma_picture_block_read(data: Seq<u8>, pos: int, image: ImageView)
    requires
        picture_block_of(image) is Ok,
        picture_block_of(image)->Ok_0.len() < 0x1_0000_0000,
        stands_at(picture_block_of(image)->Ok_0, data, pos),
        data.len() <= u64::MAX,
    ensures
        picture_block_at(data, pos, picture_block_of(image)->Ok_0.len() as u32) == (
            Ok::<(ImageView, u32), ErrorView>((image, 3u32)),
            pos + picture_block_of(image)->Ok_0.len(),
        ),
{
    reveal(picture_block_of);
    lemma_mimes();
    let d = image.dimensions()->0;
    let mime = text_bytes(image.mime());
    let numbers = picture_numbers(d.0, d.1, d.2 as u32);
    lemma_be_u32_roundtrip(d.0);
    lemma_be_u32_roundtrip(d.1);
    lemma_be_u32_roundtrip(d.2 as u32);
    lemma_be_u32_roundtrip(0);
    assert(numbers.len() == 16);
    lemma_picture_layout_read(data, pos, mime, numbers, image.bytes());
}

/// The header of a block gives its type and the length of its content.
pub proof fn lemma_block_header(kind: u8, n: nat)
    requires
        n <= 0x00FF_FFFF,
    ensures
        block_header(kind, n).len() == 4,
        block_header(kind, n)[0] == kind,
        be_value(block_header(kind, n).subrange(1, 4)) == n,
{
    let h = block_header(kind, n);
    let b = h.subrange(1, 4);
    let b2 = b.drop_last();
    let b1 = b2.drop_last();
    assert(b1.drop_last().len() == 0);
    assert(be_value(b1.drop_last()) == 0);
    assert(be_value(b1) == b[0]);
    assert(be_value(b2) == b[0] * 256 + b[1]);
    assert(be_value(b) == (b[0] * 256 + b[1]) * 256 + b[2]);
    let m = n as u32;
    assert(b[0] == (m / 0x1_0000 % 0x100) as u8);
    assert(b[1] == (m / 0x100 % 0x100) as u8);
    assert(b[2] == (m % 0x100) as u8);
}

/// The header of a block that stands in the data is read from there.
pub proof fn lemma_header_read(file: Seq<u8>, at: int, header: Seq<u8>, content: Seq<u8>)
    requires
        header.len() == 4,
        stands_at(header + content, file, at),
    ensures
        at + 4 <= file.len(),
        file.subrange(at, at + 4) == header,
        stands_at(content, file, at + 4),
{
    lemma_stands_at(header, content, file, at);
}

/// The header of a block with the mark of the last block, if it is the last.
pub open spec fn marked_header(kind: u8, n: nat, last: bool) -> Seq<u8> {
    block_header(
        if last {
            (kind + 128) as u8
        } else {
            kind
        },
        n,
    )
}

/// The scan after a block: it ends with the block that is marked as the last.
pub open spec fn scan_after(file: Seq<u8>, at: int, last: bool, s: BlockScanView) -> Result<
    (BlockScanView, int),
    ErrorView,
> {
    if last {
        Ok((s, at))
    } else {
        blocks_scanned(file, at, false, s)
    }
}

/// Reading takes the tags from a written block of comments, and goes on
/// behind it unless it is marked as the last block.
pub proof fn lemma_comment_block_read(
    file: Seq<u8>,
    at: int,
    t: TagsView,
    s: BlockScanView,
    last: bool,
)
    requires
        storable(t),
        comments_written(t, false).len() <= 0x00FF_FFFF,
        stands_at(
            marked_header(0x04, comments_written(t, false).len(), last) + comments_written(
                t,
                false,
            ),
            file,
            at,
        ),
        file.len() <= u64::MAX,
    ensures
        blocks_scanned(file, at, false, s) == scan_after(
            file,
            at + 4 + comments_written(t, false).len(),
            last,
            BlockScanView { tags: without_cover(t), ..s },
        ),
{
    let vc = comments_written(t, false);
    let kind: u8 = if last {
        0x84
    } else {
        0x04
    };
    let header = block_header(kind, vc.len());
    lemma_block_header(kind, vc.len());
    lemma_header_read(file, at, header, vc);
    lemma_comments_read(file, at + 4, t);
    let next = BlockScanView { tags: without_cover(t), ..s };
    assert(block_read(file, at + 4, header, false, s) == Ok::<(BlockScanView, int), ErrorView>(
        (next, at + 4 + vc.len()),
    ));
}

/// Reading passes over a written block of comments and takes the tags from it.
pub proof fn lemma_comment_block_scanned(file: Seq<u8>, at: int, t: TagsView, s: BlockScanView)
    requires
        storable(t),
        comments_written(t, false).len() <= 0x00FF_FFFF,
        stands_at(
            block_header(0x04, comments_written(t, false).len()) + comments_written(t, false),
            file,
            at,
        ),
        file.len() <= u64::MAX,
    ensures
        blocks_scanned(file, at, false, s) == blocks_scanned(
            file,
            at + 4 + comments_written(t, false).len(),
            false,
            BlockScanView { tags: without_cover(t), ..s },
        ),
{
    lemma_comment_block_read(file, at, t, s, false);
}

/// Reading takes the picture from a written picture block, and goes on
/// behind it unless it is marked as the last block.
pub proof fn lemma_picture_block_taken(
    file: Seq<u8>,
    at: int,
    image: ImageView,
    s: BlockScanView,
    last: bool,
)
    requires
        picture_block_of(image) is Ok,
        picture_block_of(image)->Ok_0.len() <= 0x00FF_FFFF,
        stands_at(
            marked_header(0x06, picture_block_of(image)->Ok_0.len(), last) + picture_block_of(
                image,
            )->Ok_0,
            file,
            at,
        ),
        file.len() <= u64::MAX,
    ensures
        blocks_scanned(file, at, false, s) == scan_after(
            file,
            at + 4 + picture_block_of(image)->Ok_0.len(),
            last,
            BlockScanView { image: Some(image), found_best_cover: true, ..s },
        ),
{
    let pb = picture_block_of(image)->Ok_0;
    let kind: u8 = if last {
        0x86
    } else {
        0x06
    };
    let header = block_header(kind, pb.len());
    lemma_block_header(kind, pb.len());
    lemma_header_read(file, at, header, pb);
    lemma_picture_block_read(file, at + 4, image);
    let next = BlockScanView { image: Some(image), found_best_cover: true, ..s };
    assert(with_block_picture(s, image, 3) == next);
    assert(block_read(file, at + 4, header, false, s) == Ok::<(BlockScanView, int), ErrorView>(
        (next, at + 4 + pb.len()),
    ));
}

/// Reading passes over a written picture block and takes the picture from it.
pub proof fn lemma_picture_block_scanned(
    file: Seq<u8>,
    at: int,
    image: ImageView,
    s: BlockScanView,
)
    requires
        picture_block_of(image) is Ok,
        picture_block_of(image)->Ok_0.len() <= 0x00FF_FFFF,
        stands_at(
            block_header(0x06, picture_block_of(image)->Ok_0.len()) + picture_block_of(
                image,
            )->Ok_0,
            file,
            at,
        ),
        file.len() <= u64::MAX,
    ensures
        blocks_scanned(file, at, false, s) == blocks_scanned(
            file,
            at + 4 + picture_block_of(image)->Ok_0.len(),
            false,
            BlockScanView { image: Some(image), found_best_cover: true, ..s },
        ),
{
    lemma_picture_block_taken(file, at, image, s, false);
}

/// Reading ends with the padding that closes the metadata.
pub proof fn lemma_padding_scanned(file: Seq<u8>, at: int, s: BlockScanView)
    requires
        stands_at(padding_block(), file, at),
        file.len() <= u64::MAX,
    ensures
        blocks_scanned(file, at, false, s) == Ok::<(BlockScanView, int), ErrorView>((s, at + 6)),
{
    let pad = padding_block();
    let header = file.subrange(at, at + 4);
    assert(header =~= seq![0x81u8, 0x00u8, 0x00u8, 0x02u8]) by {
        assert forall|i: int| 0 <= i < 4 implies header[i] == pad[i] by {
            assert(file.subrange(at, at + 6)[i] == pad[i]);
        }
    }
    let b = header.subrange(1, 4);
    let b2 = b.drop_last();
    let b1 = b2.drop_last();
    assert(b1.drop_last().len() == 0);
    assert(be_value(b1.drop_last()) == 0);
    assert(be_value(b1) == b[0]);
    assert(be_value(b2) == b[0] * 256 + b[1]);
    assert(be_value(b) == 2);
    assert(seek_target(at + 4, 2) == Some((at + 6) as u64));
    assert(block_read(file, at + 4, header, false, s) == Ok::<(BlockScanView, int), ErrorView>(
        (s, at + 6),
    ));
}

/// The blocks of written tags: the comments, and the picture if there is a cover.
pub proof fn lemma_tag_blocks(t: TagsView)
    requires
        tag_blocks(t) is Ok,
        !(t.front_cover is Mixed),
    ensures
        comments_written(t, false).len() <= 0x00FF_FFFF,
        match t.front_cover {
            TagOption::Present(x) => picture_block_of(x) is Ok && picture_block_of(x)->Ok_0.len()
                <= 0x00FF_FFFF && tag_blocks(t)->Ok_0 == block_header(
                0x04,
                comments_written(t, false).len(),
            ) + comments_written(t, false) + block_header(0x06, picture_block_of(x)->Ok_0.len())
                + picture_block_of(x)->Ok_0,
            _ => tag_blocks(t)->Ok_0 == block_header(0x04, comments_written(t, false).len())
                + comments_written(t, false),
        },
{
    reveal(tag_blocks);
}

/// The tags of written comments with the picture of a written picture
/// block as their cover are the tags that were written.
pub proof fn lemma_finished(t: TagsView, s: BlockScanView)
    requires
        t.rating is Absent,
        s.tags == without_cover(t),
        match t.front_cover {
            TagOption::Present(x) => s.image == Some(x),
            TagOption::Absent => s.image is None,
            TagOption::Mixed => false,
        },
    ensures
        s.finished() == t,
{
    let f = s.finished();
    assert(f.title == t.title);
    assert(f.album == t.album);
    assert(f.artist == t.artist);
    assert(f.album_artist == t.album_artist);
    assert(f.composer == t.composer);
    assert(f.grouping == t.grouping);
    assert(f.genre == t.genre);
    assert(f.date == t.date);
    assert(f.track_number == t.track_number);
    assert(f.track_total == t.track_total);
    assert(f.disc_number == t.disc_number);
    assert(f.disc_total == t.disc_total);
    assert(f.bpm == t.bpm);
    assert(f.is_compilation == t.is_compilation);
    assert(f.comment == t.comment);
    assert(f.sort_title == t.sort_title);
    assert(f.sort_album == t.sort_album);
    assert(f.sort_artist == t.sort_artist);
    assert(f.sort_album_artist == t.sort_album_artist);
    assert(f.sort_composer == t.sort_composer);
    assert(f.front_cover == t.front_cover);
    assert(f.rating == t.rating);
}

/// The blocks of written tags without a cover, with the padding behind
/// them, are read as the tags.
#[verifier::rlimit(50)]
pub proof fn lemma_comment_blocks_scanned(file: Seq<u8>, at: int, t: TagsView, s: BlockScanView)
    requires
        storable(t),
        t.front_cover is Absent,
        comments_written(t, false).len() <= 0x00FF_FFFF,
        stands_at(
            block_header(0x04, comments_written(t, false).len()) + comments_written(t, false)
                + padding_block(),
            file,
            at,
        ),
        file.len() <= u64::MAX,
        s.image is None,
    ensures
        blocks_scanned(file, at, false, s) is Ok,
        blocks_scanned(file, at, false, s)->Ok_0.0.finished() == t,
{
    let vc = comments_written(t, false);
    let head = block_header(0x04, vc.len()) + vc;
    lemma_block_header(0x04, vc.len());
    let s1 = BlockScanView { tags: without_cover(t), ..s };
    lemma_stands_at(head, padding_block(), file, at);
    lemma_comment_block_scanned(file, at, t, s);
    lemma_padding_scanned(file, at + head.len(), s1);
    lemma_rating(t);
    lemma_finished(t, s1);
}

/// The blocks of written tags with a cover, with the padding behind them,
/// are read as the tags.
#[verifier::rlimit(50)]
pub proof fn lemma_cover_blocks_scanned(
    file: Seq<u8>,
    at: int,
    t: TagsView,
    x: ImageView,
    s: BlockScanView,
)
    requires
        storable(t),
        t.front_cover == TagOption::Present(x),
        comments_written(t, false).len() <= 0x00FF_FFFF,
        picture_block_of(x) is Ok,
        picture_block_of(x)->Ok_0.len() <= 0x00FF_FFFF,
        stands_at(
            block_header(0x04, comments_written(t, false).len()) + comments_written(t, false)
                + block_header(0x06, picture_block_of(x)->Ok_0.len()) + picture_block_of(x)->Ok_0
                + padding_block(),
            file,
            at,
        ),
        file.len() <= u64::MAX,
        s.image is None,
    ensures
        blocks_scanned(file, at, false, s) is Ok,
        blocks_scanned(file, at, false, s)->Ok_0.0.finished() == t,
{
    let vc = comments_written(t, false);
    let head = block_header(0x04, vc.len()) + vc;
    lemma_block_header(0x04, vc.len());
    let s1 = BlockScanView { tags: without_cover(t), ..s };
    let pb = picture_block_of(x)->Ok_0;
    lemma_block_header(0x06, pb.len());
    let h6 = block_header(0x06, pb.len());
    let second = h6 + pb;
    lemma_stands_at(head + h6 + pb, padding_block(), file, at);
    lemma_joined(head, h6, pb);
    lemma_stands_at(head, second, file, at);
    lemma_comment_block_scanned(file, at, t, s);
    lemma_picture_block_scanned(file, at + head.len(), x, s1);
    let s2 = BlockScanView { image: Some(x), found_best_cover: true, ..s1 };
    lemma_padding_scanned(file, at + head.len() + second.len(), s2);
    lemma_rating(t);
    lemma_finished(t, s2);
}

/// Three things one after another can be put together from either side.
pub proof fn lemma_joined(a: Seq<u8>, b: Seq<u8>, c: Seq<u8>)
    ensures
        a + b + c == a + (b + c),
{
    assert(a + b + c =~= a + (b + c));
}

/// Tags that can be stored have no rating.
pub proof fn lemma_rating(t: TagsView)
    requires
        storable(t),
    ensures
        t.rating is Absent,
{
    reveal(storable);
}

/// The blocks of written tags, with the padding behind them, are read as
/// the tags.
pub proof fn lemma_tag_blocks_scanned(file: Seq<u8>, at: int, t: TagsView, s: BlockScanView)
    requires
        storable(t),
        !(t.front_cover is Mixed),
        tag_blocks(t) is Ok,
        stands_at(tag_blocks(t)->Ok_0 + padding_block(), file, at),
        file.len() <= u64::MAX,
        s.image is None,
    ensures
        blocks_scanned(file, at, false, s) is Ok,
        blocks_scanned(file, at, false, s)->Ok_0.0.finished() == t,
{
    lemma_tag_blocks(t);
    match t.front_cover {
        TagOption::Present(x) => {
            lemma_cover_blocks_scanned(file, at, t, x, s);
        },
        _ => {
            lemma_comment_blocks_scanned(file, at, t, s);
        },
    }
}

/// A stream of the marker, blocks that are passed over, the blocks of
/// written tags and the padding is read as the tags.
#[verifier::rlimit(50)]
pub proof fn lemma_written_stream_read(
    file: Seq<u8>,
    marker: Seq<u8>,
    kept: Seq<u8>,
    t: TagsView,
    tail: Seq<u8>,
)
    requires
        marker == seq![0x66u8, 0x4Cu8, 0x61u8, 0x43u8],
        kept_blocks(kept),
        storable(t),
        !(t.front_cover is Mixed),
        tag_blocks(t) is Ok,
        file == marker + kept + tag_blocks(t)->Ok_0 + padding_block() + tail,
        file.len() <= u64::MAX,
    ensures
        flac_tags(file, 0) == Ok::<TagsView, ErrorView>(t),
{
    reveal(flac_tags);
    let blocks = tag_blocks(t)->Ok_0;
    assert(read_filled(file, 0, 4, 0) =~= marker);
    assert(file =~= marker + (kept + (blocks + padding_block() + tail)));
    assert(file.subrange(0, file.len() as int) =~= file);
    lemma_stands_at(marker, kept + (blocks + padding_block() + tail), file, 0);
    lemma_stands_at(kept, blocks + padding_block() + tail, file, 4);
    lemma_stands_at(blocks + padding_block(), tail, file, 4 + kept.len() as int);
    lemma_kept_passed(file, 4, kept, BlockScanView::start());
    lemma_tag_blocks_scanned(file, 4 + kept.len() as int, t, BlockScanView::start());
}

/// The tags that a stream holds before it is rewritten, as the scan that
/// keeps its other blocks finds them.
pub open spec fn tags_before(data: Seq<u8>, pos: int) -> TagsView {
    match blocks_scanned(
        data,
        pos + avail(data.len() as int, pos, 4),
        true,
        BlockScanView::start(),
    ) {
        Ok((s, _)) => s.finished(),
        Err(_) => TagsView::none(),
    }
}

/// Whether two scans have collected the same tags and picture.
pub open spec fn agree(a: BlockScanView, b: BlockScanView) -> bool {
    a.tags == b.tags && a.image == b.image && a.found_best_cover == b.found_best_cover
}

/// The scan that keeps the other blocks collects the same tags and picture
/// as the scan that passes over them.
pub proof fn lemma_scans_agree(
    data: Seq<u8>,
    kept_pos: int,
    read_pos: int,
    kept: BlockScanView,
    read: BlockScanView,
)
    requires
        agree(kept, read),
        kept_pos == read_pos || (kept_pos + 4 > data.len() && read_pos + 4 > data.len()),
        0 <= kept_pos,
        0 <= read_pos,
        data.len() + 0x100_0000 <= u64::MAX,
        blocks_scanned(data, kept_pos, true, kept) is Ok,
    ensures
        blocks_scanned(data, read_pos, false, read) is Ok,
        agree(
            blocks_scanned(data, kept_pos, true, kept)->Ok_0.0,
            blocks_scanned(data, read_pos, false, read)->Ok_0.0,
        ),
    decreases
            (if kept_pos < data.len() {
                data.len() - kept_pos
            } else {
                0
            }),
{
    if kept_pos + 4 > data.len() {
    } else {
        let pos = kept_pos;
        let header = data.subrange(pos, pos + 4);
        let kind = header[0] % 128;
        let len = be_value(header.subrange(1, 4)) as u32;
        lemma_be_value_bound(header.subrange(1, 4));
        let a = block_read(data, pos + 4, header, true, kept);
        let b = block_read(data, pos + 4, header, false, read);
        if kind == 4 || kind == 6 || kind == 127 || kind == 1 {
            assert(b is Ok);
            assert(agree(a->Ok_0.0, b->Ok_0.0));
            assert(a->Ok_0.1 == b->Ok_0.1);
        } else {
            assert(seek_target(pos + 4, len as int) == Some((pos + 4 + len) as u64));
            assert(b is Ok);
            assert(agree(a->Ok_0.0, b->Ok_0.0));
        }
        if header[0] >= 128 {
        } else if a->Ok_0.1 <= pos {
        } else if b->Ok_0.1 <= pos {
        } else {
            lemma_scans_agree(data, a->Ok_0.1, b->Ok_0.1, a->Ok_0.0, b->Ok_0.0);
        }
    }
}

/// The tags that a stream is rewritten from are the tags that reading it gives.
pub proof fn lemma_tags_before(data: Seq<u8>, pos: int, new: TagsView)
    requires
        0 <= pos,
        data.len() + 0x100_0000 <= u64::MAX,
        flac_rewritten(data, pos, new) is Ok,
    ensures
        flac_tags(data, pos) == Ok::<TagsView, ErrorView>(tags_before(data, pos)),
{
    reveal(flac_rewritten);
    reveal(flac_tags);
    let start = pos + avail(data.len() as int, pos, 4);
    lemma_scans_agree(data, start, start, BlockScanView::start(), BlockScanView::start());
}

/// Writing tags to a FLAC stream and reading them again gives the merged
/// tags: those that the stream held, updated by `new`, if they are such as
/// can be stored.
pub proof fn lemma_flac_round_trip(data: Seq<u8>, pos: int, new: TagsView)
    requires
        flac_rewritten(data, pos, new) is Ok,
        flac_rewritten(data, pos, new)->Ok_0.len() <= u64::MAX,
        storable(delta_view(tags_before(data, pos), new)),
    ensures
        flac_tags(flac_rewritten(data, pos, new)->Ok_0, 0) == Ok::<TagsView, ErrorView>(
            delta_view(tags_before(data, pos), new),
        ),
{
    reveal(flac_rewritten);
    let marker = read_filled(data, pos, 4, 0);
    let start = pos + avail(data.len() as int, pos, 4);
    let scan = blocks_scanned(data, start, true, BlockScanView::start())->Ok_0;
    let merged = delta_view(scan.0.finished(), new);
    lemma_kept(data, start, BlockScanView::start());
    lemma_no_mixed(scan.0.finished(), new);
    lemma_written_stream_read(
        flac_rewritten(data, pos, new)->Ok_0,
        marker,
        scan.0.out,
        merged,
        rest(data, scan.1),
    );
}

/// Merged tags have no cover that is `Mixed`.
pub proof fn lemma_no_mixed(old: TagsView, new: TagsView)
    ensures
        !(delta_view(old, new).front_cover is Mixed),
{
}

/// The stream of the marker, a block of comments and a picture block, of
/// which the second is marked as the last, in the one order or the other.
pub open spec fn two_blocks(comments_first: bool, t: TagsView, image: ImageView,
    tail: Seq<u8>) -> Seq<
    u8,
> {
    let marker = seq![0x66u8, 0x4Cu8, 0x61u8, 0x43u8];
    let vc = comments_written(t, false);
    let pb = picture_block_of(image)->Ok_0;
    if comments_first {
        marker + (marked_header(0x04, vc.len(), false) + vc) + (marked_header(
            0x06,
            pb.len(),
            true,
        ) + pb) + tail
    } else {
        marker + (marked_header(0x06, pb.len(), false) + pb) + (marked_header(
            0x04,
            vc.len(),
            true,
        ) + vc) + tail
    }
}

/// A stream with a block of comments and a picture block holds the same
/// tags in whichever order the two blocks stand: the tags of the comments,
/// with the picture as their cover.
#[verifier::rlimit(50)]
pub proof fn lemma_blocks_in_either_order(
    comments_first: bool,
    t: TagsView,
    image: ImageView,
    tail: Seq<u8>,
)
    requires
        storable(t),
        comments_written(t, false).len() <= 0x00FF_FFFF,
        picture_block_of(image) is Ok,
        picture_block_of(image)->Ok_0.len() <= 0x00FF_FFFF,
        two_blocks(comments_first, t, image, tail).len() <= u64::MAX,
    ensures
        flac_tags(two_blocks(comments_first, t, image, tail), 0) == Ok::<TagsView, ErrorView>(
            TagsView { front_cover: TagOption::Present(image), ..t },
        ),
{
    reveal(flac_tags);
    let marker = seq![0x66u8, 0x4Cu8, 0x61u8, 0x43u8];
    let file = two_blocks(comments_first, t, image, tail);
    let vc = comments_written(t, false);
    let pb = picture_block_of(image)->Ok_0;
    let start = BlockScanView::start();
    let first = if comments_first {
        marked_header(0x04, vc.len(), false) + vc
    } else {
        marked_header(0x06, pb.len(), false) + pb
    };
    let second = if comments_first {
        marked_header(0x06, pb.len(), true) + pb
    } else {
        marked_header(0x04, vc.len(), true) + vc
    };
    assert(file == marker + first + second + tail);
    assert(read_filled(file, 0, 4, 0) =~= marker);
    lemma_block_header(0x04, vc.len());
    lemma_block_header(0x06, pb.len());
    lemma_block_header(0x84, vc.len());
    lemma_block_header(0x86, pb.len());
    assert(file.subrange(0, file.len() as int) =~= file);
    lemma_stands_at(marker + first + second, tail, file, 0);
    lemma_stands_at(marker + first, second, file, 0);
    lemma_stands_at(marker, first, file, 0);
    let with_tags = BlockScanView { tags: without_cover(t), ..start };
    let with_image = BlockScanView { image: Some(image), found_best_cover: true, ..start };
    let both = BlockScanView { image: Some(image), found_best_cover: true, ..with_tags };
    if comments_first {
        lemma_comment_block_read(file, 4, t, start, false);
        lemma_picture_block_taken(file, 4 + first.len() as int, image, with_tags, true);
    } else {
        lemma_picture_block_taken(file, 4, image, start, false);
        lemma_comment_block_read(file, 4 + first.len() as int, t, with_image, true);
        assert(both == BlockScanView { tags: without_cover(t), ..with_image });
    }
    lemma_rating(t);
    lemma_finished(TagsView { front_cover: TagOption::Present(image), ..t }, both);
}

/// A scan that comes to a block of the type 127 ends with an error, whatever
/// it has read before and whether or not the block is marked as the last.
pub proof fn lemma_invalid_block_ends_scan(data: Seq<u8>, pos: int, copy: bool, s: BlockScanView)
    requires
        0 <= pos,
        pos + 4 <= data.len(),
        data[pos] % 128 == 127,
    ensures
        blocks_scanned(data, pos, copy, s) == Err::<(BlockScanView, int), ErrorView>(
            ErrorView::TagError(invalid_block()),
        ),
{
    assert(data.subrange(pos, pos + 4)[0] == data[pos]);
}

/// A stream whose first block has the type 127 is refused.
pub proof fn lemma_invalid_block_refused(data: Seq<u8>)
    requires
        data.len() >= 8,
        data.subrange(0, 4) == seq![0x66u8, 0x4Cu8, 0x61u8, 0x43u8],
        data[4] % 128 == 127,
    ensures
        flac_tags(data, 0) == Err::<TagsView, ErrorView>(ErrorView::TagError(invalid_block())),
{
    reveal(flac_tags);
    assert(read_filled(data, 0, 4, 0) =~= data.subrange(0, 4));
    lemma_invalid_block_ends_scan(data, 4, false, BlockScanView::start());
}

} // verus!
