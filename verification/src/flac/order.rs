//! The blocks of a stream may stand in any order: the tags are the same.
use vstd::prelude::*;
use crate::flac::block_read;
use crate::flac::blocks_scanned;
use crate::flac::field_read;
use crate::flac::flac_tags;
use crate::flac::is_jpeg_mime;
use crate::flac::is_png_mime;
use crate::flac::passed_over;
use crate::flac::picture_block_at;
use crate::flac::picture_body_at;
use crate::flac::roundtrip::lemma_block_header;
use crate::flac::roundtrip::lemma_header_read;
use crate::flac::roundtrip::marked_header;
use crate::flac::roundtrip::scan_after;
use crate::flac::with_block_picture;
use crate::flac::BlockScanView;
use crate::store::avail;
use crate::store::read_filled;
use crate::store::read_over;
use crate::store::seek_target;
use crate::tools::be_value;
use crate::tools::encoding::utf8_text;
use crate::tools::le_value;
use crate::tools::lemma_be_value_bound;
use crate::tools::lemma_le_value_bound;
use crate::types::image::ImageView;
use crate::types::tags::TagOption;
use crate::types::tags::TagsView;
use crate::vorbis::comments_at;
use crate::vorbis::entries_read;
use crate::vorbis::roundtrip::lemma_stands_at;
use crate::vorbis::roundtrip::stands_at;
use crate::ErrorView;

verus! {

/// Whether `remaining` entries, each behind its length, stand in `c` from
/// `pos` on and end where `c` ends.
pub open spec fn entries_fit(c: Seq<u8>, pos: int, remaining: nat) -> bool
    decreases remaining,
{
    if remaining == 0 {
        pos == c.len()
    } else {
        &&& 0 <= pos
        &&& pos + 4 <= c.len()
        &&& pos + 4 + le_value(c.subrange(pos, pos + 4)) <= c.len()
        &&& entries_fit(
            c,
            pos + 4 + le_value(c.subrange(pos, pos + 4)),
            (remaining - 1) as nat,
        )
    }
}

/// The length of the vendor string of the comments `c`.
pub open spec fn vendor_len(c: Seq<u8>) -> int {
    le_value(c.subrange(0, 4)) as int
}

/// Whether `c` is the content of a block of comments and nothing more: the
/// vendor string behind its length, the count of the entries, and as many
/// entries as the count says, each behind its length.
pub open spec fn comments_fit(c: Seq<u8>) -> bool {
    &&& 4 <= c.len()
    &&& 8 + vendor_len(c) <= c.len()
    &&& entries_fit(
        c,
        8 + vendor_len(c),
        le_value(c.subrange(4 + vendor_len(c), 8 + vendor_len(c))),
    )
}

/// The length of the media type of the picture block `p`.
pub open spec fn mime_len(p: Seq<u8>) -> int {
    be_value(p.subrange(4, 8)) as int
}

/// The length of the description of the picture block `p`.
pub open spec fn description_len(p: Seq<u8>) -> int {
    be_value(p.subrange(8 + mime_len(p), 12 + mime_len(p))) as int
}

/// The length of the image of the picture block `p`.
pub open spec fn image_len(p: Seq<u8>) -> int {
    be_value(
        p.subrange(28 + mime_len(p) + description_len(p), 32 + mime_len(p) + description_len(p)),
    ) as int
}

/// Whether `p` is the content of a picture block and nothing more: the
/// picture type, the media type and the description, each behind its
/// length, sixteen bytes of numbers, and the image behind its length.
pub open spec fn picture_fits(p: Seq<u8>) -> bool {
    &&& 8 <= p.len()
    &&& 12 + mime_len(p) <= p.len()
    &&& 32 + mime_len(p) + description_len(p) <= p.len()
    &&& 32 + mime_len(p) + description_len(p) + image_len(p) == p.len()
}

/// A field of four bytes that stands in `x`, which stands in the data, is
/// read whole, whatever the buffer held.
pub proof fn lemma_field_anywhere(x: Seq<u8>, data: Seq<u8>, at: int, pos: int, buf: Seq<u8>)
    requires
        stands_at(x, data, at),
        0 <= pos,
        pos + 4 <= x.len(),
        buf.len() == 4,
    ensures
        read_over(buf, 0, data, at + pos) == x.subrange(pos, pos + 4),
        avail(data.len() as int, at + pos, 4) == 4,
{
    let r = read_over(buf, 0, data, at + pos);
    assert forall|i: int| 0 <= i < 4 implies r[i] == x.subrange(pos, pos + 4)[i] by {
        assert(data.subrange(at, at + x.len() as int)[pos + i] == x[pos + i]);
    }
    assert(r =~= x.subrange(pos, pos + 4));
}

/// Bytes that stand in `x`, which stands in the data, are read whole.
pub proof fn lemma_bytes_anywhere(
    x: Seq<u8>,
    data: Seq<u8>,
    at: int,
    pos: int,
    len: int,
    fill: u8,
)
    requires
        stands_at(x, data, at),
        0 <= pos,
        0 <= len,
        pos + len <= x.len(),
    ensures
        read_filled(data, at + pos, len, fill) == x.subrange(pos, pos + len),
        avail(data.len() as int, at + pos, len) == len,
{
    let r = read_filled(data, at + pos, len, fill);
    assert forall|i: int| 0 <= i < len implies r[i] == x.subrange(pos, pos + len)[i] by {
        assert(data.subrange(at, at + x.len() as int)[pos + i] == x[pos + i]);
    }
    assert(r =~= x.subrange(pos, pos + len));
}

/// Everything stands in itself.
pub proof fn lemma_stands_in_itself(x: Seq<u8>)
    ensures
        stands_at(x, x, 0),
{
    assert(x.subrange(0, x.len() as int) =~= x);
}

/// Entries that stand in the data are read as they are read by themselves.
pub proof fn lemma_entries_anywhere(
    c: Seq<u8>,
    data: Seq<u8>,
    at: int,
    pos: int,
    buf: Seq<u8>,
    other: Seq<u8>,
    remaining: nat,
    state: (TagsView, bool),
)
    requires
        stands_at(c, data, at),
        entries_fit(c, pos, remaining),
        0 <= pos <= c.len(),
        buf.len() == 4,
        other.len() == 4,
    ensures
        entries_read(data, at + pos, other, remaining, state).0 == entries_read(
            c,
            pos,
            buf,
            remaining,
            state,
        ).0,
        entries_read(c, pos, buf, remaining, state).0 is Ok ==> entries_read(
            data,
            at + pos,
            other,
            remaining,
            state,
        ).1 == at + c.len(),
    decreases remaining,
{
    if remaining > 0 {
        lemma_stands_in_itself(c);
        lemma_field_anywhere(c, data, at, pos, other);
        lemma_field_anywhere(c, c, 0, pos, buf);
        let b = c.subrange(pos, pos + 4);
        lemma_le_value_bound(b);
        let len = le_value(b) as int;
        lemma_bytes_anywhere(c, data, at, pos + 4, len, 0);
        lemma_bytes_anywhere(c, c, 0, pos + 4, len, 0);
        assert(at + pos + 4 + len == at + (pos + 4 + len));
        lemma_entries_anywhere(
            c,
            data,
            at,
            pos + 4 + len,
            b,
            b,
            (remaining - 1) as nat,
            state,
        );
        let entry = c.subrange(pos + 4, pos + 4 + len);
        match crate::vorbis::entry_of(entry) {
            None => {},
            Some((key, value)) => {
                if key == "METADATA_BLOCK_PICTURE"@ {
                    match crate::vorbis::base64_bytes(value) {
                        None => {},
                        Some(block) => {
                            match picture_block_at(
                                block,
                                0,
                                crate::flac::len32(block.len()),
                            ).0 {
                                Err(_) => {},
                                Ok((image, kind)) => {
                                    lemma_entries_anywhere(
                                        c,
                                        data,
                                        at,
                                        pos + 4 + len,
                                        b,
                                        b,
                                        (remaining - 1) as nat,
                                        crate::vorbis::with_cover(state, image, kind),
                                    );
                                },
                            }
                        },
                    }
                } else {
                    lemma_entries_anywhere(
                        c,
                        data,
                        at,
                        pos + 4 + len,
                        b,
                        b,
                        (remaining - 1) as nat,
                        (crate::vorbis::with_entry(state.0, key, value), state.1),
                    );
                }
            },
        }
    }
}

/// Comments that stand in the data are read as they are read by
/// themselves, and the cursor stands behind them then.
pub proof fn lemma_comments_anywhere(c: Seq<u8>, data: Seq<u8>, at: int)
    requires
        stands_at(c, data, at),
        comments_fit(c),
        data.len() <= u64::MAX,
    ensures
        comments_at(data, at).0 == comments_at(c, 0).0,
        comments_at(c, 0).0 is Ok ==> comments_at(data, at).1 == at + c.len(),
{
    let zeros = seq![0u8, 0u8, 0u8, 0u8];
    lemma_stands_in_itself(c);
    lemma_field_anywhere(c, data, at, 0, zeros);
    lemma_field_anywhere(c, c, 0, 0, zeros);
    let b1 = c.subrange(0, 4);
    lemma_le_value_bound(b1);
    let v = le_value(b1) as int;
    assert(seek_target(at + 4, v) == Some((at + 4 + v) as u64));
    assert(seek_target(4, v) == Some((4 + v) as u64));
    lemma_field_anywhere(c, data, at, 4 + v, b1);
    lemma_field_anywhere(c, c, 0, 4 + v, b1);
    let b2 = c.subrange(4 + v, 8 + v);
    assert(at + (4 + v) + 4 == at + (8 + v));
    lemma_entries_anywhere(c, data, at, 8 + v, b2, b2, le_value(b2), (TagsView::none(), false));
}

/// A picture block that stands in the data is read as it is read by
/// itself, and the cursor stands behind it then.
pub proof fn lemma_picture_anywhere(p: Seq<u8>, data: Seq<u8>, at: int)
    requires
        stands_at(p, data, at),
        picture_fits(p),
        p.len() < 0x1_0000_0000,
        data.len() <= u64::MAX,
    ensures
        picture_block_at(data, at, p.len() as u32) == (
            picture_block_at(p, 0, p.len() as u32).0,
            at + p.len(),
        ),
        picture_block_at(p, 0, p.len() as u32).0 is Ok,
{
    let zeros = seq![0u8, 0u8, 0u8, 0u8];
    lemma_stands_in_itself(p);
    lemma_field_anywhere(p, data, at, 0, zeros);
    lemma_field_anywhere(p, p, 0, 0, zeros);
    let b1 = p.subrange(0, 4);
    lemma_field_anywhere(p, data, at, 4, b1);
    lemma_field_anywhere(p, p, 0, 4, b1);
    let b2 = p.subrange(4, 8);
    lemma_be_value_bound(b2);
    let m = be_value(b2) as int;
    lemma_bytes_anywhere(p, data, at, 8, m, 0);
    lemma_bytes_anywhere(p, p, 0, 8, m, 0);
    let mime = utf8_text(p.subrange(8, 8 + m));
    assert(at + 4 + 4 == at + 8);
    if !is_jpeg_mime(mime) && !is_png_mime(mime) {
        assert(seek_target(at + 8 + m, p.len() - 8 - m) == Some((at + p.len()) as u64));
        assert(seek_target(8 + m, p.len() - 8 - m) == Some(p.len() as u64));
    } else {
        lemma_field_anywhere(p, data, at, 8 + m, b2);
        lemma_field_anywhere(p, p, 0, 8 + m, b2);
        let b3 = p.subrange(8 + m, 12 + m);
        lemma_be_value_bound(b3);
        let d = be_value(b3) as int;
        assert(d == description_len(p));
        assert(seek_target(at + 12 + m, d) == Some((at + 12 + m + d) as u64));
        assert(seek_target(12 + m, d) == Some((12 + m + d) as u64));
        assert(seek_target(at + 12 + m + d, 16) == Some((at + 28 + m + d) as u64));
        assert(seek_target(12 + m + d, 16) == Some((28 + m + d) as u64));
        lemma_field_anywhere(p, data, at, 28 + m + d, b3);
        lemma_field_anywhere(p, p, 0, 28 + m + d, b3);
        let b4 = p.subrange(28 + m + d, 32 + m + d);
        lemma_be_value_bound(b4);
        let l = be_value(b4) as int;
        lemma_bytes_anywhere(p, data, at, 32 + m + d, l, 9);
        lemma_bytes_anywhere(p, p, 0, 32 + m + d, l, 9);
        assert(at + (8 + m) + 4 == at + 12 + m);
        assert(at + (28 + m + d) + 4 == at + (32 + m + d));
        let kind = be_value(b1) as u32;
        let jpeg = is_jpeg_mime(mime);
        assert(picture_body_at(data, at + 8 + m, b2, kind, jpeg) == (
            picture_body_at(p, 8 + m, b2, kind, jpeg).0,
            at + p.len(),
        ));
    }
}

/// What a scan holds after a block of comments, which it reads as they
/// are read by themselves; it goes on behind the block unless that is
/// marked as the last.
pub proof fn lemma_comments_block(
    file: Seq<u8>,
    at: int,
    c: Seq<u8>,
    s: BlockScanView,
    last: bool,
)
    requires
        comments_fit(c),
        c.len() <= 0x00FF_FFFF,
        stands_at(marked_header(0x04, c.len(), last) + c, file, at),
        file.len() <= u64::MAX,
    ensures
        blocks_scanned(file, at, false, s) == (match comments_at(c, 0).0 {
            Ok(tags) => scan_after(file, at + 4 + c.len(), last, BlockScanView { tags, ..s }),
            Err(e) => Err(e),
        }),
{
    let kind: u8 = if last {
        0x84
    } else {
        0x04
    };
    let header = marked_header(0x04, c.len(), last);
    lemma_block_header(kind, c.len());
    lemma_header_read(file, at, header, c);
    lemma_comments_anywhere(c, file, at + 4);
}

/// What a scan holds after a picture block, which it reads as it is read
/// by itself; it goes on behind the block unless that is marked as the
/// last.
pub proof fn lemma_picture_block(
    file: Seq<u8>,
    at: int,
    p: Seq<u8>,
    s: BlockScanView,
    last: bool,
)
    requires
        picture_fits(p),
        p.len() <= 0x00FF_FFFF,
        stands_at(marked_header(0x06, p.len(), last) + p, file, at),
        file.len() <= u64::MAX,
    ensures
        picture_block_at(p, 0, p.len() as u32).0 is Ok,
        blocks_scanned(file, at, false, s) == scan_after(
            file,
            at + 4 + p.len(),
            last,
            with_block_picture(
                s,
                picture_block_at(p, 0, p.len() as u32).0->Ok_0.0,
                picture_block_at(p, 0, p.len() as u32).0->Ok_0.1,
            ),
        ),
{
    let kind: u8 = if last {
        0x86
    } else {
        0x06
    };
    let header = marked_header(0x06, p.len(), last);
    lemma_block_header(kind, p.len());
    lemma_header_read(file, at, header, p);
    lemma_picture_anywhere(p, file, at + 4);
}

/// The stream of the marker, a block with the comments `c` and a block
/// with the picture `p`, of which the second is marked as the last, in the
/// one order or the other, and what follows them.
pub open spec fn in_order(comments_first: bool, c: Seq<u8>, p: Seq<u8>, tail: Seq<u8>) -> Seq<u8> {
    let marker = seq![0x66u8, 0x4Cu8, 0x61u8, 0x43u8];
    if comments_first {
        marker + (marked_header(0x04, c.len(), false) + c) + (marked_header(
            0x06,
            p.len(),
            true,
        ) + p) + tail
    } else {
        marker + (marked_header(0x06, p.len(), false) + p) + (marked_header(
            0x04,
            c.len(),
            true,
        ) + c) + tail
    }
}

/// The tags of comments with the picture of a picture block as their
/// cover; the error of the comments where they cannot be read.
pub open spec fn tags_of_both(c: Seq<u8>, p: Seq<u8>) -> Result<TagsView, ErrorView> {
    match comments_at(c, 0).0 {
        Ok(tags) => Ok(
            TagsView {
                front_cover: TagOption::Present(picture_block_at(p, 0, p.len() as u32).0->Ok_0.0),
                ..tags
            },
        ),
        Err(e) => Err(e),
    }
}

/// A stream with any block of comments and any picture block gives the
/// same tags in whichever order the two blocks stand: the tags that the
/// comments give by themselves, with the picture that the picture block
/// gives by itself as their cover.
pub proof fn lemma_any_blocks_in_either_order(
    comments_first: bool,
    c: Seq<u8>,
    p: Seq<u8>,
    tail: Seq<u8>,
)
    requires
        comments_fit(c),
        picture_fits(p),
        c.len() <= 0x00FF_FFFF,
        p.len() <= 0x00FF_FFFF,
        in_order(comments_first, c, p, tail).len() <= u64::MAX,
    ensures
        flac_tags(in_order(comments_first, c, p, tail), 0) == tags_of_both(c, p),
        flac_tags(in_order(true, c, p, tail), 0) == flac_tags(in_order(false, c, p, tail), 0),
{
    lemma_block_header(0x04, c.len());
    lemma_block_header(0x06, p.len());
    lemma_block_header(0x84, c.len());
    lemma_block_header(0x86, p.len());
    assert(in_order(true, c, p, tail).len() == in_order(false, c, p, tail).len());
    lemma_in_order(true, c, p, tail);
    lemma_in_order(false, c, p, tail);
}

/// The tags of a stream of two blocks in the given order.
pub proof fn lemma_in_order(comments_first: bool, c: Seq<u8>, p: Seq<u8>, tail: Seq<u8>)
    requires
        comments_fit(c),
        picture_fits(p),
        c.len() <= 0x00FF_FFFF,
        p.len() <= 0x00FF_FFFF,
        in_order(comments_first, c, p, tail).len() <= u64::MAX,
    ensures
        flac_tags(in_order(comments_first, c, p, tail), 0) == tags_of_both(c, p),
{
    reveal(flac_tags);
    let marker = seq![0x66u8, 0x4Cu8, 0x61u8, 0x43u8];
    let file = in_order(comments_first, c, p, tail);
    let start = BlockScanView::start();
    let first = if comments_first {
        marked_header(0x04, c.len(), false) + c
    } else {
        marked_header(0x06, p.len(), false) + p
    };
    let second = if comments_first {
        marked_header(0x06, p.len(), true) + p
    } else {
        marked_header(0x04, c.len(), true) + c
    };
    assert(file == marker + first + second + tail);
    assert(read_filled(file, 0, 4, 0) =~= marker);
    lemma_block_header(0x04, c.len());
    lemma_block_header(0x06, p.len());
    lemma_block_header(0x84, c.len());
    lemma_block_header(0x86, p.len());
    lemma_stands_in_itself(file);
    lemma_stands_at(marker + first + second, tail, file, 0);
    lemma_stands_at(marker + first, second, file, 0);
    lemma_stands_at(marker, first, file, 0);
    let picture = picture_block_at(p, 0, p.len() as u32).0->Ok_0;
    if comments_first {
        lemma_comments_block(file, 4, c, start, false);
        match comments_at(c, 0).0 {
            Ok(tags) => {
                lemma_picture_block(
                    file,
                    4 + first.len() as int,
                    p,
                    BlockScanView { tags, ..start },
                    true,
                );
            },
            Err(_) => {},
        }
    } else {
        lemma_picture_block(file, 4, p, start, false);
        lemma_comments_block(
            file,
            4 + first.len() as int,
            c,
            with_block_picture(start, picture.0, picture.1),
            true,
        );
    }
}

} // verus!
