//! What is written as an ID3v2 tag is read back as it was.
use vstd::prelude::*;
use crate::id3v2::comment_payload;
use crate::id3v2::compilation_payload;
use crate::id3v2::date_payload;
use crate::id3v2::field_payload;
use crate::id3v2::audio_start;
use crate::id3v2::frame;
use crate::id3v2::frames_fit;
use crate::id3v2::structure::Header;
use crate::id3v2::get::date_text;
use crate::id3v2::get::finished;
use crate::id3v2::id3v2_tags;
use crate::id3v2::internal_tags;
use crate::id3v2::padded_len;
use crate::id3v2::read::header_of;
use crate::id3v2::rest_frames;
use crate::id3v2::rest_frames_fit;
use crate::id3v2::rewritten;
use crate::id3v2::tag_frames;
use crate::id3v2::tag_of_frames;
use crate::id3v2::tag_start;
use crate::id3v2::tag_written;
use crate::id3v2::tags_before;
use crate::store::rest;
use crate::tools::tags::delta_view;
use crate::ErrorView;
use crate::id3v2::number_frames;
use crate::id3v2::number_frames_fit;
use crate::id3v2::number_payload;
use crate::id3v2::pair_payload;
use crate::id3v2::sort_frames;
use crate::id3v2::sort_frames_fit;
use crate::id3v2::text_frames;
use crate::id3v2::text_frames_fit;
use crate::tools::text::decimal_int;
use crate::tools::text::padded;
use crate::types::datetime::iso_8601_text;
use crate::types::datetime::part_text;
use crate::id3v2::get::with_number;
use crate::id3v2::pair_text;
use crate::id3v2::track::lemma_digits_end;
use crate::id3v2::track::lemma_zeros_end;
use crate::id3v2::track::track_parts;
use crate::tools::text::decimal;
use crate::tools::text::is_digit;
use crate::tools::text::lemma_decimal;
use crate::tools::text::lemma_parse_decimal;
use crate::types::datetime::DateTime;
use crate::types::tags::TagsView;
use crate::id3v2::get::frame_read;
use crate::id3v2::get::frames_scanned;
use crate::id3v2::get::with_picture;
use crate::id3v2::get::with_text;
use crate::id3v2::get::ScanView;
use crate::id3v2::opt_fits;
use crate::id3v2::opt_frame;
use crate::id3v2::picture_payload;
use crate::id3v2::read::image_at;
use crate::id3v2::read::mime_plan;
use crate::id3v2::read::named;
use crate::id3v2::read::Plan;
use crate::types::image::ImageView;
use crate::types::tags::TagOption;
use crate::id3v2::get::frame_kind_of;
use crate::id3v2::get::FrameKind;
use crate::id3v2::read::comment_at;
use crate::id3v2::read::encoded_text;
use crate::id3v2::read::frame_header_at;
use crate::id3v2::read::frame_header_of;
use crate::id3v2::read::frame_text;
use crate::id3v2::read::has_bit;
use crate::id3v2::read::text_bytes;
use crate::id3v2::structure::FrameHeaderView;
use crate::id3v2::text_payload;
use crate::id3v2::tools::decode_synch_spec;
use crate::id3v2::tools::frame_id_chars;
use crate::id3v2::tools::is_id_byte;
use crate::id3v2::tools::is_id_char;
use crate::id3v2::tools::lemma_synch_roundtrip;
use crate::id3v2::tools::synch_bytes;
use crate::id3v2::tools::valid_id_bytes;
use crate::id3v2::tools::valid_id_chars;
use crate::store::avail;
use crate::store::read_filled;
use crate::tools::encoding::lemma_utf8_text_written;
use crate::tools::text::no_nul;

verus! {

/// Whether `id` is the id of a frame of the later versions: four
/// characters of `A` to `Z` and `0` to `9`.
pub open spec fn is_frame_id(id: Seq<char>) -> bool {
    id.len() == 4 && valid_id_chars(id)
}

/// The bytes of a frame id are its four characters, and are read as the id.
pub proof fn lemma_frame_id_bytes(id: Seq<char>)
    requires
        is_frame_id(id),
    ensures
        text_bytes(id).len() == 4,
        frame_id_chars(text_bytes(id)) == Some(id),
{
    assert(vstd::utf8::is_ascii_chars(id)) by {
        assert forall|i: int| 0 <= i < id.len() implies '\0' <= #[trigger] id[i] <= '\u{7f}' by {
            assert(is_id_char(id[i]));
        }
    }
    vstd::utf8::is_ascii_chars_encode_utf8(id);
    let b = text_bytes(id);
    assert forall|i: int| 0 <= i < b.len() implies is_id_byte(#[trigger] b[i]) by {
        assert(is_id_char(id[i]));
        assert(b[i] == id[i] as u8);
    }
    assert(frame_id_chars(b)->0 =~= id) by {
        assert forall|i: int| 0 <= i < id.len() implies (b[i] as char) == id[i] by {
            assert(is_id_char(id[i]));
            assert(b[i] == id[i] as u8);
        }
    }
}

/// The header that a written frame starts with.
pub open spec fn written_header(id: Seq<char>, payload: Seq<u8>) -> FrameHeaderView {
    FrameHeaderView {
        name: id,
        size: payload.len() as u32,
        drop_after_tag_alteration: false,
        drop_after_file_alteration: false,
        is_unsynchronized: false,
        is_compressed: false,
    }
}

/// A written frame that stands at `pos` is read there: its header gives
/// its id and the size of its content, and its content follows the header.
pub proof fn lemma_frame_found(data: Seq<u8>, pos: int, id: Seq<char>, payload: Seq<u8>)
    requires
        is_frame_id(id),
        payload.len() < 0x1000_0000,
        0 <= pos,
        pos + 10 + payload.len() <= data.len(),
        data.subrange(pos, pos + 10 + payload.len()) == frame(id, payload),
    ensures
        frame_header_at(data, pos, 4) == Some(written_header(id, payload)),
        avail(data.len() as int, pos, 10) == 10,
        read_filled(data, pos + 10, payload.len() as int, 0) == payload,
        avail(data.len() as int, pos + 10, payload.len() as int) == payload.len(),
{
    lemma_frame_id_bytes(id);
    lemma_synch_roundtrip(payload.len() as u32, false);
    let f = frame(id, payload);
    let size = synch_bytes(payload.len() as u32, false);
    assert(size.len() == 4);
    let arr = read_filled(data, pos, 10, 0);
    assert(f.len() == 10 + payload.len());
    assert forall|i: int| 0 <= i < 10 implies arr[i] == f[i] by {
        assert(f[i] == data.subrange(pos, pos + 10 + payload.len())[i]);
    }
    assert(arr.subrange(0, 4) =~= text_bytes(id));
    assert(arr.subrange(4, 8) =~= size);
    assert(arr[8] == 0 && arr[9] == 0);
    assert(!has_bit(0u8, 0x40) && !has_bit(0u8, 0x20) && !has_bit(0u8, 0x02) && !has_bit(
        0u8,
        0x08,
    ));
    assert(read_filled(data, pos + 10, payload.len() as int, 0) =~= payload) by {
        assert forall|i: int| 0 <= i < payload.len() implies read_filled(
            data,
            pos + 10,
            payload.len() as int,
            0,
        )[i] == payload[i] by {
            assert(f[10 + i] == data.subrange(pos, pos + 10 + payload.len())[10 + i]);
        }
    }
}

/// The content of a written text frame is read as the text, if the text
/// holds no NUL.
pub proof fn lemma_text_payload(s: Seq<char>)
    requires
        no_nul(s),
    ensures
        frame_text(text_payload(s)) == s,
{
    let p = text_payload(s);
    let b = text_bytes(s);
    assert(p[0] == 3);
    assert(p.skip(1) =~= b + seq![0u8]);
    lemma_utf8_text_written(s);
    crate::tools::text::lemma_no_nul_kept(s);
}

/// The bytes of the media types and of the language of a comment.
pub proof fn lemma_literal_bytes()
    ensures
        text_bytes("image/jpeg"@) == seq![0x69u8, 0x6Du8, 0x61u8, 0x67u8, 0x65u8, 0x2Fu8, 0x6Au8,
            0x70u8, 0x65u8, 0x67u8],
        text_bytes("image/jpg"@) == seq![0x69u8, 0x6Du8, 0x61u8, 0x67u8, 0x65u8, 0x2Fu8, 0x6Au8,
            0x70u8, 0x67u8],
        text_bytes("image/png"@) == seq![0x69u8, 0x6Du8, 0x61u8, 0x67u8, 0x65u8, 0x2Fu8, 0x70u8,
            0x6Eu8, 0x67u8],
        text_bytes("png"@) == seq![0x70u8, 0x6Eu8, 0x67u8],
        text_bytes("jpeg"@) == seq![0x6Au8, 0x70u8, 0x65u8, 0x67u8],
        text_bytes("eng"@) == seq![0x65u8, 0x6Eu8, 0x67u8],
{
    reveal_strlit("image/jpeg");
    assert(vstd::utf8::is_ascii_chars("image/jpeg"@));
    vstd::utf8::is_ascii_chars_encode_utf8("image/jpeg"@);
    assert(text_bytes("image/jpeg"@) =~= seq![0x69u8, 0x6Du8, 0x61u8, 0x67u8, 0x65u8, 0x2Fu8,
        0x6Au8, 0x70u8, 0x65u8, 0x67u8]);
    reveal_strlit("image/jpg");
    assert(vstd::utf8::is_ascii_chars("image/jpg"@));
    vstd::utf8::is_ascii_chars_encode_utf8("image/jpg"@);
    assert(text_bytes("image/jpg"@) =~= seq![0x69u8, 0x6Du8, 0x61u8, 0x67u8, 0x65u8, 0x2Fu8, 0x6Au8,
        0x70u8, 0x67u8]);
    reveal_strlit("image/png");
    assert(vstd::utf8::is_ascii_chars("image/png"@));
    vstd::utf8::is_ascii_chars_encode_utf8("image/png"@);
    assert(text_bytes("image/png"@) =~= seq![0x69u8, 0x6Du8, 0x61u8, 0x67u8, 0x65u8, 0x2Fu8, 0x70u8,
        0x6Eu8, 0x67u8]);
    reveal_strlit("png");
    assert(vstd::utf8::is_ascii_chars("png"@));
    vstd::utf8::is_ascii_chars_encode_utf8("png"@);
    assert(text_bytes("png"@) =~= seq![0x70u8, 0x6Eu8, 0x67u8]);
    reveal_strlit("jpeg");
    assert(vstd::utf8::is_ascii_chars("jpeg"@));
    vstd::utf8::is_ascii_chars_encode_utf8("jpeg"@);
    assert(text_bytes("jpeg"@) =~= seq![0x6Au8, 0x70u8, 0x65u8, 0x67u8]);
    reveal_strlit("eng");
    assert(vstd::utf8::is_ascii_chars("eng"@));
    vstd::utf8::is_ascii_chars_encode_utf8("eng"@);
    assert(text_bytes("eng"@) =~= seq![0x65u8, 0x6Eu8, 0x67u8]);
}

/// The content of a written comment frame is read as the comment, if the
/// comment holds no NUL.
pub proof fn lemma_comment_payload(data: Seq<u8>, pos: int, s: Seq<char>)
    requires
        no_nul(s),
        0 <= pos,
        comment_payload(TagOption::Present(s)) is Some,
        comment_payload(TagOption::Present(s))->0.len() < 0x1000_0000,
        read_filled(
            data,
            pos,
            comment_payload(TagOption::Present(s))->0.len() as int,
            0,
        ) == comment_payload(TagOption::Present(s))->0,
        pos + comment_payload(TagOption::Present(s))->0.len() <= data.len(),
    ensures
        comment_at(data, pos, comment_payload(TagOption::Present(s))->0.len() as u32) == (
            Some(s),
            pos + comment_payload(TagOption::Present(s))->0.len(),
        ),
{
    lemma_literal_bytes();
    let p = comment_payload(TagOption::Present(s))->0;
    let b = text_bytes(s);
    let n = data.len() as int;
    assert(p.len() == 6 + b.len());
    let whole = read_filled(data, pos, p.len() as int, 0);
    let header = read_filled(data, pos, 5, 0);
    assert forall|i: int| 0 <= i < 5 implies header[i] == p[i] by {
        assert(whole[i] == p[i]);
    }
    assert(header[0] == 3 && header[4] == 0);
    let body = read_filled(data, pos + 5, p.len() - 5, 0);
    assert(seq![header[0]] + body =~= text_payload(s)) by {
        assert forall|i: int| 0 <= i < body.len() implies body[i] == p[5 + i] by {
            assert(whole[5 + i] == p[5 + i]);
        }
    }
    lemma_text_payload(s);
}

/// Whether a cover can be written and read back: a PNG file starts as PNG
/// files do, and there is an image.
pub open spec fn storable_cover(image: ImageView) -> bool {
    match image {
        ImageView::PNG(v) => v.len() >= 1 && v[0] == 0x89,
        ImageView::JPEG(_) => true,
        ImageView::Empty => false,
    }
}

/// The content of a written picture frame is read as the cover, of the
/// type of a front cover.
pub proof fn lemma_picture_payload(data: Seq<u8>, pos: int, image: ImageView)
    requires
        storable_cover(image),
        0 <= pos,
        picture_payload(TagOption::Present(image)) is Some,
        picture_payload(TagOption::Present(image))->0.len() < 0x1000_0000,
        read_filled(
            data,
            pos,
            picture_payload(TagOption::Present(image))->0.len() as int,
            0,
        ) == picture_payload(TagOption::Present(image))->0,
        pos + picture_payload(TagOption::Present(image))->0.len() <= data.len(),
    ensures
        image_at(data, pos, picture_payload(TagOption::Present(image))->0.len() as u32) == (
            (image, 3u8),
            pos + picture_payload(TagOption::Present(image))->0.len(),
        ),
{
    lemma_literal_bytes();
    let p = picture_payload(TagOption::Present(image))->0;
    let v = image.bytes();
    let header = read_filled(data, pos, 14, 0);
    let whole = read_filled(data, pos, p.len() as int, 0);
    assert(p.len() >= 14);
    assert forall|i: int| 0 <= i < 14 implies header[i] == p[i] by {
        assert(whole[i] == p[i]);
    }
    match image {
        ImageView::JPEG(_) => {
            assert(p =~= seq![3u8] + text_bytes("image/jpeg"@) + seq![0u8, 3u8, 0u8] + v);
            assert(header.subrange(1, 11) =~= text_bytes("image/jpeg"@));
            assert(header[11] == 0 && header[12] == 3 && header[13] == 0);
            assert(named(header, "image/jpeg"@));
            assert(mime_plan(header, "image/jpeg"@, true, true) == Some(
                Plan::Take { jpeg: true, at: 14, kind: 3 },
            ));
            assert(whole.skip(14) =~= v);
        },
        ImageView::PNG(_) => {
            assert(p =~= seq![3u8] + text_bytes("image/png"@) + seq![0u8, 3u8, 0u8] + v);
            assert(header.subrange(1, 10) =~= text_bytes("image/png"@));
            assert(header[10] == 0 && header[11] == 3 && header[12] == 0 && header[13] == 0x89);
            assert(!named(header, "image/jpeg"@)) by {
                assert(header.subrange(1, 11)[6] != text_bytes("image/jpeg"@)[6]);
            }
            assert(!named(header, "image/jpg"@)) by {
                assert(header.subrange(1, 10)[6] != text_bytes("image/jpg"@)[6]);
            }
            assert(named(header, "image/png"@));
            assert(mime_plan(header, "image/png"@, false, true) == Some(
                Plan::Take { jpeg: false, at: 13, kind: 3 },
            ));
            assert(whole.skip(13) =~= v);
        },
        ImageView::Empty => {},
    }
}

/// `TIT2` is the id of a frame, of the kind that it is written for.
pub proof fn lemma_id_of_title()
    ensures
        is_frame_id("TIT2"@),
        frame_kind_of("TIT2"@, false) == FrameKind::Title,
{
    reveal_strlit("TIT2");
    reveal_strlit("TT2");
    reveal_strlit("TALB");
    reveal_strlit("TAL");
    reveal_strlit("TPE1");
    reveal_strlit("TP1");
    reveal_strlit("TPE2");
    reveal_strlit("TP2");
    reveal_strlit("TCOM");
    reveal_strlit("TCM");
    reveal_strlit("TIT1");
    reveal_strlit("TT1");
    reveal_strlit("TCON");
    reveal_strlit("TCO");
    reveal_strlit("TDRC");
    reveal_strlit("TYER");
    reveal_strlit("TYE");
    reveal_strlit("TDAT");
    reveal_strlit("TDA");
    reveal_strlit("TIME");
    reveal_strlit("TIM");
    reveal_strlit("TRCK");
    reveal_strlit("TRK");
    reveal_strlit("TPOS");
    reveal_strlit("TPA");
    reveal_strlit("TBPM");
    reveal_strlit("TBP");
    reveal_strlit("TCMP");
    reveal_strlit("TCP");
    reveal_strlit("COMM");
    reveal_strlit("COM");
    reveal_strlit("TSOT");
    reveal_strlit("TST");
    reveal_strlit("TSOA");
    reveal_strlit("TSA");
    reveal_strlit("TSOP");
    reveal_strlit("TSP");
    reveal_strlit("TSO2");
    reveal_strlit("TS2");
    reveal_strlit("TSOC");
    reveal_strlit("TSC");
    reveal_strlit("APIC");
    reveal_strlit("PIC");
    let id = "TIT2"@;
    assert(id.len() == 4);
    assert(is_id_char(id[0]) && is_id_char(id[1]) && is_id_char(id[2]) && is_id_char(id[3]));
}

/// `TPE1` is the id of a frame, of the kind that it is written for.
pub proof fn lemma_id_of_artist()
    ensures
        is_frame_id("TPE1"@),
        frame_kind_of("TPE1"@, false) == FrameKind::Artist,
{
    reveal_strlit("TIT2");
    reveal_strlit("TT2");
    reveal_strlit("TALB");
    reveal_strlit("TAL");
    reveal_strlit("TPE1");
    reveal_strlit("TP1");
    reveal_strlit("TPE2");
    reveal_strlit("TP2");
    reveal_strlit("TCOM");
    reveal_strlit("TCM");
    reveal_strlit("TIT1");
    reveal_strlit("TT1");
    reveal_strlit("TCON");
    reveal_strlit("TCO");
    reveal_strlit("TDRC");
    reveal_strlit("TYER");
    reveal_strlit("TYE");
    reveal_strlit("TDAT");
    reveal_strlit("TDA");
    reveal_strlit("TIME");
    reveal_strlit("TIM");
    reveal_strlit("TRCK");
    reveal_strlit("TRK");
    reveal_strlit("TPOS");
    reveal_strlit("TPA");
    reveal_strlit("TBPM");
    reveal_strlit("TBP");
    reveal_strlit("TCMP");
    reveal_strlit("TCP");
    reveal_strlit("COMM");
    reveal_strlit("COM");
    reveal_strlit("TSOT");
    reveal_strlit("TST");
    reveal_strlit("TSOA");
    reveal_strlit("TSA");
    reveal_strlit("TSOP");
    reveal_strlit("TSP");
    reveal_strlit("TSO2");
    reveal_strlit("TS2");
    reveal_strlit("TSOC");
    reveal_strlit("TSC");
    reveal_strlit("APIC");
    reveal_strlit("PIC");
    let id = "TPE1"@;
    assert(id.len() == 4);
    assert(is_id_char(id[0]) && is_id_char(id[1]) && is_id_char(id[2]) && is_id_char(id[3]));
}

/// `TALB` is the id of a frame, of the kind that it is written for.
pub proof fn lemma_id_of_album()
    ensures
        is_frame_id("TALB"@),
        frame_kind_of("TALB"@, false) == FrameKind::Album,
{
    reveal_strlit("TIT2");
    reveal_strlit("TT2");
    reveal_strlit("TALB");
    reveal_strlit("TAL");
    reveal_strlit("TPE1");
    reveal_strlit("TP1");
    reveal_strlit("TPE2");
    reveal_strlit("TP2");
    reveal_strlit("TCOM");
    reveal_strlit("TCM");
    reveal_strlit("TIT1");
    reveal_strlit("TT1");
    reveal_strlit("TCON");
    reveal_strlit("TCO");
    reveal_strlit("TDRC");
    reveal_strlit("TYER");
    reveal_strlit("TYE");
    reveal_strlit("TDAT");
    reveal_strlit("TDA");
    reveal_strlit("TIME");
    reveal_strlit("TIM");
    reveal_strlit("TRCK");
    reveal_strlit("TRK");
    reveal_strlit("TPOS");
    reveal_strlit("TPA");
    reveal_strlit("TBPM");
    reveal_strlit("TBP");
    reveal_strlit("TCMP");
    reveal_strlit("TCP");
    reveal_strlit("COMM");
    reveal_strlit("COM");
    reveal_strlit("TSOT");
    reveal_strlit("TST");
    reveal_strlit("TSOA");
    reveal_strlit("TSA");
    reveal_strlit("TSOP");
    reveal_strlit("TSP");
    reveal_strlit("TSO2");
    reveal_strlit("TS2");
    reveal_strlit("TSOC");
    reveal_strlit("TSC");
    reveal_strlit("APIC");
    reveal_strlit("PIC");
    let id = "TALB"@;
    assert(id.len() == 4);
    assert(is_id_char(id[0]) && is_id_char(id[1]) && is_id_char(id[2]) && is_id_char(id[3]));
}

/// `TPE2` is the id of a frame, of the kind that it is written for.
pub proof fn lemma_id_of_album_artist()
    ensures
        is_frame_id("TPE2"@),
        frame_kind_of("TPE2"@, false) == FrameKind::AlbumArtist,
{
    reveal_strlit("TIT2");
    reveal_strlit("TT2");
    reveal_strlit("TALB");
    reveal_strlit("TAL");
    reveal_strlit("TPE1");
    reveal_strlit("TP1");
    reveal_strlit("TPE2");
    reveal_strlit("TP2");
    reveal_strlit("TCOM");
    reveal_strlit("TCM");
    reveal_strlit("TIT1");
    reveal_strlit("TT1");
    reveal_strlit("TCON");
    reveal_strlit("TCO");
    reveal_strlit("TDRC");
    reveal_strlit("TYER");
    reveal_strlit("TYE");
    reveal_strlit("TDAT");
    reveal_strlit("TDA");
    reveal_strlit("TIME");
    reveal_strlit("TIM");
    reveal_strlit("TRCK");
    reveal_strlit("TRK");
    reveal_strlit("TPOS");
    reveal_strlit("TPA");
    reveal_strlit("TBPM");
    reveal_strlit("TBP");
    reveal_strlit("TCMP");
    reveal_strlit("TCP");
    reveal_strlit("COMM");
    reveal_strlit("COM");
    reveal_strlit("TSOT");
    reveal_strlit("TST");
    reveal_strlit("TSOA");
    reveal_strlit("TSA");
    reveal_strlit("TSOP");
    reveal_strlit("TSP");
    reveal_strlit("TSO2");
    reveal_strlit("TS2");
    reveal_strlit("TSOC");
    reveal_strlit("TSC");
    reveal_strlit("APIC");
    reveal_strlit("PIC");
    let id = "TPE2"@;
    assert(id.len() == 4);
    assert(is_id_char(id[0]) && is_id_char(id[1]) && is_id_char(id[2]) && is_id_char(id[3]));
}

/// `TCOM` is the id of a frame, of the kind that it is written for.
pub proof fn lemma_id_of_composer()
    ensures
        is_frame_id("TCOM"@),
        frame_kind_of("TCOM"@, false) == FrameKind::Composer,
{
    reveal_strlit("TIT2");
    reveal_strlit("TT2");
    reveal_strlit("TALB");
    reveal_strlit("TAL");
    reveal_strlit("TPE1");
    reveal_strlit("TP1");
    reveal_strlit("TPE2");
    reveal_strlit("TP2");
    reveal_strlit("TCOM");
    reveal_strlit("TCM");
    reveal_strlit("TIT1");
    reveal_strlit("TT1");
    reveal_strlit("TCON");
    reveal_strlit("TCO");
    reveal_strlit("TDRC");
    reveal_strlit("TYER");
    reveal_strlit("TYE");
    reveal_strlit("TDAT");
    reveal_strlit("TDA");
    reveal_strlit("TIME");
    reveal_strlit("TIM");
    reveal_strlit("TRCK");
    reveal_strlit("TRK");
    reveal_strlit("TPOS");
    reveal_strlit("TPA");
    reveal_strlit("TBPM");
    reveal_strlit("TBP");
    reveal_strlit("TCMP");
    reveal_strlit("TCP");
    reveal_strlit("COMM");
    reveal_strlit("COM");
    reveal_strlit("TSOT");
    reveal_strlit("TST");
    reveal_strlit("TSOA");
    reveal_strlit("TSA");
    reveal_strlit("TSOP");
    reveal_strlit("TSP");
    reveal_strlit("TSO2");
    reveal_strlit("TS2");
    reveal_strlit("TSOC");
    reveal_strlit("TSC");
    reveal_strlit("APIC");
    reveal_strlit("PIC");
    let id = "TCOM"@;
    assert(id.len() == 4);
    assert(is_id_char(id[0]) && is_id_char(id[1]) && is_id_char(id[2]) && is_id_char(id[3]));
}

/// `TIT1` is the id of a frame, of the kind that it is written for.
pub proof fn lemma_id_of_grouping()
    ensures
        is_frame_id("TIT1"@),
        frame_kind_of("TIT1"@, false) == FrameKind::Grouping,
{
    reveal_strlit("TIT2");
    reveal_strlit("TT2");
    reveal_strlit("TALB");
    reveal_strlit("TAL");
    reveal_strlit("TPE1");
    reveal_strlit("TP1");
    reveal_strlit("TPE2");
    reveal_strlit("TP2");
    reveal_strlit("TCOM");
    reveal_strlit("TCM");
    reveal_strlit("TIT1");
    reveal_strlit("TT1");
    reveal_strlit("TCON");
    reveal_strlit("TCO");
    reveal_strlit("TDRC");
    reveal_strlit("TYER");
    reveal_strlit("TYE");
    reveal_strlit("TDAT");
    reveal_strlit("TDA");
    reveal_strlit("TIME");
    reveal_strlit("TIM");
    reveal_strlit("TRCK");
    reveal_strlit("TRK");
    reveal_strlit("TPOS");
    reveal_strlit("TPA");
    reveal_strlit("TBPM");
    reveal_strlit("TBP");
    reveal_strlit("TCMP");
    reveal_strlit("TCP");
    reveal_strlit("COMM");
    reveal_strlit("COM");
    reveal_strlit("TSOT");
    reveal_strlit("TST");
    reveal_strlit("TSOA");
    reveal_strlit("TSA");
    reveal_strlit("TSOP");
    reveal_strlit("TSP");
    reveal_strlit("TSO2");
    reveal_strlit("TS2");
    reveal_strlit("TSOC");
    reveal_strlit("TSC");
    reveal_strlit("APIC");
    reveal_strlit("PIC");
    let id = "TIT1"@;
    assert(id.len() == 4);
    assert(is_id_char(id[0]) && is_id_char(id[1]) && is_id_char(id[2]) && is_id_char(id[3]));
}

/// `TCON` is the id of a frame, of the kind that it is written for.
pub proof fn lemma_id_of_genre()
    ensures
        is_frame_id("TCON"@),
        frame_kind_of("TCON"@, false) == FrameKind::Genre,
{
    reveal_strlit("TIT2");
    reveal_strlit("TT2");
    reveal_strlit("TALB");
    reveal_strlit("TAL");
    reveal_strlit("TPE1");
    reveal_strlit("TP1");
    reveal_strlit("TPE2");
    reveal_strlit("TP2");
    reveal_strlit("TCOM");
    reveal_strlit("TCM");
    reveal_strlit("TIT1");
    reveal_strlit("TT1");
    reveal_strlit("TCON");
    reveal_strlit("TCO");
    reveal_strlit("TDRC");
    reveal_strlit("TYER");
    reveal_strlit("TYE");
    reveal_strlit("TDAT");
    reveal_strlit("TDA");
    reveal_strlit("TIME");
    reveal_strlit("TIM");
    reveal_strlit("TRCK");
    reveal_strlit("TRK");
    reveal_strlit("TPOS");
    reveal_strlit("TPA");
    reveal_strlit("TBPM");
    reveal_strlit("TBP");
    reveal_strlit("TCMP");
    reveal_strlit("TCP");
    reveal_strlit("COMM");
    reveal_strlit("COM");
    reveal_strlit("TSOT");
    reveal_strlit("TST");
    reveal_strlit("TSOA");
    reveal_strlit("TSA");
    reveal_strlit("TSOP");
    reveal_strlit("TSP");
    reveal_strlit("TSO2");
    reveal_strlit("TS2");
    reveal_strlit("TSOC");
    reveal_strlit("TSC");
    reveal_strlit("APIC");
    reveal_strlit("PIC");
    let id = "TCON"@;
    assert(id.len() == 4);
    assert(is_id_char(id[0]) && is_id_char(id[1]) && is_id_char(id[2]) && is_id_char(id[3]));
}

/// `TDRC` is the id of a frame, of the kind that it is written for.
pub proof fn lemma_id_of_date()
    ensures
        is_frame_id("TDRC"@),
        frame_kind_of("TDRC"@, false) == FrameKind::Date,
{
    reveal_strlit("TIT2");
    reveal_strlit("TT2");
    reveal_strlit("TALB");
    reveal_strlit("TAL");
    reveal_strlit("TPE1");
    reveal_strlit("TP1");
    reveal_strlit("TPE2");
    reveal_strlit("TP2");
    reveal_strlit("TCOM");
    reveal_strlit("TCM");
    reveal_strlit("TIT1");
    reveal_strlit("TT1");
    reveal_strlit("TCON");
    reveal_strlit("TCO");
    reveal_strlit("TDRC");
    reveal_strlit("TYER");
    reveal_strlit("TYE");
    reveal_strlit("TDAT");
    reveal_strlit("TDA");
    reveal_strlit("TIME");
    reveal_strlit("TIM");
    reveal_strlit("TRCK");
    reveal_strlit("TRK");
    reveal_strlit("TPOS");
    reveal_strlit("TPA");
    reveal_strlit("TBPM");
    reveal_strlit("TBP");
    reveal_strlit("TCMP");
    reveal_strlit("TCP");
    reveal_strlit("COMM");
    reveal_strlit("COM");
    reveal_strlit("TSOT");
    reveal_strlit("TST");
    reveal_strlit("TSOA");
    reveal_strlit("TSA");
    reveal_strlit("TSOP");
    reveal_strlit("TSP");
    reveal_strlit("TSO2");
    reveal_strlit("TS2");
    reveal_strlit("TSOC");
    reveal_strlit("TSC");
    reveal_strlit("APIC");
    reveal_strlit("PIC");
    let id = "TDRC"@;
    assert(id.len() == 4);
    assert(is_id_char(id[0]) && is_id_char(id[1]) && is_id_char(id[2]) && is_id_char(id[3]));
}

/// `TRCK` is the id of a frame, of the kind that it is written for.
pub proof fn lemma_id_of_track()
    ensures
        is_frame_id("TRCK"@),
        frame_kind_of("TRCK"@, false) == FrameKind::Track,
{
    reveal_strlit("TIT2");
    reveal_strlit("TT2");
    reveal_strlit("TALB");
    reveal_strlit("TAL");
    reveal_strlit("TPE1");
    reveal_strlit("TP1");
    reveal_strlit("TPE2");
    reveal_strlit("TP2");
    reveal_strlit("TCOM");
    reveal_strlit("TCM");
    reveal_strlit("TIT1");
    reveal_strlit("TT1");
    reveal_strlit("TCON");
    reveal_strlit("TCO");
    reveal_strlit("TDRC");
    reveal_strlit("TYER");
    reveal_strlit("TYE");
    reveal_strlit("TDAT");
    reveal_strlit("TDA");
    reveal_strlit("TIME");
    reveal_strlit("TIM");
    reveal_strlit("TRCK");
    reveal_strlit("TRK");
    reveal_strlit("TPOS");
    reveal_strlit("TPA");
    reveal_strlit("TBPM");
    reveal_strlit("TBP");
    reveal_strlit("TCMP");
    reveal_strlit("TCP");
    reveal_strlit("COMM");
    reveal_strlit("COM");
    reveal_strlit("TSOT");
    reveal_strlit("TST");
    reveal_strlit("TSOA");
    reveal_strlit("TSA");
    reveal_strlit("TSOP");
    reveal_strlit("TSP");
    reveal_strlit("TSO2");
    reveal_strlit("TS2");
    reveal_strlit("TSOC");
    reveal_strlit("TSC");
    reveal_strlit("APIC");
    reveal_strlit("PIC");
    let id = "TRCK"@;
    assert(id.len() == 4);
    assert(is_id_char(id[0]) && is_id_char(id[1]) && is_id_char(id[2]) && is_id_char(id[3]));
}

/// `TPOS` is the id of a frame, of the kind that it is written for.
pub proof fn lemma_id_of_disc()
    ensures
        is_frame_id("TPOS"@),
        frame_kind_of("TPOS"@, false) == FrameKind::Disc,
{
    reveal_strlit("TIT2");
    reveal_strlit("TT2");
    reveal_strlit("TALB");
    reveal_strlit("TAL");
    reveal_strlit("TPE1");
    reveal_strlit("TP1");
    reveal_strlit("TPE2");
    reveal_strlit("TP2");
    reveal_strlit("TCOM");
    reveal_strlit("TCM");
    reveal_strlit("TIT1");
    reveal_strlit("TT1");
    reveal_strlit("TCON");
    reveal_strlit("TCO");
    reveal_strlit("TDRC");
    reveal_strlit("TYER");
    reveal_strlit("TYE");
    reveal_strlit("TDAT");
    reveal_strlit("TDA");
    reveal_strlit("TIME");
    reveal_strlit("TIM");
    reveal_strlit("TRCK");
    reveal_strlit("TRK");
    reveal_strlit("TPOS");
    reveal_strlit("TPA");
    reveal_strlit("TBPM");
    reveal_strlit("TBP");
    reveal_strlit("TCMP");
    reveal_strlit("TCP");
    reveal_strlit("COMM");
    reveal_strlit("COM");
    reveal_strlit("TSOT");
    reveal_strlit("TST");
    reveal_strlit("TSOA");
    reveal_strlit("TSA");
    reveal_strlit("TSOP");
    reveal_strlit("TSP");
    reveal_strlit("TSO2");
    reveal_strlit("TS2");
    reveal_strlit("TSOC");
    reveal_strlit("TSC");
    reveal_strlit("APIC");
    reveal_strlit("PIC");
    let id = "TPOS"@;
    assert(id.len() == 4);
    assert(is_id_char(id[0]) && is_id_char(id[1]) && is_id_char(id[2]) && is_id_char(id[3]));
}

/// `TBPM` is the id of a frame, of the kind that it is written for.
pub proof fn lemma_id_of_tempo()
    ensures
        is_frame_id("TBPM"@),
        frame_kind_of("TBPM"@, false) == FrameKind::Bpm,
{
    reveal_strlit("TIT2");
    reveal_strlit("TT2");
    reveal_strlit("TALB");
    reveal_strlit("TAL");
    reveal_strlit("TPE1");
    reveal_strlit("TP1");
    reveal_strlit("TPE2");
    reveal_strlit("TP2");
    reveal_strlit("TCOM");
    reveal_strlit("TCM");
    reveal_strlit("TIT1");
    reveal_strlit("TT1");
    reveal_strlit("TCON");
    reveal_strlit("TCO");
    reveal_strlit("TDRC");
    reveal_strlit("TYER");
    reveal_strlit("TYE");
    reveal_strlit("TDAT");
    reveal_strlit("TDA");
    reveal_strlit("TIME");
    reveal_strlit("TIM");
    reveal_strlit("TRCK");
    reveal_strlit("TRK");
    reveal_strlit("TPOS");
    reveal_strlit("TPA");
    reveal_strlit("TBPM");
    reveal_strlit("TBP");
    reveal_strlit("TCMP");
    reveal_strlit("TCP");
    reveal_strlit("COMM");
    reveal_strlit("COM");
    reveal_strlit("TSOT");
    reveal_strlit("TST");
    reveal_strlit("TSOA");
    reveal_strlit("TSA");
    reveal_strlit("TSOP");
    reveal_strlit("TSP");
    reveal_strlit("TSO2");
    reveal_strlit("TS2");
    reveal_strlit("TSOC");
    reveal_strlit("TSC");
    reveal_strlit("APIC");
    reveal_strlit("PIC");
    let id = "TBPM"@;
    assert(id.len() == 4);
    assert(is_id_char(id[0]) && is_id_char(id[1]) && is_id_char(id[2]) && is_id_char(id[3]));
}

/// `TCMP` is the id of a frame, of the kind that it is written for.
pub proof fn lemma_id_of_compilation()
    ensures
        is_frame_id("TCMP"@),
        frame_kind_of("TCMP"@, false) == FrameKind::Compilation,
{
    reveal_strlit("TIT2");
    reveal_strlit("TT2");
    reveal_strlit("TALB");
    reveal_strlit("TAL");
    reveal_strlit("TPE1");
    reveal_strlit("TP1");
    reveal_strlit("TPE2");
    reveal_strlit("TP2");
    reveal_strlit("TCOM");
    reveal_strlit("TCM");
    reveal_strlit("TIT1");
    reveal_strlit("TT1");
    reveal_strlit("TCON");
    reveal_strlit("TCO");
    reveal_strlit("TDRC");
    reveal_strlit("TYER");
    reveal_strlit("TYE");
    reveal_strlit("TDAT");
    reveal_strlit("TDA");
    reveal_strlit("TIME");
    reveal_strlit("TIM");
    reveal_strlit("TRCK");
    reveal_strlit("TRK");
    reveal_strlit("TPOS");
    reveal_strlit("TPA");
    reveal_strlit("TBPM");
    reveal_strlit("TBP");
    reveal_strlit("TCMP");
    reveal_strlit("TCP");
    reveal_strlit("COMM");
    reveal_strlit("COM");
    reveal_strlit("TSOT");
    reveal_strlit("TST");
    reveal_strlit("TSOA");
    reveal_strlit("TSA");
    reveal_strlit("TSOP");
    reveal_strlit("TSP");
    reveal_strlit("TSO2");
    reveal_strlit("TS2");
    reveal_strlit("TSOC");
    reveal_strlit("TSC");
    reveal_strlit("APIC");
    reveal_strlit("PIC");
    let id = "TCMP"@;
    assert(id.len() == 4);
    assert(is_id_char(id[0]) && is_id_char(id[1]) && is_id_char(id[2]) && is_id_char(id[3]));
}

/// `TSOT` is the id of a frame, of the kind that it is written for.
pub proof fn lemma_id_of_sort_title()
    ensures
        is_frame_id("TSOT"@),
        frame_kind_of("TSOT"@, false) == FrameKind::SortTitle,
{
    reveal_strlit("TIT2");
    reveal_strlit("TT2");
    reveal_strlit("TALB");
    reveal_strlit("TAL");
    reveal_strlit("TPE1");
    reveal_strlit("TP1");
    reveal_strlit("TPE2");
    reveal_strlit("TP2");
    reveal_strlit("TCOM");
    reveal_strlit("TCM");
    reveal_strlit("TIT1");
    reveal_strlit("TT1");
    reveal_strlit("TCON");
    reveal_strlit("TCO");
    reveal_strlit("TDRC");
    reveal_strlit("TYER");
    reveal_strlit("TYE");
    reveal_strlit("TDAT");
    reveal_strlit("TDA");
    reveal_strlit("TIME");
    reveal_strlit("TIM");
    reveal_strlit("TRCK");
    reveal_strlit("TRK");
    reveal_strlit("TPOS");
    reveal_strlit("TPA");
    reveal_strlit("TBPM");
    reveal_strlit("TBP");
    reveal_strlit("TCMP");
    reveal_strlit("TCP");
    reveal_strlit("COMM");
    reveal_strlit("COM");
    reveal_strlit("TSOT");
    reveal_strlit("TST");
    reveal_strlit("TSOA");
    reveal_strlit("TSA");
    reveal_strlit("TSOP");
    reveal_strlit("TSP");
    reveal_strlit("TSO2");
    reveal_strlit("TS2");
    reveal_strlit("TSOC");
    reveal_strlit("TSC");
    reveal_strlit("APIC");
    reveal_strlit("PIC");
    let id = "TSOT"@;
    assert(id.len() == 4);
    assert(is_id_char(id[0]) && is_id_char(id[1]) && is_id_char(id[2]) && is_id_char(id[3]));
}

/// `TSOP` is the id of a frame, of the kind that it is written for.
pub proof fn lemma_id_of_sort_artist()
    ensures
        is_frame_id("TSOP"@),
        frame_kind_of("TSOP"@, false) == FrameKind::SortArtist,
{
    reveal_strlit("TIT2");
    reveal_strlit("TT2");
    reveal_strlit("TALB");
    reveal_strlit("TAL");
    reveal_strlit("TPE1");
    reveal_strlit("TP1");
    reveal_strlit("TPE2");
    reveal_strlit("TP2");
    reveal_strlit("TCOM");
    reveal_strlit("TCM");
    reveal_strlit("TIT1");
    reveal_strlit("TT1");
    reveal_strlit("TCON");
    reveal_strlit("TCO");
    reveal_strlit("TDRC");
    reveal_strlit("TYER");
    reveal_strlit("TYE");
    reveal_strlit("TDAT");
    reveal_strlit("TDA");
    reveal_strlit("TIME");
    reveal_strlit("TIM");
    reveal_strlit("TRCK");
    reveal_strlit("TRK");
    reveal_strlit("TPOS");
    reveal_strlit("TPA");
    reveal_strlit("TBPM");
    reveal_strlit("TBP");
    reveal_strlit("TCMP");
    reveal_strlit("TCP");
    reveal_strlit("COMM");
    reveal_strlit("COM");
    reveal_strlit("TSOT");
    reveal_strlit("TST");
    reveal_strlit("TSOA");
    reveal_strlit("TSA");
    reveal_strlit("TSOP");
    reveal_strlit("TSP");
    reveal_strlit("TSO2");
    reveal_strlit("TS2");
    reveal_strlit("TSOC");
    reveal_strlit("TSC");
    reveal_strlit("APIC");
    reveal_strlit("PIC");
    let id = "TSOP"@;
    assert(id.len() == 4);
    assert(is_id_char(id[0]) && is_id_char(id[1]) && is_id_char(id[2]) && is_id_char(id[3]));
}

/// `TSOA` is the id of a frame, of the kind that it is written for.
pub proof fn lemma_id_of_sort_album()
    ensures
        is_frame_id("TSOA"@),
        frame_kind_of("TSOA"@, false) == FrameKind::SortAlbum,
{
    reveal_strlit("TIT2");
    reveal_strlit("TT2");
    reveal_strlit("TALB");
    reveal_strlit("TAL");
    reveal_strlit("TPE1");
    reveal_strlit("TP1");
    reveal_strlit("TPE2");
    reveal_strlit("TP2");
    reveal_strlit("TCOM");
    reveal_strlit("TCM");
    reveal_strlit("TIT1");
    reveal_strlit("TT1");
    reveal_strlit("TCON");
    reveal_strlit("TCO");
    reveal_strlit("TDRC");
    reveal_strlit("TYER");
    reveal_strlit("TYE");
    reveal_strlit("TDAT");
    reveal_strlit("TDA");
    reveal_strlit("TIME");
    reveal_strlit("TIM");
    reveal_strlit("TRCK");
    reveal_strlit("TRK");
    reveal_strlit("TPOS");
    reveal_strlit("TPA");
    reveal_strlit("TBPM");
    reveal_strlit("TBP");
    reveal_strlit("TCMP");
    reveal_strlit("TCP");
    reveal_strlit("COMM");
    reveal_strlit("COM");
    reveal_strlit("TSOT");
    reveal_strlit("TST");
    reveal_strlit("TSOA");
    reveal_strlit("TSA");
    reveal_strlit("TSOP");
    reveal_strlit("TSP");
    reveal_strlit("TSO2");
    reveal_strlit("TS2");
    reveal_strlit("TSOC");
    reveal_strlit("TSC");
    reveal_strlit("APIC");
    reveal_strlit("PIC");
    let id = "TSOA"@;
    assert(id.len() == 4);
    assert(is_id_char(id[0]) && is_id_char(id[1]) && is_id_char(id[2]) && is_id_char(id[3]));
}

/// `TSO2` is the id of a frame, of the kind that it is written for.
pub proof fn lemma_id_of_sort_album_artist()
    ensures
        is_frame_id("TSO2"@),
        frame_kind_of("TSO2"@, false) == FrameKind::SortAlbumArtist,
{
    reveal_strlit("TIT2");
    reveal_strlit("TT2");
    reveal_strlit("TALB");
    reveal_strlit("TAL");
    reveal_strlit("TPE1");
    reveal_strlit("TP1");
    reveal_strlit("TPE2");
    reveal_strlit("TP2");
    reveal_strlit("TCOM");
    reveal_strlit("TCM");
    reveal_strlit("TIT1");
    reveal_strlit("TT1");
    reveal_strlit("TCON");
    reveal_strlit("TCO");
    reveal_strlit("TDRC");
    reveal_strlit("TYER");
    reveal_strlit("TYE");
    reveal_strlit("TDAT");
    reveal_strlit("TDA");
    reveal_strlit("TIME");
    reveal_strlit("TIM");
    reveal_strlit("TRCK");
    reveal_strlit("TRK");
    reveal_strlit("TPOS");
    reveal_strlit("TPA");
    reveal_strlit("TBPM");
    reveal_strlit("TBP");
    reveal_strlit("TCMP");
    reveal_strlit("TCP");
    reveal_strlit("COMM");
    reveal_strlit("COM");
    reveal_strlit("TSOT");
    reveal_strlit("TST");
    reveal_strlit("TSOA");
    reveal_strlit("TSA");
    reveal_strlit("TSOP");
    reveal_strlit("TSP");
    reveal_strlit("TSO2");
    reveal_strlit("TS2");
    reveal_strlit("TSOC");
    reveal_strlit("TSC");
    reveal_strlit("APIC");
    reveal_strlit("PIC");
    let id = "TSO2"@;
    assert(id.len() == 4);
    assert(is_id_char(id[0]) && is_id_char(id[1]) && is_id_char(id[2]) && is_id_char(id[3]));
}

/// `TSOC` is the id of a frame, of the kind that it is written for.
pub proof fn lemma_id_of_sort_composer()
    ensures
        is_frame_id("TSOC"@),
        frame_kind_of("TSOC"@, false) == FrameKind::SortComposer,
{
    reveal_strlit("TIT2");
    reveal_strlit("TT2");
    reveal_strlit("TALB");
    reveal_strlit("TAL");
    reveal_strlit("TPE1");
    reveal_strlit("TP1");
    reveal_strlit("TPE2");
    reveal_strlit("TP2");
    reveal_strlit("TCOM");
    reveal_strlit("TCM");
    reveal_strlit("TIT1");
    reveal_strlit("TT1");
    reveal_strlit("TCON");
    reveal_strlit("TCO");
    reveal_strlit("TDRC");
    reveal_strlit("TYER");
    reveal_strlit("TYE");
    reveal_strlit("TDAT");
    reveal_strlit("TDA");
    reveal_strlit("TIME");
    reveal_strlit("TIM");
    reveal_strlit("TRCK");
    reveal_strlit("TRK");
    reveal_strlit("TPOS");
    reveal_strlit("TPA");
    reveal_strlit("TBPM");
    reveal_strlit("TBP");
    reveal_strlit("TCMP");
    reveal_strlit("TCP");
    reveal_strlit("COMM");
    reveal_strlit("COM");
    reveal_strlit("TSOT");
    reveal_strlit("TST");
    reveal_strlit("TSOA");
    reveal_strlit("TSA");
    reveal_strlit("TSOP");
    reveal_strlit("TSP");
    reveal_strlit("TSO2");
    reveal_strlit("TS2");
    reveal_strlit("TSOC");
    reveal_strlit("TSC");
    reveal_strlit("APIC");
    reveal_strlit("PIC");
    let id = "TSOC"@;
    assert(id.len() == 4);
    assert(is_id_char(id[0]) && is_id_char(id[1]) && is_id_char(id[2]) && is_id_char(id[3]));
}

/// `COMM` is the id of a frame, of the kind that it is written for.
pub proof fn lemma_id_of_comment()
    ensures
        is_frame_id("COMM"@),
        frame_kind_of("COMM"@, false) == FrameKind::Comment,
{
    reveal_strlit("TIT2");
    reveal_strlit("TT2");
    reveal_strlit("TALB");
    reveal_strlit("TAL");
    reveal_strlit("TPE1");
    reveal_strlit("TP1");
    reveal_strlit("TPE2");
    reveal_strlit("TP2");
    reveal_strlit("TCOM");
    reveal_strlit("TCM");
    reveal_strlit("TIT1");
    reveal_strlit("TT1");
    reveal_strlit("TCON");
    reveal_strlit("TCO");
    reveal_strlit("TDRC");
    reveal_strlit("TYER");
    reveal_strlit("TYE");
    reveal_strlit("TDAT");
    reveal_strlit("TDA");
    reveal_strlit("TIME");
    reveal_strlit("TIM");
    reveal_strlit("TRCK");
    reveal_strlit("TRK");
    reveal_strlit("TPOS");
    reveal_strlit("TPA");
    reveal_strlit("TBPM");
    reveal_strlit("TBP");
    reveal_strlit("TCMP");
    reveal_strlit("TCP");
    reveal_strlit("COMM");
    reveal_strlit("COM");
    reveal_strlit("TSOT");
    reveal_strlit("TST");
    reveal_strlit("TSOA");
    reveal_strlit("TSA");
    reveal_strlit("TSOP");
    reveal_strlit("TSP");
    reveal_strlit("TSO2");
    reveal_strlit("TS2");
    reveal_strlit("TSOC");
    reveal_strlit("TSC");
    reveal_strlit("APIC");
    reveal_strlit("PIC");
    let id = "COMM"@;
    assert(id.len() == 4);
    assert(is_id_char(id[0]) && is_id_char(id[1]) && is_id_char(id[2]) && is_id_char(id[3]));
}

/// `APIC` is the id of a frame, of the kind that it is written for.
pub proof fn lemma_id_of_picture()
    ensures
        is_frame_id("APIC"@),
        frame_kind_of("APIC"@, false) == FrameKind::Picture,
{
    reveal_strlit("TIT2");
    reveal_strlit("TT2");
    reveal_strlit("TALB");
    reveal_strlit("TAL");
    reveal_strlit("TPE1");
    reveal_strlit("TP1");
    reveal_strlit("TPE2");
    reveal_strlit("TP2");
    reveal_strlit("TCOM");
    reveal_strlit("TCM");
    reveal_strlit("TIT1");
    reveal_strlit("TT1");
    reveal_strlit("TCON");
    reveal_strlit("TCO");
    reveal_strlit("TDRC");
    reveal_strlit("TYER");
    reveal_strlit("TYE");
    reveal_strlit("TDAT");
    reveal_strlit("TDA");
    reveal_strlit("TIME");
    reveal_strlit("TIM");
    reveal_strlit("TRCK");
    reveal_strlit("TRK");
    reveal_strlit("TPOS");
    reveal_strlit("TPA");
    reveal_strlit("TBPM");
    reveal_strlit("TBP");
    reveal_strlit("TCMP");
    reveal_strlit("TCP");
    reveal_strlit("COMM");
    reveal_strlit("COM");
    reveal_strlit("TSOT");
    reveal_strlit("TST");
    reveal_strlit("TSOA");
    reveal_strlit("TSA");
    reveal_strlit("TSOP");
    reveal_strlit("TSP");
    reveal_strlit("TSO2");
    reveal_strlit("TS2");
    reveal_strlit("TSOC");
    reveal_strlit("TSC");
    reveal_strlit("APIC");
    reveal_strlit("PIC");
    let id = "APIC"@;
    assert(id.len() == 4);
    assert(is_id_char(id[0]) && is_id_char(id[1]) && is_id_char(id[2]) && is_id_char(id[3]));
}

/// Whether `x` is what `data` holds behind the ten bytes of its header.
pub open spec fn stands_in(x: Seq<u8>, data: Seq<u8>) -> bool {
    10 + x.len() <= data.len() && data.subrange(10, 10 + x.len() as int) == x
}

/// What stands in the data with something behind it stands in the data.
pub proof fn lemma_stands_in(a: Seq<u8>, f: Seq<u8>, data: Seq<u8>)
    requires
        stands_in(a + f, data),
    ensures
        stands_in(a, data),
        data.subrange(10 + a.len() as int, 10 + a.len() as int + f.len() as int) == f,
{
    let whole = data.subrange(10, 10 + (a + f).len() as int);
    assert(data.subrange(10, 10 + a.len() as int) =~= a) by {
        assert forall|i: int| 0 <= i < a.len() implies data[10 + i] == a[i] by {
            assert(whole[i] == (a + f)[i]);
        }
    }
    assert(data.subrange(10 + a.len() as int, 10 + a.len() as int + f.len() as int) =~= f) by {
        assert forall|i: int| 0 <= i < f.len() implies data[10 + a.len() + i] == f[i] by {
            assert(whole[a.len() + i] == (a + f)[a.len() + i]);
        }
    }
}

/// Whether the scan of the frames of `data` comes, behind the frames
/// `before`, to what `scan` holds.
#[verifier::opaque]
pub open spec fn scanned(data: Seq<u8>, limit: int, before: Seq<u8>, scan: ScanView) -> bool {
    frames_scanned(data, 10, limit, 4, false, ScanView::start()) == frames_scanned(
        data,
        10 + before.len() as int,
        limit,
        4,
        false,
        scan,
    )
}

/// Whether a frame of the kind is read as text.
pub open spec fn reads_text(kind: FrameKind) -> bool {
    !(kind is Other) && !(kind is Picture) && !(kind is PictureV2) && !(kind is Comment)
}

/// The scan passes over a written frame of text and collects the text.
pub proof fn lemma_text_frame_scanned(
    data: Seq<u8>,
    limit: int,
    before: Seq<u8>,
    scan: ScanView,
    id: Seq<char>,
    kind: FrameKind,
    payload: Option<Seq<u8>>,
    text: Seq<char>,
)
    requires
        is_frame_id(id),
        frame_kind_of(id, false) == kind,
        reads_text(kind),
        opt_fits(payload),
        payload is Some ==> frame_text(payload->0) == text,
        stands_in(before + opt_frame(id, payload), data),
        10 + (before + opt_frame(id, payload)).len() <= limit + 5,
        scanned(data, limit, before, scan),
    ensures
        scanned(
            data,
            limit,
            before + opt_frame(id, payload),
            if payload is Some {
                with_text(scan, kind, text)
            } else {
                scan
            },
        ),
{
    reveal(scanned);
    match payload {
        None => {
            assert(before + opt_frame(id, payload) =~= before);
        },
        Some(p) => {
            let at = 10 + before.len() as int;
            lemma_frame_id_bytes(id);
            assert(frame(id, p).len() == 10 + p.len());
            lemma_stands_in(before, frame(id, p), data);
            lemma_frame_found(data, at, id, p);
            let next = frame_read(data, at + 10, scan, p.len() as u32, kind, false);
            assert(next == (with_text(scan, kind, text), at + 10 + p.len()));
        },
    }
}

/// The scan passes over a written comment frame and collects the comment.
pub proof fn lemma_comment_frame_scanned(
    data: Seq<u8>,
    limit: int,
    before: Seq<u8>,
    scan: ScanView,
    field: TagOption<Seq<char>>,
)
    requires
        !(field is Mixed),
        field is Present ==> no_nul(field->Present_0),
        opt_fits(comment_payload(field)),
        stands_in(before + opt_frame("COMM"@, comment_payload(field)), data),
        10 + (before + opt_frame("COMM"@, comment_payload(field))).len() <= limit + 5,
        scanned(data, limit, before, scan),
    ensures
        scanned(
            data,
            limit,
            before + opt_frame("COMM"@, comment_payload(field)),
            if field is Present {
                with_text(scan, FrameKind::Comment, field->Present_0)
            } else {
                scan
            },
        ),
{
    reveal(scanned);
    lemma_id_of_comment();
    match field {
        TagOption::Present(text) => {
            let p = comment_payload(field)->0;
            let at = 10 + before.len() as int;
            lemma_frame_id_bytes("COMM"@);
            assert(frame("COMM"@, p).len() == 10 + p.len());
            lemma_stands_in(before, frame("COMM"@, p), data);
            lemma_frame_found(data, at, "COMM"@, p);
            lemma_comment_payload(data, at + 10, text);
            let next = frame_read(data, at + 10, scan, p.len() as u32, FrameKind::Comment, false);
            assert(next == (with_text(scan, FrameKind::Comment, text), at + 10 + p.len()));
        },
        _ => {
            assert(before + opt_frame("COMM"@, comment_payload(field)) =~= before);
        },
    }
}

/// The scan passes over a written picture frame and collects the cover.
pub proof fn lemma_picture_frame_scanned(
    data: Seq<u8>,
    limit: int,
    before: Seq<u8>,
    scan: ScanView,
    field: TagOption<ImageView>,
)
    requires
        !(field is Mixed),
        field is Present ==> storable_cover(field->Present_0),
        opt_fits(picture_payload(field)),
        stands_in(before + opt_frame("APIC"@, picture_payload(field)), data),
        10 + (before + opt_frame("APIC"@, picture_payload(field))).len() <= limit + 5,
        scanned(data, limit, before, scan),
    ensures
        scanned(
            data,
            limit,
            before + opt_frame("APIC"@, picture_payload(field)),
            if field is Present {
                with_picture(scan, field->Present_0, 3)
            } else {
                scan
            },
        ),
{
    reveal(scanned);
    lemma_id_of_picture();
    match field {
        TagOption::Present(image) => {
            let p = picture_payload(field)->0;
            let at = 10 + before.len() as int;
            lemma_frame_id_bytes("APIC"@);
            assert(frame("APIC"@, p).len() == 10 + p.len());
            lemma_stands_in(before, frame("APIC"@, p), data);
            lemma_frame_found(data, at, "APIC"@, p);
            lemma_picture_payload(data, at + 10, image);
            let next = frame_read(data, at + 10, scan, p.len() as u32, FrameKind::Picture, false);
            assert(next == (with_picture(scan, image, 3), at + 10 + p.len()));
        },
        _ => {
            assert(before + opt_frame("APIC"@, picture_payload(field)) =~= before);
        },
    }
}

/// Whether a text can be written and read back: it holds no NUL.
pub open spec fn storable_text(field: TagOption<Seq<char>>) -> bool {
    match field {
        TagOption::Present(s) => no_nul(s),
        TagOption::Mixed => false,
        TagOption::Absent => true,
    }
}

/// Whether a number of a track or disc can be written and read back: it is
/// one or more.
pub open spec fn storable_number(field: TagOption<i64>) -> bool {
    match field {
        TagOption::Present(n) => n >= 1,
        TagOption::Mixed => false,
        TagOption::Absent => true,
    }
}

/// Whether a date can be written and read back: its parts follow one
/// another from the year on, each in its digits.
pub open spec fn storable_date(field: TagOption<DateTime>) -> bool {
    match field {
        TagOption::Present(d) => d.well_formed() && d.year is Some,
        TagOption::Mixed => false,
        TagOption::Absent => true,
    }
}

/// Whether the tags can be written as a tag and read back as they are: no
/// field is `Mixed`; no text holds a NUL; the numbers of track and disc
/// are one or more, and a total comes with its number; a compilation is
/// marked or not spoken of; the cover is an image, and as a PNG starts as
/// PNG files do; there is no rating.
pub open spec fn storable(t: TagsView) -> bool {
    &&& storable_text(t.title)
    &&& storable_text(t.album)
    &&& storable_text(t.artist)
    &&& storable_text(t.album_artist)
    &&& storable_text(t.composer)
    &&& storable_text(t.grouping)
    &&& storable_text(t.genre)
    &&& storable_date(t.date)
    &&& storable_number(t.track_number)
    &&& storable_number(t.track_total)
    &&& storable_number(t.disc_number)
    &&& storable_number(t.disc_total)
    &&& (t.track_total is Present ==> t.track_number is Present)
    &&& (t.disc_total is Present ==> t.disc_number is Present)
    &&& !(t.bpm is Mixed)
    &&& (t.is_compilation is Absent || t.is_compilation == TagOption::Present(true))
    &&& storable_text(t.comment)
    &&& storable_text(t.sort_title)
    &&& storable_text(t.sort_album)
    &&& storable_text(t.sort_artist)
    &&& storable_text(t.sort_album_artist)
    &&& storable_text(t.sort_composer)
    &&& match t.front_cover {
        TagOption::Present(image) => storable_cover(image),
        TagOption::Mixed => false,
        TagOption::Absent => true,
    }
    &&& t.rating is Absent
}

/// Number and total are read from their text as they were written.
pub proof fn lemma_pair_read(number: TagOption<i64>, total: TagOption<i64>)
    requires
        storable_number(number),
        storable_number(total),
        number is Present,
    ensures
        with_number(TagOption::Absent, track_parts(pair_text(number, total)).0) == number,
        with_number(TagOption::Absent, track_parts(pair_text(number, total)).1) == total,
{
    let n: i64 = number->Present_0;
    let head = decimal(n as nat);
    lemma_decimal(n as nat);
    lemma_parse_decimal(n);
    let s = pair_text(number, total);
    match total {
        TagOption::Present(m) => {
            let tail = decimal(m as nat);
            lemma_decimal(m as nat);
            lemma_parse_decimal(m);
            let a = head.len() as int;
            assert(s =~= head + seq!['/'] + tail);
            assert(s[a] == '/');
            assert forall|i: int| 0 <= i < a implies is_digit(#[trigger] s[i]) by {
                assert(s[i] == head[i]);
            }
            lemma_digits_end(s, 0, a);
            assert forall|i: int| a + 1 <= i < s.len() implies is_digit(#[trigger] s[i]) by {
                assert(s[i] == tail[i - a - 1]);
            }
            lemma_digits_end(s, a + 1, s.len() as int);
            assert(s[a + 1] == tail[0]);
            lemma_zeros_end(s, a + 1, s.len() as int);
            assert(s.subrange(a + 1, s.len() as int) =~= tail);
            assert(s[0] == head[0]);
            lemma_zeros_end(s, 0, a);
            assert(s.subrange(0, a) =~= head);
        },
        _ => {
            assert(s == head);
            lemma_digits_end(s, 0, s.len() as int);
            lemma_zeros_end(s, 0, s.len() as int);
            assert(s.subrange(0, s.len() as int) =~= s);
        },
    }
}

/// The field after a frame was read, if one was written for `new`.
pub open spec fn picked<T>(new: TagOption<T>, old: TagOption<T>) -> TagOption<T> {
    if new is Present {
        new
    } else {
        old
    }
}

/// A number in digits holds no NUL.
pub proof fn lemma_decimal_no_nul(n: int)
    ensures
        no_nul(decimal_int(n)),
{
    crate::tools::text::lemma_decimal_lacks(n, '\0');
}

/// The text of number and total holds no NUL.
pub proof fn lemma_pair_no_nul(number: TagOption<i64>, total: TagOption<i64>)
    ensures
        no_nul(pair_text(number, total)),
{
    let n: int = match number {
        TagOption::Present(n) => n as int,
        _ => 0,
    };
    lemma_decimal_no_nul(n);
    let s = pair_text(number, total);
    match total {
        TagOption::Present(m) if number is Present => {
            lemma_decimal_no_nul(m as int);
            let head = decimal_int(n);
            let tail = decimal_int(m as int);
            assert(s =~= head + seq!['/'] + tail);
            assert forall|i: int| 0 <= i < s.len() implies #[trigger] s[i] != '\0' by {
                if i < head.len() {
                    assert(s[i] == head[i]);
                } else if i > head.len() {
                    assert(s[i] == tail[i - head.len() - 1]);
                }
            }
        },
        _ => {},
    }
}

/// The text of a well-formed date holds no NUL.
pub proof fn lemma_date_no_nul(d: DateTime)
    requires
        d.well_formed(),
        d.year is Some,
    ensures
        no_nul(iso_8601_text(d)),
{
    crate::types::datetime::lemma_date_lacks(d, '\0');
}

/// The scan after the frames of the names.
pub open spec fn scan_text(scan: ScanView, t: TagsView) -> ScanView {
    ScanView {
        tags: TagsView {
            title: picked(t.title, scan.tags.title),
            artist: picked(t.artist, scan.tags.artist),
            album: picked(t.album, scan.tags.album),
            album_artist: picked(t.album_artist, scan.tags.album_artist),
            composer: picked(t.composer, scan.tags.composer),
            grouping: picked(t.grouping, scan.tags.grouping),
            genre: picked(t.genre, scan.tags.genre),
            ..scan.tags
        },
        ..scan
    }
}

/// The scan passes over these frames and collects what they hold.
#[verifier::rlimit(50)]
pub proof fn lemma_text_frames_scanned(
    data: Seq<u8>,
    limit: int,
    before: Seq<u8>,
    scan: ScanView,
    t: TagsView,
)
    requires
        storable(t),
        text_frames_fit(t),
        stands_in(text_frames(before, t), data),
        10 + text_frames(before, t).len() <= limit + 5,
        scanned(data, limit, before, scan),
    ensures
        scanned(data, limit, text_frames(before, t), scan_text(scan, t)),
        stands_in(before, data),
{
    let a0 = before;
    let s0 = scan;
    let a1 = a0 + opt_frame("TIT2"@, field_payload(t.title));
    let a2 = a1 + opt_frame("TPE1"@, field_payload(t.artist));
    let a3 = a2 + opt_frame("TALB"@, field_payload(t.album));
    let a4 = a3 + opt_frame("TPE2"@, field_payload(t.album_artist));
    let a5 = a4 + opt_frame("TCOM"@, field_payload(t.composer));
    let a6 = a5 + opt_frame("TIT1"@, field_payload(t.grouping));
    let a7 = a6 + opt_frame("TCON"@, field_payload(t.genre));
    assert(a7 == text_frames(before, t));
    lemma_stands_in(a6, opt_frame("TCON"@, field_payload(t.genre)), data);
    lemma_stands_in(a5, opt_frame("TIT1"@, field_payload(t.grouping)), data);
    lemma_stands_in(a4, opt_frame("TCOM"@, field_payload(t.composer)), data);
    lemma_stands_in(a3, opt_frame("TPE2"@, field_payload(t.album_artist)), data);
    lemma_stands_in(a2, opt_frame("TALB"@, field_payload(t.album)), data);
    lemma_stands_in(a1, opt_frame("TPE1"@, field_payload(t.artist)), data);
    lemma_stands_in(a0, opt_frame("TIT2"@, field_payload(t.title)), data);
    lemma_id_of_title();
    if t.title is Present {
        lemma_text_payload(t.title->Present_0);
    }
    lemma_text_frame_scanned(data, limit, a0, s0, "TIT2"@, FrameKind::Title, field_payload(t.title),
        t.title->Present_0);
    let s1 = if field_payload(t.title) is Some {
        with_text(s0, FrameKind::Title, t.title->Present_0)
    } else {
        s0
    };
    lemma_id_of_artist();
    if t.artist is Present {
        lemma_text_payload(t.artist->Present_0);
    }
    lemma_text_frame_scanned(data, limit, a1, s1, "TPE1"@, FrameKind::Artist,
        field_payload(t.artist), t.artist->Present_0);
    let s2 = if field_payload(t.artist) is Some {
        with_text(s1, FrameKind::Artist, t.artist->Present_0)
    } else {
        s1
    };
    lemma_id_of_album();
    if t.album is Present {
        lemma_text_payload(t.album->Present_0);
    }
    lemma_text_frame_scanned(data, limit, a2, s2, "TALB"@, FrameKind::Album, field_payload(t.album),
        t.album->Present_0);
    let s3 = if field_payload(t.album) is Some {
        with_text(s2, FrameKind::Album, t.album->Present_0)
    } else {
        s2
    };
    lemma_id_of_album_artist();
    if t.album_artist is Present {
        lemma_text_payload(t.album_artist->Present_0);
    }
    lemma_text_frame_scanned(data, limit, a3, s3, "TPE2"@, FrameKind::AlbumArtist,
        field_payload(t.album_artist), t.album_artist->Present_0);
    let s4 = if field_payload(t.album_artist) is Some {
        with_text(s3, FrameKind::AlbumArtist, t.album_artist->Present_0)
    } else {
        s3
    };
    lemma_id_of_composer();
    if t.composer is Present {
        lemma_text_payload(t.composer->Present_0);
    }
    lemma_text_frame_scanned(data, limit, a4, s4, "TCOM"@, FrameKind::Composer,
        field_payload(t.composer), t.composer->Present_0);
    let s5 = if field_payload(t.composer) is Some {
        with_text(s4, FrameKind::Composer, t.composer->Present_0)
    } else {
        s4
    };
    lemma_id_of_grouping();
    if t.grouping is Present {
        lemma_text_payload(t.grouping->Present_0);
    }
    lemma_text_frame_scanned(data, limit, a5, s5, "TIT1"@, FrameKind::Grouping,
        field_payload(t.grouping), t.grouping->Present_0);
    let s6 = if field_payload(t.grouping) is Some {
        with_text(s5, FrameKind::Grouping, t.grouping->Present_0)
    } else {
        s5
    };
    lemma_id_of_genre();
    if t.genre is Present {
        lemma_text_payload(t.genre->Present_0);
    }
    lemma_text_frame_scanned(data, limit, a6, s6, "TCON"@, FrameKind::Genre, field_payload(t.genre),
        t.genre->Present_0);
    let s7 = if field_payload(t.genre) is Some {
        with_text(s6, FrameKind::Genre, t.genre->Present_0)
    } else {
        s6
    };
    assert(s7 == scan_text(scan, t));
}

/// The scan after the frames of the sort names.
pub open spec fn scan_sort(scan: ScanView, t: TagsView) -> ScanView {
    ScanView {
        tags: TagsView {
            sort_title: picked(t.sort_title, scan.tags.sort_title),
            sort_artist: picked(t.sort_artist, scan.tags.sort_artist),
            sort_album: picked(t.sort_album, scan.tags.sort_album),
            sort_album_artist: picked(t.sort_album_artist, scan.tags.sort_album_artist),
            sort_composer: picked(t.sort_composer, scan.tags.sort_composer),
            ..scan.tags
        },
        ..scan
    }
}

/// The scan passes over these frames and collects what they hold.
#[verifier::rlimit(50)]
pub proof fn lemma_sort_frames_scanned(
    data: Seq<u8>,
    limit: int,
    before: Seq<u8>,
    scan: ScanView,
    t: TagsView,
)
    requires
        storable(t),
        sort_frames_fit(t),
        stands_in(sort_frames(before, t), data),
        10 + sort_frames(before, t).len() <= limit + 5,
        scanned(data, limit, before, scan),
    ensures
        scanned(data, limit, sort_frames(before, t), scan_sort(scan, t)),
        stands_in(before, data),
{
    let a0 = before;
    let s0 = scan;
    let a1 = a0 + opt_frame("TSOT"@, field_payload(t.sort_title));
    let a2 = a1 + opt_frame("TSOP"@, field_payload(t.sort_artist));
    let a3 = a2 + opt_frame("TSOA"@, field_payload(t.sort_album));
    let a4 = a3 + opt_frame("TSO2"@, field_payload(t.sort_album_artist));
    let a5 = a4 + opt_frame("TSOC"@, field_payload(t.sort_composer));
    assert(a5 == sort_frames(before, t));
    lemma_stands_in(a4, opt_frame("TSOC"@, field_payload(t.sort_composer)), data);
    lemma_stands_in(a3, opt_frame("TSO2"@, field_payload(t.sort_album_artist)), data);
    lemma_stands_in(a2, opt_frame("TSOA"@, field_payload(t.sort_album)), data);
    lemma_stands_in(a1, opt_frame("TSOP"@, field_payload(t.sort_artist)), data);
    lemma_stands_in(a0, opt_frame("TSOT"@, field_payload(t.sort_title)), data);
    lemma_id_of_sort_title();
    if t.sort_title is Present {
        lemma_text_payload(t.sort_title->Present_0);
    }
    lemma_text_frame_scanned(data, limit, a0, s0, "TSOT"@, FrameKind::SortTitle,
        field_payload(t.sort_title), t.sort_title->Present_0);
    let s1 = if field_payload(t.sort_title) is Some {
        with_text(s0, FrameKind::SortTitle, t.sort_title->Present_0)
    } else {
        s0
    };
    lemma_id_of_sort_artist();
    if t.sort_artist is Present {
        lemma_text_payload(t.sort_artist->Present_0);
    }
    lemma_text_frame_scanned(data, limit, a1, s1, "TSOP"@, FrameKind::SortArtist,
        field_payload(t.sort_artist), t.sort_artist->Present_0);
    let s2 = if field_payload(t.sort_artist) is Some {
        with_text(s1, FrameKind::SortArtist, t.sort_artist->Present_0)
    } else {
        s1
    };
    lemma_id_of_sort_album();
    if t.sort_album is Present {
        lemma_text_payload(t.sort_album->Present_0);
    }
    lemma_text_frame_scanned(data, limit, a2, s2, "TSOA"@, FrameKind::SortAlbum,
        field_payload(t.sort_album), t.sort_album->Present_0);
    let s3 = if field_payload(t.sort_album) is Some {
        with_text(s2, FrameKind::SortAlbum, t.sort_album->Present_0)
    } else {
        s2
    };
    lemma_id_of_sort_album_artist();
    if t.sort_album_artist is Present {
        lemma_text_payload(t.sort_album_artist->Present_0);
    }
    lemma_text_frame_scanned(data, limit, a3, s3, "TSO2"@, FrameKind::SortAlbumArtist,
        field_payload(t.sort_album_artist), t.sort_album_artist->Present_0);
    let s4 = if field_payload(t.sort_album_artist) is Some {
        with_text(s3, FrameKind::SortAlbumArtist, t.sort_album_artist->Present_0)
    } else {
        s3
    };
    lemma_id_of_sort_composer();
    if t.sort_composer is Present {
        lemma_text_payload(t.sort_composer->Present_0);
    }
    lemma_text_frame_scanned(data, limit, a4, s4, "TSOC"@, FrameKind::SortComposer,
        field_payload(t.sort_composer), t.sort_composer->Present_0);
    let s5 = if field_payload(t.sort_composer) is Some {
        with_text(s4, FrameKind::SortComposer, t.sort_composer->Present_0)
    } else {
        s4
    };
    assert(s5 == scan_sort(scan, t));
}

/// The scan after the frames of date, track, disc, tempo and compilation.
pub open spec fn scan_number(scan: ScanView, t: TagsView) -> ScanView {
    ScanView {
        date: if t.date is Present {
            iso_8601_text(t.date->Present_0)
        } else {
            scan.date
        },
        trck: if t.track_number is Present || t.track_total is Present {
            pair_text(t.track_number, t.track_total)
        } else {
            scan.trck
        },
        tpos: if t.disc_number is Present || t.disc_total is Present {
            pair_text(t.disc_number, t.disc_total)
        } else {
            scan.tpos
        },
        tags: TagsView {
            bpm: picked(t.bpm, scan.tags.bpm),
            is_compilation: picked(t.is_compilation, scan.tags.is_compilation),
            ..scan.tags
        },
        ..scan
    }
}

/// The scan passes over these frames and collects what they hold.
#[verifier::rlimit(50)]
pub proof fn lemma_number_frames_scanned(
    data: Seq<u8>,
    limit: int,
    before: Seq<u8>,
    scan: ScanView,
    t: TagsView,
)
    requires
        storable(t),
        number_frames_fit(t),
        stands_in(number_frames(before, t), data),
        10 + number_frames(before, t).len() <= limit + 5,
        scanned(data, limit, before, scan),
    ensures
        scanned(data, limit, number_frames(before, t), scan_number(scan, t)),
        stands_in(before, data),
{
    let a0 = before;
    let s0 = scan;
    let a1 = a0 + opt_frame("TDRC"@, date_payload(t.date));
    let a2 = a1 + opt_frame("TRCK"@, pair_payload(t.track_number, t.track_total));
    let a3 = a2 + opt_frame("TPOS"@, pair_payload(t.disc_number, t.disc_total));
    let a4 = a3 + opt_frame("TBPM"@, number_payload(t.bpm));
    let a5 = a4 + opt_frame("TCMP"@, compilation_payload(t.is_compilation));
    assert(a5 == number_frames(before, t));
    lemma_stands_in(a4, opt_frame("TCMP"@, compilation_payload(t.is_compilation)), data);
    lemma_stands_in(a3, opt_frame("TBPM"@, number_payload(t.bpm)), data);
    lemma_stands_in(a2, opt_frame("TPOS"@, pair_payload(t.disc_number, t.disc_total)), data);
    lemma_stands_in(a1, opt_frame("TRCK"@, pair_payload(t.track_number, t.track_total)), data);
    lemma_stands_in(a0, opt_frame("TDRC"@, date_payload(t.date)), data);
    lemma_id_of_date();
    if t.date is Present {
        lemma_date_no_nul(t.date->Present_0);
        lemma_text_payload(iso_8601_text(t.date->Present_0));
    }
    lemma_text_frame_scanned(data, limit, a0, s0, "TDRC"@, FrameKind::Date, date_payload(t.date),
        iso_8601_text(t.date->Present_0));
    let s1 = if date_payload(t.date) is Some {
        with_text(s0, FrameKind::Date, iso_8601_text(t.date->Present_0))
    } else {
        s0
    };
    lemma_id_of_track();
    lemma_pair_no_nul(t.track_number, t.track_total);
    lemma_text_payload(pair_text(t.track_number, t.track_total));
    lemma_text_frame_scanned(data, limit, a1, s1, "TRCK"@, FrameKind::Track,
        pair_payload(t.track_number, t.track_total), pair_text(t.track_number, t.track_total));
    let s2 = if pair_payload(t.track_number, t.track_total) is Some {
        with_text(s1, FrameKind::Track, pair_text(t.track_number, t.track_total))
    } else {
        s1
    };
    lemma_id_of_disc();
    lemma_pair_no_nul(t.disc_number, t.disc_total);
    lemma_text_payload(pair_text(t.disc_number, t.disc_total));
    lemma_text_frame_scanned(data, limit, a2, s2, "TPOS"@, FrameKind::Disc,
        pair_payload(t.disc_number, t.disc_total), pair_text(t.disc_number, t.disc_total));
    let s3 = if pair_payload(t.disc_number, t.disc_total) is Some {
        with_text(s2, FrameKind::Disc, pair_text(t.disc_number, t.disc_total))
    } else {
        s2
    };
    lemma_id_of_tempo();
    if t.bpm is Present {
        lemma_decimal_no_nul(t.bpm->Present_0 as int);
        lemma_text_payload(decimal_int(t.bpm->Present_0 as int));
        lemma_parse_decimal(t.bpm->Present_0);
    }
    lemma_text_frame_scanned(data, limit, a3, s3, "TBPM"@, FrameKind::Bpm, number_payload(t.bpm),
        decimal_int(t.bpm->Present_0 as int));
    let s4 = if number_payload(t.bpm) is Some {
        with_text(s3, FrameKind::Bpm, decimal_int(t.bpm->Present_0 as int))
    } else {
        s3
    };
    lemma_id_of_compilation();
    reveal_strlit("1");
    assert(no_nul("1"@));
    lemma_text_payload("1"@);
    lemma_text_frame_scanned(data, limit, a4, s4, "TCMP"@, FrameKind::Compilation,
        compilation_payload(t.is_compilation), "1"@);
    let s5 = if compilation_payload(t.is_compilation) is Some {
        with_text(s4, FrameKind::Compilation, "1"@)
    } else {
        s4
    };
    assert(s5 == scan_number(scan, t));
}

/// What stands in the data with these frames behind it stands in the data.
pub proof fn lemma_number_frames_stand(before: Seq<u8>, t: TagsView, data: Seq<u8>)
    requires
        stands_in(number_frames(before, t), data),
    ensures
        stands_in(before, data),
        before.len() <= number_frames(before, t).len(),
{
    let a0 = before;
    let a1 = a0 + opt_frame("TDRC"@, date_payload(t.date));
    let a2 = a1 + opt_frame("TRCK"@, pair_payload(t.track_number, t.track_total));
    let a3 = a2 + opt_frame("TPOS"@, pair_payload(t.disc_number, t.disc_total));
    let a4 = a3 + opt_frame("TBPM"@, number_payload(t.bpm));
    let a5 = a4 + opt_frame("TCMP"@, compilation_payload(t.is_compilation));
    assert(a5 == number_frames(before, t));
    lemma_stands_in(a4, opt_frame("TCMP"@, compilation_payload(t.is_compilation)), data);
    lemma_stands_in(a3, opt_frame("TBPM"@, number_payload(t.bpm)), data);
    lemma_stands_in(a2, opt_frame("TPOS"@, pair_payload(t.disc_number, t.disc_total)), data);
    lemma_stands_in(a1, opt_frame("TRCK"@, pair_payload(t.track_number, t.track_total)), data);
    lemma_stands_in(a0, opt_frame("TDRC"@, date_payload(t.date)), data);
}

/// What stands in the data with these frames behind it stands in the data.
pub proof fn lemma_sort_frames_stand(before: Seq<u8>, t: TagsView, data: Seq<u8>)
    requires
        stands_in(sort_frames(before, t), data),
    ensures
        stands_in(before, data),
        before.len() <= sort_frames(before, t).len(),
{
    let a0 = before;
    let a1 = a0 + opt_frame("TSOT"@, field_payload(t.sort_title));
    let a2 = a1 + opt_frame("TSOP"@, field_payload(t.sort_artist));
    let a3 = a2 + opt_frame("TSOA"@, field_payload(t.sort_album));
    let a4 = a3 + opt_frame("TSO2"@, field_payload(t.sort_album_artist));
    let a5 = a4 + opt_frame("TSOC"@, field_payload(t.sort_composer));
    assert(a5 == sort_frames(before, t));
    lemma_stands_in(a4, opt_frame("TSOC"@, field_payload(t.sort_composer)), data);
    lemma_stands_in(a3, opt_frame("TSO2"@, field_payload(t.sort_album_artist)), data);
    lemma_stands_in(a2, opt_frame("TSOA"@, field_payload(t.sort_album)), data);
    lemma_stands_in(a1, opt_frame("TSOP"@, field_payload(t.sort_artist)), data);
    lemma_stands_in(a0, opt_frame("TSOT"@, field_payload(t.sort_title)), data);
}

/// What stands in the data with these frames behind it stands in the data.
pub proof fn lemma_rest_frames_stand(before: Seq<u8>, t: TagsView, data: Seq<u8>)
    requires
        stands_in(rest_frames(before, t), data),
    ensures
        stands_in(before, data),
        before.len() <= rest_frames(before, t).len(),
{
    let a0 = before;
    let a1 = a0 + opt_frame("COMM"@, comment_payload(t.comment));
    let a2 = a1 + opt_frame("APIC"@, picture_payload(t.front_cover));
    assert(a2 == rest_frames(before, t));
    lemma_stands_in(a1, opt_frame("APIC"@, picture_payload(t.front_cover)), data);
    lemma_stands_in(a0, opt_frame("COMM"@, comment_payload(t.comment)), data);
}

/// The scan after the frames of comment and cover.
pub open spec fn scan_rest(scan: ScanView, t: TagsView) -> ScanView {
    ScanView {
        tags: TagsView {
            comment: picked(t.comment, scan.tags.comment),
            front_cover: picked(t.front_cover, scan.tags.front_cover),
            ..scan.tags
        },
        found_best_cover: t.front_cover is Present || scan.found_best_cover,
        ..scan
    }
}

/// The scan passes over the frames of comment and cover and collects them.
#[verifier::rlimit(50)]
pub proof fn lemma_rest_frames_scanned(
    data: Seq<u8>,
    limit: int,
    before: Seq<u8>,
    scan: ScanView,
    t: TagsView,
)
    requires
        storable(t),
        rest_frames_fit(t),
        stands_in(rest_frames(before, t), data),
        10 + rest_frames(before, t).len() <= limit + 5,
        scanned(data, limit, before, scan),
    ensures
        scanned(data, limit, rest_frames(before, t), scan_rest(scan, t)),
{
    let a1 = before + opt_frame("COMM"@, comment_payload(t.comment));
    let a2 = a1 + opt_frame("APIC"@, picture_payload(t.front_cover));
    assert(a2 == rest_frames(before, t));
    lemma_stands_in(a1, opt_frame("APIC"@, picture_payload(t.front_cover)), data);
    lemma_comment_frame_scanned(data, limit, before, scan, t.comment);
    let s1 = if t.comment is Present {
        with_text(scan, FrameKind::Comment, t.comment->Present_0)
    } else {
        scan
    };
    lemma_picture_frame_scanned(data, limit, a1, s1, t.front_cover);
    let s2 = if t.front_cover is Present {
        with_picture(s1, t.front_cover->Present_0, 3)
    } else {
        s1
    };
    assert(s2 == scan_rest(scan, t));
}

/// What the scan of a written tag collects.
#[verifier::opaque]
pub open spec fn scan_written(t: TagsView) -> ScanView {
    scan_rest(scan_sort(scan_number(scan_text(ScanView::start(), t), t), t), t)
}

/// The tags of what the scan of a written tag collects are the tags that
/// were written.
#[verifier::rlimit(50)]
pub proof fn lemma_finished(t: TagsView)
    requires
        storable(t),
    ensures
        finished(scan_written(t), 4) == t,
{
    reveal(scan_written);
    let scan = scan_written(t);
    let f = finished(scan, 4);
    assert(date_text(scan, 4) == scan.date);
    match t.date {
        TagOption::Present(d) => {
            crate::types::datetime::lemma_iso_8601_roundtrip(d);
        },
        _ => {
            assert(scan.date.len() == 0);
        },
    }
    assert(f.date == t.date);
    if t.track_number is Present {
        lemma_pair_read(t.track_number, t.track_total);
    } else {
        assert(scan.trck.len() == 0);
        assert(track_parts(scan.trck).0.len() == 0);
        assert(track_parts(scan.trck).1.len() == 0);
    }
    if t.disc_number is Present {
        lemma_pair_read(t.disc_number, t.disc_total);
    } else {
        assert(scan.tpos.len() == 0);
        assert(track_parts(scan.tpos).0.len() == 0);
        assert(track_parts(scan.tpos).1.len() == 0);
    }
    assert(f.track_number == t.track_number);
    assert(f.track_total == t.track_total);
    assert(f.disc_number == t.disc_number);
    assert(f.disc_total == t.disc_total);
    assert(f.title == t.title);
    assert(f.album == t.album);
    assert(f.artist == t.artist);
    assert(f.album_artist == t.album_artist);
    assert(f.composer == t.composer);
    assert(f.grouping == t.grouping);
    assert(f.genre == t.genre);
    assert(f.bpm == t.bpm);
    assert(f.is_compilation == t.is_compilation);
    assert(f.comment == t.comment);
    assert(f.sort_title == t.sort_title);
    assert(f.sort_album == t.sort_album);
    assert(f.sort_artist == t.sort_artist);
    assert(f.sort_album_artist == t.sort_album_artist);
    assert(f.sort_composer == t.sort_composer);
    assert(f.front_cover == t.front_cover);
    assert(f.rating == t.rating);
}

/// The scan ends behind the frames of a written tag: in its padding, or at
/// the limit.
pub proof fn lemma_scan_ends(data: Seq<u8>, limit: int, frames: Seq<u8>, scan: ScanView)
    requires
        forall|i: int| 10 + frames.len() <= i < limit + 6 ==> #[trigger] data[i] == 0,
        limit + 6 <= data.len(),
    ensures
        frames_scanned(data, 10 + frames.len() as int, limit, 4, false, scan).0 == scan,
{
    let at = 10 + frames.len() as int;
    if at <= limit {
        let arr = read_filled(data, at, 10, 0);
        let id = arr.subrange(0, 4);
        assert(id[0] == data[at]);
        assert(!is_id_byte(id[0]));
        assert(!valid_id_bytes(id));
    }
}

/// The scan of the frames of a written tag collects what was written.
pub proof fn lemma_written_frames_scanned(data: Seq<u8>, limit: int, t: TagsView)
    requires
        storable(t),
        frames_fit(t),
        stands_in(tag_frames(t), data),
        10 + tag_frames(t).len() <= limit + 5,
    ensures
        scanned(data, limit, tag_frames(t), scan_written(t)),
{
    reveal(tag_frames);
    reveal(frames_fit);
    reveal(scan_written);
    let g3 = sort_frames(number_frames(text_frames(Seq::empty(), t), t), t);
    let g2 = number_frames(text_frames(Seq::empty(), t), t);
    let g1 = text_frames(Seq::empty(), t);
    assert(tag_frames(t) == rest_frames(g3, t));
    lemma_rest_frames_stand(g3, t, data);
    lemma_sort_frames_stand(g2, t, data);
    lemma_number_frames_stand(g1, t, data);
    let start = ScanView::start();
    assert(scanned(data, limit, Seq::empty(), start)) by {
        reveal(scanned);
    }
    lemma_text_frames_scanned(data, limit, Seq::empty(), start, t);
    lemma_number_frames_scanned(data, limit, g1, scan_text(start, t), t);
    lemma_sort_frames_scanned(data, limit, g2, scan_number(scan_text(start, t), t), t);
    lemma_rest_frames_scanned(
        data,
        limit,
        g3,
        scan_sort(scan_number(scan_text(start, t), t), t),
        t,
    );
}

/// The header of a written tag is read as the header of a tag of version 4
/// without flags, of the size that was written.
pub proof fn lemma_written_header_read(data: Seq<u8>, size: u32)
    requires
        size < 0x1000_0000,
        data.len() >= 10,
        data.subrange(0, 10) == tag_start() + synch_bytes(size, false),
    ensures
        header_of(data) == Ok::<Header, ErrorView>(
            Header {
                version: 4,
                size,
                is_unsynchronized: false,
                is_experimental: false,
                has_footer: false,
                extended_header: None,
            },
        ),
{
    let bytes = synch_bytes(size, false);
    lemma_synch_roundtrip(size, false);
    assert(bytes.len() == 4);
    let arr = read_filled(data, 0, 10, 0);
    let head = data.subrange(0, 10);
    assert forall|i: int| 0 <= i < 10 implies arr[i] == head[i] by {}
    assert(arr =~= tag_start() + bytes);
    assert(arr.subrange(6, 10) =~= bytes);
    assert(arr[0] == 0x49 && arr[1] == 0x44 && arr[2] == 0x33 && arr[3] == 4 && arr[5] == 0);
    assert(!has_bit(0u8, 0x40) && !has_bit(0u8, 0x80) && !has_bit(0u8, 0x20) && !has_bit(
        0u8,
        0x10,
    ));
}

/// How a written tag is laid out: ten bytes of header with the size of
/// the rest, the frames, and zeros up to a multiple of 128 bytes.
pub proof fn lemma_tag_layout(t: TagsView)
    requires
        tag_written(t) is Ok,
    ensures
        frames_fit(t),
        tag_written(t)->Ok_0.len() == padded_len(10 + tag_frames(t).len() as int),
        tag_written(t)->Ok_0.len() >= 10 + tag_frames(t).len() + 1,
        tag_written(t)->Ok_0.len() - 10 < 0x1000_0000,
        tag_written(t)->Ok_0.subrange(0, 10) == tag_start() + synch_bytes(
            (tag_written(t)->Ok_0.len() - 10) as u32,
            false,
        ),
        tag_written(t)->Ok_0.subrange(10, 10 + tag_frames(t).len() as int) == tag_frames(t),
        forall|i: int|
            10 + tag_frames(t).len() <= i < tag_written(t)->Ok_0.len() ==> (
            #[trigger] tag_written(t)->Ok_0[i]) == 0,
{
    reveal(tag_written);
    lemma_layout(tag_frames(t));
}

/// How the tag with the given frames is laid out.
pub proof fn lemma_layout(frames: Seq<u8>)
    requires
        tag_of_frames(frames) is Ok,
    ensures
        tag_of_frames(frames)->Ok_0.len() == padded_len(10 + frames.len() as int),
        tag_of_frames(frames)->Ok_0.len() >= 10 + frames.len() + 1,
        tag_of_frames(frames)->Ok_0.len() - 10 < 0x1000_0000,
        tag_of_frames(frames)->Ok_0.subrange(0, 10) == tag_start() + synch_bytes(
            (tag_of_frames(frames)->Ok_0.len() - 10) as u32,
            false,
        ),
        tag_of_frames(frames)->Ok_0.subrange(10, 10 + frames.len() as int) == frames,
        forall|i: int|
            10 + frames.len() <= i < tag_of_frames(frames)->Ok_0.len() ==> (
            #[trigger] tag_of_frames(frames)->Ok_0[i]) == 0,
{
    let tag = tag_of_frames(frames)->Ok_0;
    let total = padded_len(10 + frames.len() as int);
    let size = synch_bytes((total - 10) as u32, false);
    assert(size.len() == 4);
    assert(total >= 10 + frames.len() + 1);
    let zeros = Seq::new((total - 10 - frames.len()) as nat, |i: int| 0u8);
    assert(tag == tag_start() + size + frames + zeros);
    assert(tag.len() == total);
    assert(tag.subrange(0, 10) =~= tag_start() + size);
    assert(tag.subrange(10, 10 + frames.len() as int) =~= frames);
    assert forall|i: int| 10 + frames.len() <= i < tag.len() implies (#[trigger] tag[i]) == 0 by {
        assert(tag[i] == zeros[i - 10 - frames.len()]);
    }
}

/// A written tag, with anything behind it, is read back as the tags that
/// were written, if the tags are such as can be stored.
#[verifier::rlimit(50)]
pub proof fn lemma_written_tag_read(t: TagsView, audio: Seq<u8>)
    requires
        storable(t),
        tag_written(t) is Ok,
    ensures
        id3v2_tags(tag_written(t)->Ok_0 + audio) == Ok::<TagsView, ErrorView>(t),
{
    let tag = tag_written(t)->Ok_0;
    let data = tag + audio;
    let frames = tag_frames(t);
    lemma_tag_layout(t);
    let size = (tag.len() - 10) as u32;
    assert(data.subrange(0, 10) =~= tag.subrange(0, 10));
    lemma_written_header_read(data, size);
    let limit = size + 4;
    assert(data.subrange(10, 10 + frames.len() as int) =~= tag.subrange(
        10,
        10 + frames.len() as int,
    ));
    assert(stands_in(frames, data));
    lemma_written_frames_scanned(data, limit, t);
    assert forall|i: int| 10 + frames.len() <= i < limit + 6 implies #[trigger] data[i] == 0 by {
        assert(data[i] == tag[i]);
    }
    lemma_scan_ends(data, limit, frames, scan_written(t));
    lemma_finished(t);
    lemma_tags_of_scan(data, size, t);
}

/// The tags of a file whose header is that of a written tag are those of
/// the scan of its frames.
pub proof fn lemma_tags_of_scan(data: Seq<u8>, size: u32, t: TagsView)
    requires
        header_of(data) == Ok::<Header, ErrorView>(
            Header {
                version: 4,
                size,
                is_unsynchronized: false,
                is_experimental: false,
                has_footer: false,
                extended_header: None,
            },
        ),
        data.len() >= 10,
        scanned(data, size + 4, tag_frames(t), scan_written(t)),
        frames_scanned(data, 10 + tag_frames(t).len() as int, size + 4, 4, false, scan_written(t)).0
            == scan_written(t),
        finished(scan_written(t), 4) == t,
    ensures
        id3v2_tags(data) == Ok::<TagsView, ErrorView>(t),
{
    reveal(internal_tags);
    reveal(scanned);
}

/// Writing tags and reading them again gives the merged tags: the file
/// that was rewritten with the update `new` holds the tags that the file
/// held before, updated by `new`, if these are such as can be stored.
pub proof fn lemma_rewritten_file_read(data: Seq<u8>, new: TagsView)
    requires
        rewritten(data, new) is Ok,
        storable(delta_view(tags_before(data), new)),
    ensures
        id3v2_tags(rewritten(data, new)->Ok_0) == Ok::<TagsView, ErrorView>(
            delta_view(tags_before(data), new),
        ),
{
    let merged = delta_view(tags_before(data), new);
    lemma_written_tag_read(merged, rest(data, audio_start(data)));
}

} // verus!
