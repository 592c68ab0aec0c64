//! Vorbis comments that were written are read back as they were.
use vstd::prelude::*;
use crate::id3v2::get::with_number;
use crate::id3v2::read::text_bytes;
use crate::flac::len32;
use crate::store::avail;
use crate::store::read_filled;
use crate::store::read_over;
use crate::tools::encoding::lemma_ascii_bytes;
use crate::tools::encoding::lemma_encode_concat;
use crate::tools::le_bytes_u32;
use crate::tools::le_value;
use crate::tools::lemma_le_u32_roundtrip;
use crate::tools::text::decimal_int;
use crate::tools::text::lacks;
use crate::tools::text::lemma_decimal_lacks;
use crate::tools::text::lemma_parse_decimal;
use crate::tools::text::lower_ascii;
use crate::tools::text::upper_char;
use crate::types::datetime::iso_8601_date;
use crate::types::datetime::iso_8601_text;
use crate::types::datetime::lemma_date_lacks;
use crate::types::datetime::lemma_iso_8601_roundtrip;
use crate::types::datetime::DateTime;
use crate::types::tags::from_option;
use crate::types::tags::TagOption;
use crate::types::tags::TagsView;
use crate::vorbis::comments_at;
use crate::vorbis::comments_of;
use crate::vorbis::comments_written;
use crate::vorbis::compilation_comment;
use crate::vorbis::date_comment;
use crate::vorbis::entries_read;
use crate::vorbis::entry;
use crate::vorbis::entry_of;
use crate::vorbis::is_key_byte;
use crate::vorbis::key_end;
use crate::vorbis::key_text;
use crate::vorbis::listed;
use crate::vorbis::name_comments;
use crate::vorbis::number_comment;
use crate::vorbis::number_comments;
use crate::vorbis::picture_comment;
use crate::vorbis::sort_comments;
use crate::vorbis::text_comment;
use crate::vorbis::value_text;
use crate::vorbis::vendor;
use crate::vorbis::with_entry;
use crate::ErrorView;

verus! {

/// Whether `key` is a key of letters from `A` to `Z`.
pub open spec fn plain_key(key: Seq<char>) -> bool {
    key.len() >= 1 && forall|i: int| 0 <= i < key.len() ==> 'A' <= #[trigger] key[i] <= 'Z'
}

/// A key is passed over up to the first byte that may not stand in one.
pub proof fn lemma_key_end(bytes: Seq<u8>, from: int, end: int)
    requires
        0 <= from <= end <= bytes.len(),
        forall|i: int| from <= i < end ==> is_key_byte(#[trigger] bytes[i]),
        end < bytes.len() ==> !is_key_byte(bytes[end]),
    ensures
        key_end(bytes, from) == end,
    decreases end - from,
{
    if from < end {
        lemma_key_end(bytes, from + 1, end);
    }
}

/// Text without a character does not contain it.
pub proof fn lemma_lacks(s: Seq<char>, c: char)
    ensures
        lacks(s, c) <==> !s.contains(c),
{
    if !lacks(s, c) {
        let i = choose|i: int| 0 <= i < s.len() && s[i] == c;
        assert(s.contains(c));
    }
}

/// A written entry is split into its key and its value.
pub proof fn lemma_entry_split(key: Seq<char>, value: Seq<char>)
    requires
        plain_key(key),
        lacks(value, '\n'),
    ensures
        entry_of(text_bytes(key + "="@ + value)) == Some((key, value)),
{
    reveal_strlit("=");
    let kb = text_bytes(key);
    let vb = text_bytes(value);
    assert(vstd::utf8::is_ascii_chars(key)) by {
        assert forall|i: int| 0 <= i < key.len() implies '\0' <= #[trigger] key[i]
            <= '\u{7f}' by {}
    }
    lemma_ascii_bytes(key);
    assert(vstd::utf8::is_ascii_chars("="@));
    lemma_ascii_bytes("="@);
    assert(text_bytes("="@) =~= seq![0x3Du8]);
    lemma_encode_concat(key, "="@);
    lemma_encode_concat(key + "="@, value);
    let bytes = text_bytes(key + "="@ + value);
    assert(bytes == kb + seq![0x3Du8] + vb);
    let k = kb.len() as int;
    assert(k == key.len());
    assert forall|i: int| 0 <= i < k implies is_key_byte(#[trigger] bytes[i]) by {
        assert(bytes[i] == kb[i]);
        assert('A' <= key[i] <= 'Z');
    }
    assert(bytes[k] == 0x3D);
    lemma_key_end(bytes, 0, k);
    assert(bytes.skip(k + 1) =~= vb);
    vstd::utf8::encode_utf8_valid_utf8(value);
    vstd::utf8::encode_utf8_decode_utf8(value);
    assert(value_text(vb) == value);
    lemma_lacks(value, '\n');
    assert(key_text(bytes.subrange(0, k)) =~= key) by {
        assert forall|i: int| 0 <= i < k implies key_text(bytes.subrange(0, k))[i] == key[i] by {
            assert(bytes.subrange(0, k)[i] == kb[i]);
            assert('A' <= key[i] <= 'Z');
        }
    }
}

/// Whether reading `remaining` entries at `pos` with the tags `state` so
/// far gives `result`, whatever the length field held before.
#[verifier::opaque]
pub open spec fn comes_to(
    data: Seq<u8>,
    pos: int,
    remaining: nat,
    state: (TagsView, bool),
    result: (Result<TagsView, ErrorView>, int),
) -> bool {
    forall|buf: Seq<u8>|
        buf.len() == 4 ==> #[trigger] entries_read(data, pos, buf, remaining, state) == result
}

/// Whether `x` is what `data` holds from `start` on.
pub open spec fn stands_at(x: Seq<u8>, data: Seq<u8>, start: int) -> bool {
    0 <= start && start + x.len() <= data.len() && data.subrange(start, start + x.len() as int)
        == x
}

/// What stands in the data with something behind it stands in the data.
pub proof fn lemma_stands_at(a: Seq<u8>, f: Seq<u8>, data: Seq<u8>, start: int)
    requires
        stands_at(a + f, data, start),
    ensures
        stands_at(a, data, start),
        stands_at(f, data, start + a.len()),
{
    let whole = data.subrange(start, start + (a + f).len() as int);
    assert(data.subrange(start, start + a.len() as int) =~= a) by {
        assert forall|i: int| 0 <= i < a.len() implies data[start + i] == a[i] by {
            assert(whole[i] == (a + f)[i]);
        }
    }
    assert(data.subrange(start + a.len() as int, start + a.len() as int
        + f.len() as int) =~= f) by {
        assert forall|i: int| 0 <= i < f.len() implies data[start + a.len() + i] == f[i] by {
            assert(whole[a.len() + i] == (a + f)[a.len() + i]);
        }
    }
}

/// A number of four bytes that stands in the data is read from there.
pub proof fn lemma_length_read(data: Seq<u8>, pos: int, buf: Seq<u8>, n: u32)
    requires
        buf.len() == 4,
        stands_at(le_bytes_u32(n), data, pos),
    ensures
        read_over(buf, 0, data, pos) == le_bytes_u32(n),
        le_value(read_over(buf, 0, data, pos)) == n,
        avail(data.len() as int, pos, 4) == 4,
{
    lemma_le_u32_roundtrip(n);
    let b = le_bytes_u32(n);
    assert(read_over(buf, 0, data, pos) =~= b) by {
        assert forall|i: int| 0 <= i < 4 implies read_over(buf, 0, data, pos)[i] == b[i] by {
            assert(data.subrange(pos, pos + 4)[i] == b[i]);
        }
    }
}

/// Reading passes over a written entry and takes it into the tags.
pub proof fn lemma_entry_comes(
    data: Seq<u8>,
    pos: int,
    remaining: nat,
    state: (TagsView, bool),
    key: Seq<char>,
    value: Seq<char>,
    result: (Result<TagsView, ErrorView>, int),
)
    requires
        plain_key(key),
        lacks(value, '\n'),
        text_bytes(key + "="@ + value).len() < 0x1_0000_0000,
        stands_at(entry(key + "="@ + value), data, pos),
        comes_to(
            data,
            pos + entry(key + "="@ + value).len(),
            remaining,
            (with_entry(state.0, key, value), state.1),
            result,
        ),
    ensures
        comes_to(data, pos, remaining + 1, state, result),
{
    reveal(entry);
    reveal(comes_to);
    reveal(with_entry);
    reveal_strlit("METADATA_BLOCK_PICTURE");
    let text = key + "="@ + value;
    let tb = text_bytes(text);
    let e = entry(text);
    let n = tb.len() as u32;
    assert(len32(tb.len()) == n);
    assert(e == le_bytes_u32(n) + tb);
    lemma_le_u32_roundtrip(n);
    lemma_stands_at(le_bytes_u32(n), tb, data, pos);
    lemma_entry_split(key, value);
    assert(key != "METADATA_BLOCK_PICTURE"@) by {
        if key == "METADATA_BLOCK_PICTURE"@ {
            assert(key[8] == '_');
        }
    }
    let next = (with_entry(state.0, key, value), state.1);
    assert forall|buf: Seq<u8>| buf.len() == 4 implies #[trigger] entries_read(
        data,
        pos,
        buf,
        remaining + 1,
        state,
    ) == result by {
        lemma_length_read(data, pos, buf, n);
        let b = read_over(buf, 0, data, pos);
        let at1 = pos + 4;
        assert(read_filled(data, at1, n as int, 0) =~= tb) by {
            assert forall|i: int| 0 <= i < tb.len() implies read_filled(data, at1, n as int, 0)[i]
                == tb[i] by {
                assert(data.subrange(at1, at1 + tb.len())[i] == tb[i]);
            }
        }
        assert(avail(data.len() as int, at1, n as int) == n);
        assert(entries_read(data, at1 + n, b, remaining, next) == result);
        assert(((remaining + 1) - 1) as nat == remaining);
    }
}

/// `TITLE` is a key of letters, and what an entry with it does to the tags.
pub proof fn lemma_key_title(tags: TagsView, value: Seq<char>)
    ensures
        plain_key("TITLE"@),
        with_entry(tags, "TITLE"@,
            value) == (TagsView { title: TagOption::Present(value), ..tags }),
{
    reveal(with_entry);
    reveal_strlit("TITLE");
    reveal_strlit("ALBUM");
    reveal_strlit("ARTIST");
    reveal_strlit("ALBUMARTIST");
    reveal_strlit("COMPOSER");
    reveal_strlit("GROUPING");
    reveal_strlit("GENRE");
    reveal_strlit("DATE");
    reveal_strlit("TRACKNUMBER");
    reveal_strlit("TRACKTOTAL");
    reveal_strlit("DISCNUMBER");
    reveal_strlit("DISCTOTAL");
    reveal_strlit("BPM");
    reveal_strlit("COMPILATION");
    reveal_strlit("COMMENT");
    reveal_strlit("TITLESORT");
    reveal_strlit("ALBUMSORT");
    reveal_strlit("ARTISTSORT");
    reveal_strlit("ALBUMARTISTSORT");
    reveal_strlit("COMPOSERSORT");
    reveal_strlit("METADATA_BLOCK_PICTURE");
    let key = "TITLE"@;
    assert(key.len() == 5);
    assert(key[0] == 'T' && key[1] == 'I' && key[2] == 'T' && key[3] == 'L' && key[4] == 'E');
}

/// `ALBUM` is a key of letters, and what an entry with it does to the tags.
pub proof fn lemma_key_album(tags: TagsView, value: Seq<char>)
    ensures
        plain_key("ALBUM"@),
        with_entry(tags, "ALBUM"@,
            value) == (TagsView { album: TagOption::Present(value), ..tags }),
{
    reveal(with_entry);
    reveal_strlit("TITLE");
    reveal_strlit("ALBUM");
    reveal_strlit("ARTIST");
    reveal_strlit("ALBUMARTIST");
    reveal_strlit("COMPOSER");
    reveal_strlit("GROUPING");
    reveal_strlit("GENRE");
    reveal_strlit("DATE");
    reveal_strlit("TRACKNUMBER");
    reveal_strlit("TRACKTOTAL");
    reveal_strlit("DISCNUMBER");
    reveal_strlit("DISCTOTAL");
    reveal_strlit("BPM");
    reveal_strlit("COMPILATION");
    reveal_strlit("COMMENT");
    reveal_strlit("TITLESORT");
    reveal_strlit("ALBUMSORT");
    reveal_strlit("ARTISTSORT");
    reveal_strlit("ALBUMARTISTSORT");
    reveal_strlit("COMPOSERSORT");
    reveal_strlit("METADATA_BLOCK_PICTURE");
    let key = "ALBUM"@;
    assert(key.len() == 5);
    assert(key[0] == 'A' && key[1] == 'L' && key[2] == 'B' && key[3] == 'U' && key[4] == 'M');
}

/// `ARTIST` is a key of letters, and what an entry with it does to the tags.
pub proof fn lemma_key_artist(tags: TagsView, value: Seq<char>)
    ensures
        plain_key("ARTIST"@),
        with_entry(tags, "ARTIST"@,
            value) == (TagsView { artist: TagOption::Present(value), ..tags }),
{
    reveal(with_entry);
    reveal_strlit("TITLE");
    reveal_strlit("ALBUM");
    reveal_strlit("ARTIST");
    reveal_strlit("ALBUMARTIST");
    reveal_strlit("COMPOSER");
    reveal_strlit("GROUPING");
    reveal_strlit("GENRE");
    reveal_strlit("DATE");
    reveal_strlit("TRACKNUMBER");
    reveal_strlit("TRACKTOTAL");
    reveal_strlit("DISCNUMBER");
    reveal_strlit("DISCTOTAL");
    reveal_strlit("BPM");
    reveal_strlit("COMPILATION");
    reveal_strlit("COMMENT");
    reveal_strlit("TITLESORT");
    reveal_strlit("ALBUMSORT");
    reveal_strlit("ARTISTSORT");
    reveal_strlit("ALBUMARTISTSORT");
    reveal_strlit("COMPOSERSORT");
    reveal_strlit("METADATA_BLOCK_PICTURE");
    let key = "ARTIST"@;
    assert(key.len() == 6);
    assert(key[0] == 'A' && key[1] == 'R' && key[2] == 'T' && key[3] == 'I' && key[4] == 'S'
        && key[5] == 'T');
}

/// `ALBUMARTIST` is a key of letters, and what an entry with it does to the tags.
pub proof fn lemma_key_album_artist(tags: TagsView, value: Seq<char>)
    ensures
        plain_key("ALBUMARTIST"@),
        with_entry(tags, "ALBUMARTIST"@,
            value) == (TagsView { album_artist: TagOption::Present(value), ..tags }),
{
    reveal(with_entry);
    reveal_strlit("TITLE");
    reveal_strlit("ALBUM");
    reveal_strlit("ARTIST");
    reveal_strlit("ALBUMARTIST");
    reveal_strlit("COMPOSER");
    reveal_strlit("GROUPING");
    reveal_strlit("GENRE");
    reveal_strlit("DATE");
    reveal_strlit("TRACKNUMBER");
    reveal_strlit("TRACKTOTAL");
    reveal_strlit("DISCNUMBER");
    reveal_strlit("DISCTOTAL");
    reveal_strlit("BPM");
    reveal_strlit("COMPILATION");
    reveal_strlit("COMMENT");
    reveal_strlit("TITLESORT");
    reveal_strlit("ALBUMSORT");
    reveal_strlit("ARTISTSORT");
    reveal_strlit("ALBUMARTISTSORT");
    reveal_strlit("COMPOSERSORT");
    reveal_strlit("METADATA_BLOCK_PICTURE");
    let key = "ALBUMARTIST"@;
    assert(key.len() == 11);
    assert(key[0] == 'A' && key[1] == 'L' && key[2] == 'B' && key[3] == 'U' && key[4] == 'M'
        && key[5] == 'A' && key[6] == 'R' && key[7] == 'T' && key[8] == 'I' && key[9] == 'S'
        && key[10] == 'T');
}

/// `COMPOSER` is a key of letters, and what an entry with it does to the tags.
pub proof fn lemma_key_composer(tags: TagsView, value: Seq<char>)
    ensures
        plain_key("COMPOSER"@),
        with_entry(tags, "COMPOSER"@,
            value) == (TagsView { composer: TagOption::Present(value), ..tags }),
{
    reveal(with_entry);
    reveal_strlit("TITLE");
    reveal_strlit("ALBUM");
    reveal_strlit("ARTIST");
    reveal_strlit("ALBUMARTIST");
    reveal_strlit("COMPOSER");
    reveal_strlit("GROUPING");
    reveal_strlit("GENRE");
    reveal_strlit("DATE");
    reveal_strlit("TRACKNUMBER");
    reveal_strlit("TRACKTOTAL");
    reveal_strlit("DISCNUMBER");
    reveal_strlit("DISCTOTAL");
    reveal_strlit("BPM");
    reveal_strlit("COMPILATION");
    reveal_strlit("COMMENT");
    reveal_strlit("TITLESORT");
    reveal_strlit("ALBUMSORT");
    reveal_strlit("ARTISTSORT");
    reveal_strlit("ALBUMARTISTSORT");
    reveal_strlit("COMPOSERSORT");
    reveal_strlit("METADATA_BLOCK_PICTURE");
    let key = "COMPOSER"@;
    assert(key.len() == 8);
    assert(key[0] == 'C' && key[1] == 'O' && key[2] == 'M' && key[3] == 'P' && key[4] == 'O'
        && key[5] == 'S' && key[6] == 'E' && key[7] == 'R');
}

/// `GROUPING` is a key of letters, and what an entry with it does to the tags.
pub proof fn lemma_key_grouping(tags: TagsView, value: Seq<char>)
    ensures
        plain_key("GROUPING"@),
        with_entry(tags, "GROUPING"@,
            value) == (TagsView { grouping: TagOption::Present(value), ..tags }),
{
    reveal(with_entry);
    reveal_strlit("TITLE");
    reveal_strlit("ALBUM");
    reveal_strlit("ARTIST");
    reveal_strlit("ALBUMARTIST");
    reveal_strlit("COMPOSER");
    reveal_strlit("GROUPING");
    reveal_strlit("GENRE");
    reveal_strlit("DATE");
    reveal_strlit("TRACKNUMBER");
    reveal_strlit("TRACKTOTAL");
    reveal_strlit("DISCNUMBER");
    reveal_strlit("DISCTOTAL");
    reveal_strlit("BPM");
    reveal_strlit("COMPILATION");
    reveal_strlit("COMMENT");
    reveal_strlit("TITLESORT");
    reveal_strlit("ALBUMSORT");
    reveal_strlit("ARTISTSORT");
    reveal_strlit("ALBUMARTISTSORT");
    reveal_strlit("COMPOSERSORT");
    reveal_strlit("METADATA_BLOCK_PICTURE");
    let key = "GROUPING"@;
    assert(key.len() == 8);
    assert(key[0] == 'G' && key[1] == 'R' && key[2] == 'O' && key[3] == 'U' && key[4] == 'P'
        && key[5] == 'I' && key[6] == 'N' && key[7] == 'G');
}

/// `GENRE` is a key of letters, and what an entry with it does to the tags.
pub proof fn lemma_key_genre(tags: TagsView, value: Seq<char>)
    ensures
        plain_key("GENRE"@),
        with_entry(tags, "GENRE"@,
            value) == (TagsView { genre: TagOption::Present(value), ..tags }),
{
    reveal(with_entry);
    reveal_strlit("TITLE");
    reveal_strlit("ALBUM");
    reveal_strlit("ARTIST");
    reveal_strlit("ALBUMARTIST");
    reveal_strlit("COMPOSER");
    reveal_strlit("GROUPING");
    reveal_strlit("GENRE");
    reveal_strlit("DATE");
    reveal_strlit("TRACKNUMBER");
    reveal_strlit("TRACKTOTAL");
    reveal_strlit("DISCNUMBER");
    reveal_strlit("DISCTOTAL");
    reveal_strlit("BPM");
    reveal_strlit("COMPILATION");
    reveal_strlit("COMMENT");
    reveal_strlit("TITLESORT");
    reveal_strlit("ALBUMSORT");
    reveal_strlit("ARTISTSORT");
    reveal_strlit("ALBUMARTISTSORT");
    reveal_strlit("COMPOSERSORT");
    reveal_strlit("METADATA_BLOCK_PICTURE");
    let key = "GENRE"@;
    assert(key.len() == 5);
    assert(key[0] == 'G' && key[1] == 'E' && key[2] == 'N' && key[3] == 'R' && key[4] == 'E');
}

/// `COMMENT` is a key of letters, and what an entry with it does to the tags.
pub proof fn lemma_key_comment(tags: TagsView, value: Seq<char>)
    ensures
        plain_key("COMMENT"@),
        with_entry(tags, "COMMENT"@,
            value) == (TagsView { comment: TagOption::Present(value), ..tags }),
{
    reveal(with_entry);
    reveal_strlit("TITLE");
    reveal_strlit("ALBUM");
    reveal_strlit("ARTIST");
    reveal_strlit("ALBUMARTIST");
    reveal_strlit("COMPOSER");
    reveal_strlit("GROUPING");
    reveal_strlit("GENRE");
    reveal_strlit("DATE");
    reveal_strlit("TRACKNUMBER");
    reveal_strlit("TRACKTOTAL");
    reveal_strlit("DISCNUMBER");
    reveal_strlit("DISCTOTAL");
    reveal_strlit("BPM");
    reveal_strlit("COMPILATION");
    reveal_strlit("COMMENT");
    reveal_strlit("TITLESORT");
    reveal_strlit("ALBUMSORT");
    reveal_strlit("ARTISTSORT");
    reveal_strlit("ALBUMARTISTSORT");
    reveal_strlit("COMPOSERSORT");
    reveal_strlit("METADATA_BLOCK_PICTURE");
    let key = "COMMENT"@;
    assert(key.len() == 7);
    assert(key[0] == 'C' && key[1] == 'O' && key[2] == 'M' && key[3] == 'M' && key[4] == 'E'
        && key[5] == 'N' && key[6] == 'T');
}

/// `TITLESORT` is a key of letters, and what an entry with it does to the tags.
pub proof fn lemma_key_sort_title(tags: TagsView, value: Seq<char>)
    ensures
        plain_key("TITLESORT"@),
        with_entry(tags, "TITLESORT"@,
            value) == (TagsView { sort_title: TagOption::Present(value), ..tags }),
{
    reveal(with_entry);
    reveal_strlit("TITLE");
    reveal_strlit("ALBUM");
    reveal_strlit("ARTIST");
    reveal_strlit("ALBUMARTIST");
    reveal_strlit("COMPOSER");
    reveal_strlit("GROUPING");
    reveal_strlit("GENRE");
    reveal_strlit("DATE");
    reveal_strlit("TRACKNUMBER");
    reveal_strlit("TRACKTOTAL");
    reveal_strlit("DISCNUMBER");
    reveal_strlit("DISCTOTAL");
    reveal_strlit("BPM");
    reveal_strlit("COMPILATION");
    reveal_strlit("COMMENT");
    reveal_strlit("TITLESORT");
    reveal_strlit("ALBUMSORT");
    reveal_strlit("ARTISTSORT");
    reveal_strlit("ALBUMARTISTSORT");
    reveal_strlit("COMPOSERSORT");
    reveal_strlit("METADATA_BLOCK_PICTURE");
    let key = "TITLESORT"@;
    assert(key.len() == 9);
    assert(key[0] == 'T' && key[1] == 'I' && key[2] == 'T' && key[3] == 'L' && key[4] == 'E'
        && key[5] == 'S' && key[6] == 'O' && key[7] == 'R' && key[8] == 'T');
}

/// `ALBUMSORT` is a key of letters, and what an entry with it does to the tags.
pub proof fn lemma_key_sort_album(tags: TagsView, value: Seq<char>)
    ensures
        plain_key("ALBUMSORT"@),
        with_entry(tags, "ALBUMSORT"@,
            value) == (TagsView { sort_album: TagOption::Present(value), ..tags }),
{
    reveal(with_entry);
    reveal_strlit("TITLE");
    reveal_strlit("ALBUM");
    reveal_strlit("ARTIST");
    reveal_strlit("ALBUMARTIST");
    reveal_strlit("COMPOSER");
    reveal_strlit("GROUPING");
    reveal_strlit("GENRE");
    reveal_strlit("DATE");
    reveal_strlit("TRACKNUMBER");
    reveal_strlit("TRACKTOTAL");
    reveal_strlit("DISCNUMBER");
    reveal_strlit("DISCTOTAL");
    reveal_strlit("BPM");
    reveal_strlit("COMPILATION");
    reveal_strlit("COMMENT");
    reveal_strlit("TITLESORT");
    reveal_strlit("ALBUMSORT");
    reveal_strlit("ARTISTSORT");
    reveal_strlit("ALBUMARTISTSORT");
    reveal_strlit("COMPOSERSORT");
    reveal_strlit("METADATA_BLOCK_PICTURE");
    let key = "ALBUMSORT"@;
    assert(key.len() == 9);
    assert(key[0] == 'A' && key[1] == 'L' && key[2] == 'B' && key[3] == 'U' && key[4] == 'M'
        && key[5] == 'S' && key[6] == 'O' && key[7] == 'R' && key[8] == 'T');
}

/// `ARTISTSORT` is a key of letters, and what an entry with it does to the tags.
pub proof fn lemma_key_sort_artist(tags: TagsView, value: Seq<char>)
    ensures
        plain_key("ARTISTSORT"@),
        with_entry(tags, "ARTISTSORT"@,
            value) == (TagsView { sort_artist: TagOption::Present(value), ..tags }),
{
    reveal(with_entry);
    reveal_strlit("TITLE");
    reveal_strlit("ALBUM");
    reveal_strlit("ARTIST");
    reveal_strlit("ALBUMARTIST");
    reveal_strlit("COMPOSER");
    reveal_strlit("GROUPING");
    reveal_strlit("GENRE");
    reveal_strlit("DATE");
    reveal_strlit("TRACKNUMBER");
    reveal_strlit("TRACKTOTAL");
    reveal_strlit("DISCNUMBER");
    reveal_strlit("DISCTOTAL");
    reveal_strlit("BPM");
    reveal_strlit("COMPILATION");
    reveal_strlit("COMMENT");
    reveal_strlit("TITLESORT");
    reveal_strlit("ALBUMSORT");
    reveal_strlit("ARTISTSORT");
    reveal_strlit("ALBUMARTISTSORT");
    reveal_strlit("COMPOSERSORT");
    reveal_strlit("METADATA_BLOCK_PICTURE");
    let key = "ARTISTSORT"@;
    assert(key.len() == 10);
    assert(key[0] == 'A' && key[1] == 'R' && key[2] == 'T' && key[3] == 'I' && key[4] == 'S'
        && key[5] == 'T' && key[6] == 'S' && key[7] == 'O' && key[8] == 'R' && key[9] == 'T');
}

/// `ALBUMARTISTSORT` is a key of letters, and what an entry with it does to the tags.
pub proof fn lemma_key_sort_album_artist(tags: TagsView, value: Seq<char>)
    ensures
        plain_key("ALBUMARTISTSORT"@),
        with_entry(tags, "ALBUMARTISTSORT"@,
            value) == (TagsView { sort_album_artist: TagOption::Present(value), ..tags }),
{
    reveal(with_entry);
    reveal_strlit("TITLE");
    reveal_strlit("ALBUM");
    reveal_strlit("ARTIST");
    reveal_strlit("ALBUMARTIST");
    reveal_strlit("COMPOSER");
    reveal_strlit("GROUPING");
    reveal_strlit("GENRE");
    reveal_strlit("DATE");
    reveal_strlit("TRACKNUMBER");
    reveal_strlit("TRACKTOTAL");
    reveal_strlit("DISCNUMBER");
    reveal_strlit("DISCTOTAL");
    reveal_strlit("BPM");
    reveal_strlit("COMPILATION");
    reveal_strlit("COMMENT");
    reveal_strlit("TITLESORT");
    reveal_strlit("ALBUMSORT");
    reveal_strlit("ARTISTSORT");
    reveal_strlit("ALBUMARTISTSORT");
    reveal_strlit("COMPOSERSORT");
    reveal_strlit("METADATA_BLOCK_PICTURE");
    let key = "ALBUMARTISTSORT"@;
    assert(key.len() == 15);
    assert(key[0] == 'A' && key[1] == 'L' && key[2] == 'B' && key[3] == 'U' && key[4] == 'M'
        && key[5] == 'A' && key[6] == 'R' && key[7] == 'T' && key[8] == 'I' && key[9] == 'S'
        && key[10] == 'T' && key[11] == 'S' && key[12] == 'O' && key[13] == 'R' && key[14] == 'T');
}

/// `COMPOSERSORT` is a key of letters, and what an entry with it does to the tags.
pub proof fn lemma_key_sort_composer(tags: TagsView, value: Seq<char>)
    ensures
        plain_key("COMPOSERSORT"@),
        with_entry(tags, "COMPOSERSORT"@,
            value) == (TagsView { sort_composer: TagOption::Present(value), ..tags }),
{
    reveal(with_entry);
    reveal_strlit("TITLE");
    reveal_strlit("ALBUM");
    reveal_strlit("ARTIST");
    reveal_strlit("ALBUMARTIST");
    reveal_strlit("COMPOSER");
    reveal_strlit("GROUPING");
    reveal_strlit("GENRE");
    reveal_strlit("DATE");
    reveal_strlit("TRACKNUMBER");
    reveal_strlit("TRACKTOTAL");
    reveal_strlit("DISCNUMBER");
    reveal_strlit("DISCTOTAL");
    reveal_strlit("BPM");
    reveal_strlit("COMPILATION");
    reveal_strlit("COMMENT");
    reveal_strlit("TITLESORT");
    reveal_strlit("ALBUMSORT");
    reveal_strlit("ARTISTSORT");
    reveal_strlit("ALBUMARTISTSORT");
    reveal_strlit("COMPOSERSORT");
    reveal_strlit("METADATA_BLOCK_PICTURE");
    let key = "COMPOSERSORT"@;
    assert(key.len() == 12);
    assert(key[0] == 'C' && key[1] == 'O' && key[2] == 'M' && key[3] == 'P' && key[4] == 'O'
        && key[5] == 'S' && key[6] == 'E' && key[7] == 'R' && key[8] == 'S' && key[9] == 'O'
        && key[10] == 'R' && key[11] == 'T');
}

/// `DATE` is a key of letters, and what an entry with it does to the tags.
pub proof fn lemma_key_date(tags: TagsView, value: Seq<char>)
    ensures
        plain_key("DATE"@),
        with_entry(tags, "DATE"@,
            value) == (TagsView { date: from_option(iso_8601_date(value)), ..tags }),
{
    reveal(with_entry);
    reveal_strlit("TITLE");
    reveal_strlit("ALBUM");
    reveal_strlit("ARTIST");
    reveal_strlit("ALBUMARTIST");
    reveal_strlit("COMPOSER");
    reveal_strlit("GROUPING");
    reveal_strlit("GENRE");
    reveal_strlit("DATE");
    reveal_strlit("TRACKNUMBER");
    reveal_strlit("TRACKTOTAL");
    reveal_strlit("DISCNUMBER");
    reveal_strlit("DISCTOTAL");
    reveal_strlit("BPM");
    reveal_strlit("COMPILATION");
    reveal_strlit("COMMENT");
    reveal_strlit("TITLESORT");
    reveal_strlit("ALBUMSORT");
    reveal_strlit("ARTISTSORT");
    reveal_strlit("ALBUMARTISTSORT");
    reveal_strlit("COMPOSERSORT");
    reveal_strlit("METADATA_BLOCK_PICTURE");
    let key = "DATE"@;
    assert(key.len() == 4);
    assert(key[0] == 'D' && key[1] == 'A' && key[2] == 'T' && key[3] == 'E');
}

/// `TRACKNUMBER` is a key of letters, and what an entry with it does to the tags.
pub proof fn lemma_key_track_number(tags: TagsView, value: Seq<char>)
    ensures
        plain_key("TRACKNUMBER"@),
        with_entry(tags, "TRACKNUMBER"@,
            value) == (TagsView { track_number: with_number(tags.track_number, value), ..tags }),
{
    reveal(with_entry);
    reveal_strlit("TITLE");
    reveal_strlit("ALBUM");
    reveal_strlit("ARTIST");
    reveal_strlit("ALBUMARTIST");
    reveal_strlit("COMPOSER");
    reveal_strlit("GROUPING");
    reveal_strlit("GENRE");
    reveal_strlit("DATE");
    reveal_strlit("TRACKNUMBER");
    reveal_strlit("TRACKTOTAL");
    reveal_strlit("DISCNUMBER");
    reveal_strlit("DISCTOTAL");
    reveal_strlit("BPM");
    reveal_strlit("COMPILATION");
    reveal_strlit("COMMENT");
    reveal_strlit("TITLESORT");
    reveal_strlit("ALBUMSORT");
    reveal_strlit("ARTISTSORT");
    reveal_strlit("ALBUMARTISTSORT");
    reveal_strlit("COMPOSERSORT");
    reveal_strlit("METADATA_BLOCK_PICTURE");
    let key = "TRACKNUMBER"@;
    assert(key.len() == 11);
    assert(key[0] == 'T' && key[1] == 'R' && key[2] == 'A' && key[3] == 'C' && key[4] == 'K'
        && key[5] == 'N' && key[6] == 'U' && key[7] == 'M' && key[8] == 'B' && key[9] == 'E'
        && key[10] == 'R');
}

/// `TRACKTOTAL` is a key of letters, and what an entry with it does to the tags.
pub proof fn lemma_key_track_total(tags: TagsView, value: Seq<char>)
    ensures
        plain_key("TRACKTOTAL"@),
        with_entry(tags, "TRACKTOTAL"@,
            value) == (TagsView { track_total: with_number(tags.track_total, value), ..tags }),
{
    reveal(with_entry);
    reveal_strlit("TITLE");
    reveal_strlit("ALBUM");
    reveal_strlit("ARTIST");
    reveal_strlit("ALBUMARTIST");
    reveal_strlit("COMPOSER");
    reveal_strlit("GROUPING");
    reveal_strlit("GENRE");
    reveal_strlit("DATE");
    reveal_strlit("TRACKNUMBER");
    reveal_strlit("TRACKTOTAL");
    reveal_strlit("DISCNUMBER");
    reveal_strlit("DISCTOTAL");
    reveal_strlit("BPM");
    reveal_strlit("COMPILATION");
    reveal_strlit("COMMENT");
    reveal_strlit("TITLESORT");
    reveal_strlit("ALBUMSORT");
    reveal_strlit("ARTISTSORT");
    reveal_strlit("ALBUMARTISTSORT");
    reveal_strlit("COMPOSERSORT");
    reveal_strlit("METADATA_BLOCK_PICTURE");
    let key = "TRACKTOTAL"@;
    assert(key.len() == 10);
    assert(key[0] == 'T' && key[1] == 'R' && key[2] == 'A' && key[3] == 'C' && key[4] == 'K'
        && key[5] == 'T' && key[6] == 'O' && key[7] == 'T' && key[8] == 'A' && key[9] == 'L');
}

/// `DISCNUMBER` is a key of letters, and what an entry with it does to the tags.
pub proof fn lemma_key_disc_number(tags: TagsView, value: Seq<char>)
    ensures
        plain_key("DISCNUMBER"@),
        with_entry(tags, "DISCNUMBER"@,
            value) == (TagsView { disc_number: with_number(tags.disc_number, value), ..tags }),
{
    reveal(with_entry);
    reveal_strlit("TITLE");
    reveal_strlit("ALBUM");
    reveal_strlit("ARTIST");
    reveal_strlit("ALBUMARTIST");
    reveal_strlit("COMPOSER");
    reveal_strlit("GROUPING");
    reveal_strlit("GENRE");
    reveal_strlit("DATE");
    reveal_strlit("TRACKNUMBER");
    reveal_strlit("TRACKTOTAL");
    reveal_strlit("DISCNUMBER");
    reveal_strlit("DISCTOTAL");
    reveal_strlit("BPM");
    reveal_strlit("COMPILATION");
    reveal_strlit("COMMENT");
    reveal_strlit("TITLESORT");
    reveal_strlit("ALBUMSORT");
    reveal_strlit("ARTISTSORT");
    reveal_strlit("ALBUMARTISTSORT");
    reveal_strlit("COMPOSERSORT");
    reveal_strlit("METADATA_BLOCK_PICTURE");
    let key = "DISCNUMBER"@;
    assert(key.len() == 10);
    assert(key[0] == 'D' && key[1] == 'I' && key[2] == 'S' && key[3] == 'C' && key[4] == 'N'
        && key[5] == 'U' && key[6] == 'M' && key[7] == 'B' && key[8] == 'E' && key[9] == 'R');
}

/// `DISCTOTAL` is a key of letters, and what an entry with it does to the tags.
pub proof fn lemma_key_disc_total(tags: TagsView, value: Seq<char>)
    ensures
        plain_key("DISCTOTAL"@),
        with_entry(tags, "DISCTOTAL"@,
            value) == (TagsView { disc_total: with_number(tags.disc_total, value), ..tags }),
{
    reveal(with_entry);
    reveal_strlit("TITLE");
    reveal_strlit("ALBUM");
    reveal_strlit("ARTIST");
    reveal_strlit("ALBUMARTIST");
    reveal_strlit("COMPOSER");
    reveal_strlit("GROUPING");
    reveal_strlit("GENRE");
    reveal_strlit("DATE");
    reveal_strlit("TRACKNUMBER");
    reveal_strlit("TRACKTOTAL");
    reveal_strlit("DISCNUMBER");
    reveal_strlit("DISCTOTAL");
    reveal_strlit("BPM");
    reveal_strlit("COMPILATION");
    reveal_strlit("COMMENT");
    reveal_strlit("TITLESORT");
    reveal_strlit("ALBUMSORT");
    reveal_strlit("ARTISTSORT");
    reveal_strlit("ALBUMARTISTSORT");
    reveal_strlit("COMPOSERSORT");
    reveal_strlit("METADATA_BLOCK_PICTURE");
    let key = "DISCTOTAL"@;
    assert(key.len() == 9);
    assert(key[0] == 'D' && key[1] == 'I' && key[2] == 'S' && key[3] == 'C' && key[4] == 'T'
        && key[5] == 'O' && key[6] == 'T' && key[7] == 'A' && key[8] == 'L');
}

/// `BPM` is a key of letters, and what an entry with it does to the tags.
pub proof fn lemma_key_bpm(tags: TagsView, value: Seq<char>)
    ensures
        plain_key("BPM"@),
        with_entry(tags, "BPM"@, value) == (TagsView { bpm: with_number(tags.bpm, value), ..tags }),
{
    reveal(with_entry);
    reveal_strlit("TITLE");
    reveal_strlit("ALBUM");
    reveal_strlit("ARTIST");
    reveal_strlit("ALBUMARTIST");
    reveal_strlit("COMPOSER");
    reveal_strlit("GROUPING");
    reveal_strlit("GENRE");
    reveal_strlit("DATE");
    reveal_strlit("TRACKNUMBER");
    reveal_strlit("TRACKTOTAL");
    reveal_strlit("DISCNUMBER");
    reveal_strlit("DISCTOTAL");
    reveal_strlit("BPM");
    reveal_strlit("COMPILATION");
    reveal_strlit("COMMENT");
    reveal_strlit("TITLESORT");
    reveal_strlit("ALBUMSORT");
    reveal_strlit("ARTISTSORT");
    reveal_strlit("ALBUMARTISTSORT");
    reveal_strlit("COMPOSERSORT");
    reveal_strlit("METADATA_BLOCK_PICTURE");
    let key = "BPM"@;
    assert(key.len() == 3);
    assert(key[0] == 'B' && key[1] == 'P' && key[2] == 'M');
}

/// `COMPILATION` is a key of letters, and what an entry with it does to the tags.
pub proof fn lemma_key_is_compilation(tags: TagsView, value: Seq<char>)
    ensures
        plain_key("COMPILATION"@),
        with_entry(tags, "COMPILATION"@, value) == (TagsView {
                is_compilation: TagOption::Present(
                    lower_ascii(value) == "true"@ || lower_ascii(value) == "1"@,
                ),
                ..tags
            }),
{
    reveal(with_entry);
    reveal_strlit("TITLE");
    reveal_strlit("ALBUM");
    reveal_strlit("ARTIST");
    reveal_strlit("ALBUMARTIST");
    reveal_strlit("COMPOSER");
    reveal_strlit("GROUPING");
    reveal_strlit("GENRE");
    reveal_strlit("DATE");
    reveal_strlit("TRACKNUMBER");
    reveal_strlit("TRACKTOTAL");
    reveal_strlit("DISCNUMBER");
    reveal_strlit("DISCTOTAL");
    reveal_strlit("BPM");
    reveal_strlit("COMPILATION");
    reveal_strlit("COMMENT");
    reveal_strlit("TITLESORT");
    reveal_strlit("ALBUMSORT");
    reveal_strlit("ARTISTSORT");
    reveal_strlit("ALBUMARTISTSORT");
    reveal_strlit("COMPOSERSORT");
    reveal_strlit("METADATA_BLOCK_PICTURE");
    let key = "COMPILATION"@;
    assert(key.len() == 11);
    assert(key[0] == 'C' && key[1] == 'O' && key[2] == 'M' && key[3] == 'P' && key[4] == 'I'
        && key[5] == 'L' && key[6] == 'A' && key[7] == 'T' && key[8] == 'I' && key[9] == 'O'
        && key[10] == 'N');
}

/// Whether a text can be written as a comment and read back: it is not
/// empty and holds no line feed.
pub open spec fn storable_text(field: TagOption<Seq<char>>) -> bool {
    match field {
        TagOption::Present(s) => s.len() > 0 && lacks(s, '\n'),
        TagOption::Mixed => false,
        TagOption::Absent => true,
    }
}

/// Whether a date can be written and read back: its parts follow one
/// another from the year on, each in its digits.
pub open spec fn storable_date(field: TagOption<DateTime>) -> bool {
    match field {
        TagOption::Present(d) => d.well_formed() && d.year is Some,
        TagOption::Mixed => false,
        TagOption::Absent => true,
    }
}

/// Whether the tags can be written as comments and read back as they are,
/// but for the cover: no field is `Mixed`; no text is empty or holds a line
/// feed; a compilation is marked or not spoken of; there is no rating.
#[verifier::opaque]
pub open spec fn storable(t: TagsView) -> bool {
    &&& storable_text(t.title)
    &&& storable_text(t.album)
    &&& storable_text(t.artist)
    &&& storable_text(t.album_artist)
    &&& storable_text(t.composer)
    &&& storable_text(t.grouping)
    &&& storable_text(t.genre)
    &&& storable_date(t.date)
    &&& !(t.track_number is Mixed)
    &&& !(t.track_total is Mixed)
    &&& !(t.disc_number is Mixed)
    &&& !(t.disc_total is Mixed)
    &&& !(t.bpm is Mixed)
    &&& (t.is_compilation is Absent || t.is_compilation == TagOption::Present(true))
    &&& storable_text(t.comment)
    &&& storable_text(t.sort_title)
    &&& storable_text(t.sort_album)
    &&& storable_text(t.sort_artist)
    &&& storable_text(t.sort_album_artist)
    &&& storable_text(t.sort_composer)
    &&& t.rating is Absent
}

/// The field after an entry was read, if one was written for `new`.
pub open spec fn picked<T>(new: TagOption<T>, old: TagOption<T>) -> TagOption<T> {
    if new is Present {
        new
    } else {
        old
    }
}

/// Reading passes over a comment that may have been written.
pub proof fn lemma_comment_comes(
    data: Seq<u8>,
    start: int,
    acc: (Seq<u8>, nat),
    remaining: nat,
    state: (TagsView, bool),
    key: Seq<char>,
    value: Option<Seq<char>>,
    result: (Result<TagsView, ErrorView>, int),
)
    requires
        plain_key(key),
        value is Some ==> lacks(value->0, '\n'),
        listed(acc, comment_of(key, value)).0.len() < 0x1_0000_0000,
        stands_at(listed(acc, comment_of(key, value)).0, data, start),
        comes_to(
            data,
            start + listed(acc, comment_of(key, value)).0.len(),
            remaining,
            match value {
                Some(v) => (with_entry(state.0, key, v), state.1),
                None => state,
            },
            result,
        ),
    ensures
        comes_to(
            data,
            start + acc.0.len(),
            (remaining + listed(acc, comment_of(key, value)).1 - acc.1) as nat,
            state,
            result,
        ),
        stands_at(acc.0, data, start),
        acc.0.len() <= listed(acc, comment_of(key, value)).0.len(),
        acc.1 <= listed(acc, comment_of(key, value)).1,
{
    match value {
        Some(v) => {
            let e = entry(key + "="@ + v);
            lemma_stands_at(acc.0, e, data, start);
            assert(e.len() == 4 + text_bytes(key + "="@ + v).len()) by {
                reveal(entry);
                lemma_le_u32_roundtrip(len32(text_bytes(key + "="@ + v).len()));
            }
            lemma_entry_comes(data, start + acc.0.len(), remaining, state, key, v, result);
        },
        None => {},
    }
}

/// The comment with the given key and value, if there is a value.
pub open spec fn comment_of(key: Seq<char>, value: Option<Seq<char>>) -> Option<Seq<char>> {
    match value {
        Some(v) => Some(key + "="@ + v),
        None => None,
    }
}

/// A number that was written is read into its field.
pub proof fn lemma_number_read(old: TagOption<i64>, n: i64)
    ensures
        with_number(old, decimal_int(n as int)) == TagOption::Present(n),
        lacks(decimal_int(n as int), '\n'),
{
    lemma_parse_decimal(n);
    lemma_decimal_lacks(n as int, '\n');
}

/// A date that was written is read as it was.
pub proof fn lemma_date_read(d: DateTime)
    requires
        d.well_formed(),
        d.year is Some,
    ensures
        from_option(iso_8601_date(iso_8601_text(d))) == TagOption::Present(d),
        iso_8601_text(d).len() > 0,
        lacks(iso_8601_text(d), '\n'),
{
    lemma_iso_8601_roundtrip(d);
    lemma_date_lacks(d, '\n');
}

/// The mark of a compilation is read as one.
pub proof fn lemma_one_read()
    ensures
        lower_ascii("1"@) == "1"@,
        lacks("1"@, '\n'),
{
    reveal_strlit("1");
    assert(lower_ascii("1"@) =~= "1"@);
}

/// The value that is written for a text field.
pub open spec fn text_value(field: TagOption<Seq<char>>) -> Option<Seq<char>> {
    match field {
        TagOption::Present(s) => if s.len() > 0 {
            Some(s)
        } else {
            None
        },
        _ => None,
    }
}

/// The value that is written for a number.
pub open spec fn number_value(field: TagOption<i64>) -> Option<Seq<char>> {
    match field {
        TagOption::Present(n) => Some(decimal_int(n as int)),
        _ => None,
    }
}

/// The value that is written for a date.
pub open spec fn date_value(field: TagOption<DateTime>) -> Option<Seq<char>> {
    match field {
        TagOption::Present(d) => if iso_8601_text(d).len() > 0 {
            Some(iso_8601_text(d))
        } else {
            None
        },
        _ => None,
    }
}

/// The value that is written for the mark of a compilation.
pub open spec fn compilation_value(field: TagOption<bool>) -> Option<Seq<char>> {
    if field == TagOption::Present(true) {
        Some("1"@)
    } else {
        None
    }
}

/// The tags after the comments of the names.
pub open spec fn tags_name(tags: TagsView, t: TagsView) -> TagsView {
    TagsView {
        title: picked(t.title, tags.title),
        album: picked(t.album, tags.album),
        artist: picked(t.artist, tags.artist),
        album_artist: picked(t.album_artist, tags.album_artist),
        composer: picked(t.composer, tags.composer),
        grouping: picked(t.grouping, tags.grouping),
        genre: picked(t.genre, tags.genre),
        ..tags
    }
}

/// Reading passes over these comments and takes them into the tags.
#[verifier::rlimit(50)]
pub proof fn lemma_name_comments_come(
    data: Seq<u8>,
    start: int,
    acc: (Seq<u8>, nat),
    remaining: nat,
    state: (TagsView, bool),
    t: TagsView,
    result: (Result<TagsView, ErrorView>, int),
)
    requires
        storable(t),
        name_comments(acc, t).0.len() < 0x1_0000_0000,
        stands_at(name_comments(acc, t).0, data, start),
        comes_to(
            data,
            start + name_comments(acc, t).0.len(),
            remaining,
            (tags_name(state.0, t), state.1),
            result,
        ),
    ensures
        comes_to(
            data,
            start + acc.0.len(),
            (remaining + name_comments(acc, t).1 - acc.1) as nat,
            state,
            result,
        ),
        stands_at(acc.0, data, start),
        acc.0.len() <= name_comments(acc, t).0.len(),
        acc.1 <= name_comments(acc, t).1,
{
    reveal(name_comments);
    reveal(storable);
    let a0 = acc;
    let s0 = state.0;
    let a1 = listed(a0, text_comment("TITLE"@, t.title));
    let v1 = text_value(t.title);
    assert(text_comment("TITLE"@, t.title) == comment_of("TITLE"@, v1));
    if v1 is Some {
        lemma_key_title(s0, v1->0);
    } else {
        lemma_key_title(s0, Seq::empty());
    }
    let s1 = match v1 {
        Some(v) => with_entry(s0, "TITLE"@, v),
        None => s0,
    };
    let a2 = listed(a1, text_comment("ALBUM"@, t.album));
    let v2 = text_value(t.album);
    assert(text_comment("ALBUM"@, t.album) == comment_of("ALBUM"@, v2));
    if v2 is Some {
        lemma_key_album(s1, v2->0);
    } else {
        lemma_key_album(s1, Seq::empty());
    }
    let s2 = match v2 {
        Some(v) => with_entry(s1, "ALBUM"@, v),
        None => s1,
    };
    let a3 = listed(a2, text_comment("ARTIST"@, t.artist));
    let v3 = text_value(t.artist);
    assert(text_comment("ARTIST"@, t.artist) == comment_of("ARTIST"@, v3));
    if v3 is Some {
        lemma_key_artist(s2, v3->0);
    } else {
        lemma_key_artist(s2, Seq::empty());
    }
    let s3 = match v3 {
        Some(v) => with_entry(s2, "ARTIST"@, v),
        None => s2,
    };
    let a4 = listed(a3, text_comment("ALBUMARTIST"@, t.album_artist));
    let v4 = text_value(t.album_artist);
    assert(text_comment("ALBUMARTIST"@, t.album_artist) == comment_of("ALBUMARTIST"@, v4));
    if v4 is Some {
        lemma_key_album_artist(s3, v4->0);
    } else {
        lemma_key_album_artist(s3, Seq::empty());
    }
    let s4 = match v4 {
        Some(v) => with_entry(s3, "ALBUMARTIST"@, v),
        None => s3,
    };
    let a5 = listed(a4, text_comment("COMPOSER"@, t.composer));
    let v5 = text_value(t.composer);
    assert(text_comment("COMPOSER"@, t.composer) == comment_of("COMPOSER"@, v5));
    if v5 is Some {
        lemma_key_composer(s4, v5->0);
    } else {
        lemma_key_composer(s4, Seq::empty());
    }
    let s5 = match v5 {
        Some(v) => with_entry(s4, "COMPOSER"@, v),
        None => s4,
    };
    let a6 = listed(a5, text_comment("GROUPING"@, t.grouping));
    let v6 = text_value(t.grouping);
    assert(text_comment("GROUPING"@, t.grouping) == comment_of("GROUPING"@, v6));
    if v6 is Some {
        lemma_key_grouping(s5, v6->0);
    } else {
        lemma_key_grouping(s5, Seq::empty());
    }
    let s6 = match v6 {
        Some(v) => with_entry(s5, "GROUPING"@, v),
        None => s5,
    };
    let a7 = listed(a6, text_comment("GENRE"@, t.genre));
    let v7 = text_value(t.genre);
    assert(text_comment("GENRE"@, t.genre) == comment_of("GENRE"@, v7));
    if v7 is Some {
        lemma_key_genre(s6, v7->0);
    } else {
        lemma_key_genre(s6, Seq::empty());
    }
    let s7 = match v7 {
        Some(v) => with_entry(s6, "GENRE"@, v),
        None => s6,
    };
    assert(a7 == name_comments(acc, t));
    assert(s7 == tags_name(state.0, t));
    lemma_comment_comes(data, start, a6, (remaining + a7.1 - a7.1) as nat, (s6, state.1), "GENRE"@,
        v7, result);
    lemma_comment_comes(data, start, a5, (remaining + a7.1 - a6.1) as nat, (s5, state.1),
        "GROUPING"@, v6, result);
    lemma_comment_comes(data, start, a4, (remaining + a7.1 - a5.1) as nat, (s4, state.1),
        "COMPOSER"@, v5, result);
    lemma_comment_comes(data, start, a3, (remaining + a7.1 - a4.1) as nat, (s3, state.1),
        "ALBUMARTIST"@, v4, result);
    lemma_comment_comes(data, start, a2, (remaining + a7.1 - a3.1) as nat, (s2, state.1), "ARTIST"@,
        v3, result);
    lemma_comment_comes(data, start, a1, (remaining + a7.1 - a2.1) as nat, (s1, state.1), "ALBUM"@,
        v2, result);
    lemma_comment_comes(data, start, a0, (remaining + a7.1 - a1.1) as nat, (s0, state.1), "TITLE"@,
        v1, result);
}

/// The tags after the comment and the comments of the sort names.
pub open spec fn tags_sort(tags: TagsView, t: TagsView) -> TagsView {
    TagsView {
        comment: picked(t.comment, tags.comment),
        sort_title: picked(t.sort_title, tags.sort_title),
        sort_album: picked(t.sort_album, tags.sort_album),
        sort_artist: picked(t.sort_artist, tags.sort_artist),
        sort_album_artist: picked(t.sort_album_artist, tags.sort_album_artist),
        sort_composer: picked(t.sort_composer, tags.sort_composer),
        ..tags
    }
}

/// Reading passes over these comments and takes them into the tags.
#[verifier::rlimit(50)]
pub proof fn lemma_sort_comments_come(
    data: Seq<u8>,
    start: int,
    acc: (Seq<u8>, nat),
    remaining: nat,
    state: (TagsView, bool),
    t: TagsView,
    result: (Result<TagsView, ErrorView>, int),
)
    requires
        storable(t),
        sort_comments(acc, t).0.len() < 0x1_0000_0000,
        stands_at(sort_comments(acc, t).0, data, start),
        comes_to(
            data,
            start + sort_comments(acc, t).0.len(),
            remaining,
            (tags_sort(state.0, t), state.1),
            result,
        ),
    ensures
        comes_to(
            data,
            start + acc.0.len(),
            (remaining + sort_comments(acc, t).1 - acc.1) as nat,
            state,
            result,
        ),
        stands_at(acc.0, data, start),
        acc.0.len() <= sort_comments(acc, t).0.len(),
        acc.1 <= sort_comments(acc, t).1,
{
    reveal(sort_comments);
    reveal(storable);
    let a0 = acc;
    let s0 = state.0;
    let a1 = listed(a0, text_comment("COMMENT"@, t.comment));
    let v1 = text_value(t.comment);
    assert(text_comment("COMMENT"@, t.comment) == comment_of("COMMENT"@, v1));
    if v1 is Some {
        lemma_key_comment(s0, v1->0);
    } else {
        lemma_key_comment(s0, Seq::empty());
    }
    let s1 = match v1 {
        Some(v) => with_entry(s0, "COMMENT"@, v),
        None => s0,
    };
    let a2 = listed(a1, text_comment("TITLESORT"@, t.sort_title));
    let v2 = text_value(t.sort_title);
    assert(text_comment("TITLESORT"@, t.sort_title) == comment_of("TITLESORT"@, v2));
    if v2 is Some {
        lemma_key_sort_title(s1, v2->0);
    } else {
        lemma_key_sort_title(s1, Seq::empty());
    }
    let s2 = match v2 {
        Some(v) => with_entry(s1, "TITLESORT"@, v),
        None => s1,
    };
    let a3 = listed(a2, text_comment("ALBUMSORT"@, t.sort_album));
    let v3 = text_value(t.sort_album);
    assert(text_comment("ALBUMSORT"@, t.sort_album) == comment_of("ALBUMSORT"@, v3));
    if v3 is Some {
        lemma_key_sort_album(s2, v3->0);
    } else {
        lemma_key_sort_album(s2, Seq::empty());
    }
    let s3 = match v3 {
        Some(v) => with_entry(s2, "ALBUMSORT"@, v),
        None => s2,
    };
    let a4 = listed(a3, text_comment("ARTISTSORT"@, t.sort_artist));
    let v4 = text_value(t.sort_artist);
    assert(text_comment("ARTISTSORT"@, t.sort_artist) == comment_of("ARTISTSORT"@, v4));
    if v4 is Some {
        lemma_key_sort_artist(s3, v4->0);
    } else {
        lemma_key_sort_artist(s3, Seq::empty());
    }
    let s4 = match v4 {
        Some(v) => with_entry(s3, "ARTISTSORT"@, v),
        None => s3,
    };
    let a5 = listed(a4, text_comment("ALBUMARTISTSORT"@, t.sort_album_artist));
    let v5 = text_value(t.sort_album_artist);
    assert(text_comment("ALBUMARTISTSORT"@, t.sort_album_artist) == comment_of("ALBUMARTISTSORT"@,
        v5));
    if v5 is Some {
        lemma_key_sort_album_artist(s4, v5->0);
    } else {
        lemma_key_sort_album_artist(s4, Seq::empty());
    }
    let s5 = match v5 {
        Some(v) => with_entry(s4, "ALBUMARTISTSORT"@, v),
        None => s4,
    };
    let a6 = listed(a5, text_comment("COMPOSERSORT"@, t.sort_composer));
    let v6 = text_value(t.sort_composer);
    assert(text_comment("COMPOSERSORT"@, t.sort_composer) == comment_of("COMPOSERSORT"@, v6));
    if v6 is Some {
        lemma_key_sort_composer(s5, v6->0);
    } else {
        lemma_key_sort_composer(s5, Seq::empty());
    }
    let s6 = match v6 {
        Some(v) => with_entry(s5, "COMPOSERSORT"@, v),
        None => s5,
    };
    assert(a6 == sort_comments(acc, t));
    assert(s6 == tags_sort(state.0, t));
    lemma_comment_comes(data, start, a5, (remaining + a6.1 - a6.1) as nat, (s5, state.1),
        "COMPOSERSORT"@, v6, result);
    lemma_comment_comes(data, start, a4, (remaining + a6.1 - a5.1) as nat, (s4, state.1),
        "ALBUMARTISTSORT"@, v5, result);
    lemma_comment_comes(data, start, a3, (remaining + a6.1 - a4.1) as nat, (s3, state.1),
        "ARTISTSORT"@, v4, result);
    lemma_comment_comes(data, start, a2, (remaining + a6.1 - a3.1) as nat, (s2, state.1),
        "ALBUMSORT"@, v3, result);
    lemma_comment_comes(data, start, a1, (remaining + a6.1 - a2.1) as nat, (s1, state.1),
        "TITLESORT"@, v2, result);
    lemma_comment_comes(data, start, a0, (remaining + a6.1 - a1.1) as nat, (s0, state.1),
        "COMMENT"@, v1, result);
}

/// The tags after the comments of date, numbers and compilation.
pub open spec fn tags_number(tags: TagsView, t: TagsView) -> TagsView {
    TagsView {
        date: picked(t.date, tags.date),
        track_number: picked(t.track_number, tags.track_number),
        track_total: picked(t.track_total, tags.track_total),
        disc_number: picked(t.disc_number, tags.disc_number),
        disc_total: picked(t.disc_total, tags.disc_total),
        bpm: picked(t.bpm, tags.bpm),
        is_compilation: picked(t.is_compilation, tags.is_compilation),
        ..tags
    }
}

/// Reading passes over these comments and takes them into the tags.
#[verifier::rlimit(60)]
pub proof fn lemma_number_comments_come(
    data: Seq<u8>,
    start: int,
    acc: (Seq<u8>, nat),
    remaining: nat,
    state: (TagsView, bool),
    t: TagsView,
    result: (Result<TagsView, ErrorView>, int),
)
    requires
        storable(t),
        number_comments(acc, t).0.len() < 0x1_0000_0000,
        stands_at(number_comments(acc, t).0, data, start),
        comes_to(
            data,
            start + number_comments(acc, t).0.len(),
            remaining,
            (tags_number(state.0, t), state.1),
            result,
        ),
    ensures
        comes_to(
            data,
            start + acc.0.len(),
            (remaining + number_comments(acc, t).1 - acc.1) as nat,
            state,
            result,
        ),
        stands_at(acc.0, data, start),
        acc.0.len() <= number_comments(acc, t).0.len(),
        acc.1 <= number_comments(acc, t).1,
{
    reveal(number_comments);
    reveal(storable);
    let a0 = acc;
    let s0 = state.0;
    let a1 = listed(a0, date_comment(t.date));
    let v1 = date_value(t.date);
    assert(date_comment(t.date) == comment_of("DATE"@, v1));
    if v1 is Some {
        lemma_key_date(s0, v1->0);
    } else {
        lemma_key_date(s0, Seq::empty());
    }
    let s1 = match v1 {
        Some(v) => with_entry(s0, "DATE"@, v),
        None => s0,
    };
    let a2 = listed(a1, number_comment("TRACKNUMBER"@, t.track_number));
    let v2 = number_value(t.track_number);
    assert(number_comment("TRACKNUMBER"@, t.track_number) == comment_of("TRACKNUMBER"@, v2));
    if v2 is Some {
        lemma_key_track_number(s1, v2->0);
    } else {
        lemma_key_track_number(s1, Seq::empty());
    }
    let s2 = match v2 {
        Some(v) => with_entry(s1, "TRACKNUMBER"@, v),
        None => s1,
    };
    let a3 = listed(a2, number_comment("TRACKTOTAL"@, t.track_total));
    let v3 = number_value(t.track_total);
    assert(number_comment("TRACKTOTAL"@, t.track_total) == comment_of("TRACKTOTAL"@, v3));
    if v3 is Some {
        lemma_key_track_total(s2, v3->0);
    } else {
        lemma_key_track_total(s2, Seq::empty());
    }
    let s3 = match v3 {
        Some(v) => with_entry(s2, "TRACKTOTAL"@, v),
        None => s2,
    };
    let a4 = listed(a3, number_comment("DISCNUMBER"@, t.disc_number));
    let v4 = number_value(t.disc_number);
    assert(number_comment("DISCNUMBER"@, t.disc_number) == comment_of("DISCNUMBER"@, v4));
    if v4 is Some {
        lemma_key_disc_number(s3, v4->0);
    } else {
        lemma_key_disc_number(s3, Seq::empty());
    }
    let s4 = match v4 {
        Some(v) => with_entry(s3, "DISCNUMBER"@, v),
        None => s3,
    };
    let a5 = listed(a4, number_comment("DISCTOTAL"@, t.disc_total));
    let v5 = number_value(t.disc_total);
    assert(number_comment("DISCTOTAL"@, t.disc_total) == comment_of("DISCTOTAL"@, v5));
    if v5 is Some {
        lemma_key_disc_total(s4, v5->0);
    } else {
        lemma_key_disc_total(s4, Seq::empty());
    }
    let s5 = match v5 {
        Some(v) => with_entry(s4, "DISCTOTAL"@, v),
        None => s4,
    };
    let a6 = listed(a5, number_comment("BPM"@, t.bpm));
    let v6 = number_value(t.bpm);
    assert(number_comment("BPM"@, t.bpm) == comment_of("BPM"@, v6));
    if v6 is Some {
        lemma_key_bpm(s5, v6->0);
    } else {
        lemma_key_bpm(s5, Seq::empty());
    }
    let s6 = match v6 {
        Some(v) => with_entry(s5, "BPM"@, v),
        None => s5,
    };
    let a7 = listed(a6, compilation_comment(t.is_compilation));
    let v7 = compilation_value(t.is_compilation);
    assert(compilation_comment(t.is_compilation) == comment_of("COMPILATION"@, v7));
    if v7 is Some {
        lemma_key_is_compilation(s6, v7->0);
    } else {
        lemma_key_is_compilation(s6, Seq::empty());
    }
    let s7 = match v7 {
        Some(v) => with_entry(s6, "COMPILATION"@, v),
        None => s6,
    };
    assert(a7 == number_comments(acc, t));
    lemma_one_read();
    if t.date is Present {
        lemma_date_read(t.date->Present_0);
    }
    if t.track_number is Present {
        lemma_number_read(s1.track_number, t.track_number->Present_0);
    }
    if t.track_total is Present {
        lemma_number_read(s2.track_total, t.track_total->Present_0);
    }
    if t.disc_number is Present {
        lemma_number_read(s3.disc_number, t.disc_number->Present_0);
    }
    if t.disc_total is Present {
        lemma_number_read(s4.disc_total, t.disc_total->Present_0);
    }
    if t.bpm is Present {
        lemma_number_read(s5.bpm, t.bpm->Present_0);
    }
    assert(s1 == TagsView { date: picked(t.date, s0.date), ..s0 });
    assert(s2 == TagsView { track_number: picked(t.track_number, s1.track_number), ..s1 });
    assert(s3 == TagsView { track_total: picked(t.track_total, s2.track_total), ..s2 });
    assert(s4 == TagsView { disc_number: picked(t.disc_number, s3.disc_number), ..s3 });
    assert(s5 == TagsView { disc_total: picked(t.disc_total, s4.disc_total), ..s4 });
    assert(s6 == TagsView { bpm: picked(t.bpm, s5.bpm), ..s5 });
    assert(s7 == TagsView {
        is_compilation: picked(t.is_compilation, s6.is_compilation),
        ..s6
    });
    assert(s7 == tags_number(state.0, t));
    lemma_comment_comes(data, start, a6, (remaining + a7.1 - a7.1) as nat, (s6, state.1),
        "COMPILATION"@, v7, result);
    lemma_comment_comes(data, start, a5, (remaining + a7.1 - a6.1) as nat, (s5, state.1), "BPM"@,
        v6, result);
    lemma_comment_comes(data, start, a4, (remaining + a7.1 - a5.1) as nat, (s4, state.1),
        "DISCTOTAL"@, v5, result);
    lemma_comment_comes(data, start, a3, (remaining + a7.1 - a4.1) as nat, (s3, state.1),
        "DISCNUMBER"@, v4, result);
    lemma_comment_comes(data, start, a2, (remaining + a7.1 - a3.1) as nat, (s2, state.1),
        "TRACKTOTAL"@, v3, result);
    lemma_comment_comes(data, start, a1, (remaining + a7.1 - a2.1) as nat, (s1, state.1),
        "TRACKNUMBER"@, v2, result);
    lemma_comment_comes(data, start, a0, (remaining + a7.1 - a1.1) as nat, (s0, state.1), "DATE"@,
        v1, result);
}

/// The tags without their cover.
pub open spec fn without_cover(t: TagsView) -> TagsView {
    TagsView { front_cover: TagOption::Absent, ..t }
}

/// What the entries of written comments are read into is the tags without
/// their cover.
#[verifier::rlimit(50)]
pub proof fn lemma_tags_read(t: TagsView)
    requires
        storable(t),
    ensures
        tags_sort(tags_number(tags_name(TagsView::none(), t), t), t) == without_cover(t),
{
    reveal(storable);
    let s1 = tags_name(TagsView::none(), t);
    let s2 = tags_number(s1, t);
    let r = tags_sort(s2, t);
    let w = without_cover(t);
    assert(r.title == w.title);
    assert(r.album == w.album);
    assert(r.artist == w.artist);
    assert(r.album_artist == w.album_artist);
    assert(r.composer == w.composer);
    assert(r.grouping == w.grouping);
    assert(r.genre == w.genre);
    assert(r.date == w.date);
    assert(r.track_number == w.track_number);
    assert(r.track_total == w.track_total);
    assert(r.disc_number == w.disc_number);
    assert(r.disc_total == w.disc_total);
    assert(r.bpm == w.bpm);
    assert(r.is_compilation == w.is_compilation);
    assert(r.comment == w.comment);
    assert(r.sort_title == w.sort_title);
    assert(r.sort_album == w.sort_album);
    assert(r.sort_artist == w.sort_artist);
    assert(r.sort_album_artist == w.sort_album_artist);
    assert(r.sort_composer == w.sort_composer);
    assert(r.front_cover == w.front_cover);
    assert(r.rating == w.rating);
}

/// The entries of written comments are read back into the tags.
#[verifier::rlimit(50)]
pub proof fn lemma_entries_read(data: Seq<u8>, start: int, buf: Seq<u8>, t: TagsView)
    requires
        storable(t),
        buf.len() == 4,
        comments_of(t, false).0.len() < 0x1_0000_0000,
        stands_at(comments_of(t, false).0, data, start),
    ensures
        entries_read(data, start, buf, comments_of(t, false).1, (TagsView::none(), false)) == (
            Ok::<TagsView, ErrorView>(without_cover(t)),
            start + comments_of(t, false).0.len(),
        ),
{
    let none = (TagsView::none(), false);
    let a0: (Seq<u8>, nat) = (Seq::empty(), 0);
    let a1 = name_comments(a0, t);
    let a2 = number_comments(a1, t);
    let a3 = sort_comments(a2, t);
    assert(picture_comment(t.front_cover, false) is None) by {
        reveal(picture_comment);
    }
    assert(comments_of(t, false) == a3);
    let s1 = tags_name(none.0, t);
    let s2 = tags_number(s1, t);
    let s3 = tags_sort(s2, t);
    lemma_tags_read(t);
    let result = (Ok::<TagsView, ErrorView>(s3), start + a3.0.len());
    assert(comes_to(data, start + a3.0.len(), 0, (s3, false), result)) by {
        reveal(comes_to);
    }
    lemma_sort_comments_come(data, start, a2, 0, (s2, false), t, result);
    lemma_number_comments_come(data, start, a1, (a3.1 - a2.1) as nat, (s1, false), t, result);
    lemma_name_comments_come(data, start, a0, (a3.1 - a1.1) as nat, none, t, result);
    assert(comes_to(data, start, a3.1, none, result));
    reveal(comes_to);
}

/// The bytes of the name that the library gives itself.
pub proof fn lemma_vendor()
    ensures
        text_bytes(vendor()).len() == 19,
{
    reveal_strlit("neguse-taglib 0.1.0");
    assert(vstd::utf8::is_ascii_chars(vendor()));
    vstd::utf8::is_ascii_chars_encode_utf8(vendor());
}

/// There are at most seven comments of names.
pub proof fn lemma_name_count(acc: (Seq<u8>, nat), t: TagsView)
    ensures
        name_comments(acc, t).1 <= acc.1 + 7,
{
    reveal(name_comments);
}

/// There are at most seven comments of date, numbers and compilation.
pub proof fn lemma_number_count(acc: (Seq<u8>, nat), t: TagsView)
    ensures
        number_comments(acc, t).1 <= acc.1 + 7,
{
    reveal(number_comments);
}

/// There are at most six comments of the comment and the sort names.
pub proof fn lemma_sort_count(acc: (Seq<u8>, nat), t: TagsView)
    ensures
        sort_comments(acc, t).1 <= acc.1 + 6,
{
    reveal(sort_comments);
}

/// No more comments are written than there are fields.
pub proof fn lemma_count(t: TagsView)
    ensures
        comments_of(t, false).1 <= 20,
{
    let a0: (Seq<u8>, nat) = (Seq::empty(), 0);
    let a1 = name_comments(a0, t);
    let a2 = number_comments(a1, t);
    lemma_name_count(a0, t);
    lemma_number_count(a1, t);
    lemma_sort_count(a2, t);
    assert(picture_comment(t.front_cover, false) is None) by {
        reveal(picture_comment);
    }
}

/// Written comments, with anything behind them, are read back as the tags
/// that were written, without their cover, if the tags are such as can be
/// stored.
#[verifier::rlimit(50)]
pub proof fn lemma_comments_read(data: Seq<u8>, pos: int, t: TagsView)
    requires
        storable(t),
        comments_written(t, false).len() < 0x1_0000_0000,
        stands_at(comments_written(t, false), data, pos),
        data.len() <= u64::MAX,
    ensures
        comments_at(data, pos) == (
            Ok::<TagsView, ErrorView>(without_cover(t)),
            pos + comments_written(t, false).len(),
        ),
{
    reveal(entry);
    lemma_vendor();
    lemma_count(t);
    let vb = text_bytes(vendor());
    let head = entry(vendor());
    let list = comments_of(t, false);
    let count = le_bytes_u32(len32(list.1));
    let vc = comments_written(t, false);
    assert(vc == head + count + list.0);
    lemma_le_u32_roundtrip(19);
    lemma_le_u32_roundtrip(len32(list.1));
    assert(head == le_bytes_u32(19) + vb);
    lemma_stands_at(head + count, list.0, data, pos);
    lemma_stands_at(head, count, data, pos);
    lemma_stands_at(le_bytes_u32(19), vb, data, pos);
    let zeros = seq![0u8, 0u8, 0u8, 0u8];
    lemma_length_read(data, pos, zeros, 19);
    let b1 = read_over(zeros, 0, data, pos);
    lemma_length_read(data, pos + 23, b1, len32(list.1));
    let b2 = read_over(b1, 0, data, pos + 23);
    lemma_entries_read(data, pos + 27, b2, t);
}

} // verus!
