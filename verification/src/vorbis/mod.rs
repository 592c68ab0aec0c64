//! Vorbis comments: a vendor string and a list of `KEY=value` entries.
use vstd::prelude::*;

pub mod roundtrip;

use vstd::slice::slice_subrange;
use crate::flac::get_picture_block;
use crate::flac::len32;
use crate::flac::len_u32;
use crate::flac::picture_block_at;
use crate::flac::picture_block_of;
use crate::flac::read_image;
use crate::id3v2::append_bytes;
use crate::id3v2::get::with_number;
use crate::id3v2::read::text_bytes;
use crate::store::avail;
use crate::store::read_filled;
use crate::store::read_over;
use crate::store::seek_target;
use crate::store::Store;
use crate::tools::decode_int_le_u32;
use crate::tools::encode_int_le_u32;
use crate::tools::le_bytes_u32;
use crate::tools::le_value;
use crate::tools::lemma_le_value_bound;
use crate::tools::text::chars_of;
use crate::tools::text::decimal_int;
use crate::tools::text::eq_lower_ascii;
use crate::tools::text::i64_to_string;
use crate::tools::text::lower_ascii;
use crate::tools::text::parse_i64_str;
use crate::tools::text::push_char;
use crate::tools::text::str_eq;
use crate::tools::text::upper_char;
use crate::types::datetime::iso_8601_date;
use crate::types::datetime::iso_8601_text;
use crate::types::datetime::DateTime;
use crate::types::image::Image;
use crate::types::image::ImageView;
use crate::types::tags::from_option;
use crate::types::tags::TagOption;
use crate::types::tags::Tags;
use crate::types::tags::TagsView;
use crate::Error;
use crate::ErrorView;

verus! {

/// The text of `bytes` as std reads UTF-8 when it puts U+FFFD in place of
/// what is malformed.
pub uninterp spec fn utf8_lossy(bytes: Seq<u8>) -> Seq<char>;

/// `bytes` in base64 with the standard alphabet and padding, as the
/// `base64` crate writes it.
pub uninterp spec fn base64_text(bytes: Seq<u8>) -> Seq<char>;

/// The bytes that the `base64` crate reads from `text`, none where it
/// refuses the text.
pub uninterp spec fn base64_bytes(text: Seq<char>) -> Option<Seq<u8>>;

/// `String::from_utf8_lossy` of std: the text is a function of the bytes,
/// and well-formed UTF-8 is read as the characters it encodes.
#[verifier::external_body]
fn from_utf8_lossy(bytes: &[u8]) -> (r: String)
    ensures
        r@ == utf8_lossy(bytes@),
        vstd::utf8::valid_utf8(bytes@) ==> r@ == vstd::utf8::decode_utf8(bytes@),
{
    String::from_utf8_lossy(bytes).into_owned()
}

/// `encode` of the `base64` crate: the text is a function of the bytes.
#[verifier::external_body]
fn base64_encode(bytes: &[u8]) -> (r: String)
    ensures
        r@ == base64_text(bytes@),
{
    base64::encode(bytes)
}

/// `decode` of the `base64` crate: the bytes are a function of the text.
#[verifier::external_body]
fn base64_decode(text: &str) -> (r: Option<Vec<u8>>)
    ensures
        crate::id3v2::opt_view(r) == base64_bytes(text@),
{
    base64::decode(text).ok()
}

/// What the library names itself in the comments it writes.
pub open spec fn vendor() -> Seq<char> {
    "neguse-taglib 0.1.0"@
}

/// Whether `b` may stand in the key of an entry: printable ASCII but `=`
/// and `~`.
pub open spec fn is_key_byte(b: u8) -> bool {
    (0x20 <= b <= 0x3C) || (0x3E <= b <= 0x7D)
}

/// The index of the first byte of `bytes` from `from` on that may not
/// stand in a key; the length if there is none.
pub open spec fn key_end(bytes: Seq<u8>, from: int) -> int
    decreases
            (if from < bytes.len() {
                bytes.len() - from
            } else {
                0
            }),
{
    if from < 0 || from >= bytes.len() {
        bytes.len() as int
    } else if !is_key_byte(bytes[from]) {
        from
    } else {
        key_end(bytes, from + 1)
    }
}

/// The key of an entry in upper case: the characters of its bytes.
pub open spec fn key_text(bytes: Seq<u8>) -> Seq<char> {
    Seq::new(bytes.len(), |i: int| upper_char(bytes[i] as char))
}

/// The text of the value `bytes` of an entry: the characters that
/// well-formed UTF-8 encodes; for other bytes what std makes of them.
pub open spec fn value_text(bytes: Seq<u8>) -> Seq<char> {
    if vstd::utf8::valid_utf8(bytes) {
        vstd::utf8::decode_utf8(bytes)
    } else {
        utf8_lossy(bytes)
    }
}

/// Key and value of the entry `bytes`: a key of one byte or more, `=`, and
/// the value, which is text in UTF-8 without a line feed. None for anything
/// else.
pub open spec fn entry_of(bytes: Seq<u8>) -> Option<(Seq<char>, Seq<char>)> {
    let k = key_end(bytes, 0);
    if k == 0 || k >= bytes.len() || bytes[k] != 0x3D {
        None
    } else {
        let value = value_text(bytes.skip(k + 1));
        if value.contains('\n') {
            None
        } else {
            Some((key_text(bytes.subrange(0, k)), value))
        }
    }
}

/// Whether `s` holds a line feed.
fn has_line_feed(s: &str) -> (r: bool)
    ensures
        r == s@.contains('\n'),
{
    let chars = chars_of(s);
    let mut i: usize = 0;
    while i < chars.len()
        invariant
            i <= chars@.len(),
            chars@ == s@,
            forall|k: int| 0 <= k < i ==> chars@[k] != '\n',
        decreases chars@.len() - i,
    {
        if chars[i] == '\n' {
            return true;
        }
        i = i + 1;
    }
    false
}

/// Splits an entry into its key, in upper case, and its value.
pub fn collect_tag(input: &[u8]) -> (r: Option<(String, String)>)
    ensures
        (match r {
            Some((key, value)) => Some((key@, value@)),
            None => None,
        }) == entry_of(input@),
{
    let n: usize = input.len();
    let mut key = String::new();
    let mut k: usize = 0;
    while k < n && ((0x20 <= input[k] && input[k] <= 0x3C) || (0x3E <= input[k] && input[k]
        <= 0x7D))
        invariant
            k <= n,
            n == input@.len(),
            key_end(input@, k as int) == key_end(input@, 0),
            key@ == key_text(input@.subrange(0, k as int)),
        decreases n - k,
    {
        let b: u8 = input[k];
        let c: char = if 0x61 <= b && b <= 0x7A {
            (b - 32) as char
        } else {
            b as char
        };
        push_char(&mut key, c);
        k = k + 1;
        proof {
            assert(key@ =~= key_text(input@.subrange(0, k as int)));
        }
    }
    if k == 0 || k >= n || input[k] != 0x3D {
        return None;
    }
    let rest = slice_subrange(input, k + 1, n);
    proof {
        assert(rest@ =~= input@.skip(k + 1));
    }
    let value = from_utf8_lossy(rest);
    if has_line_feed(value.as_str()) {
        return None;
    }
    Some((key, value))
}

/// The tags after an entry with the given key and value. A date that
/// cannot be read clears the date; a number that cannot be read changes
/// nothing; an unknown key changes nothing.
#[verifier::opaque]
pub open spec fn with_entry(tags: TagsView, key: Seq<char>, value: Seq<char>) -> TagsView {
    if key == "TITLE"@ {
        TagsView { title: TagOption::Present(value), ..tags }
    } else if key == "ALBUM"@ {
        TagsView { album: TagOption::Present(value), ..tags }
    } else if key == "ARTIST"@ {
        TagsView { artist: TagOption::Present(value), ..tags }
    } else if key == "ALBUMARTIST"@ {
        TagsView { album_artist: TagOption::Present(value), ..tags }
    } else if key == "COMPOSER"@ {
        TagsView { composer: TagOption::Present(value), ..tags }
    } else if key == "GROUPING"@ {
        TagsView { grouping: TagOption::Present(value), ..tags }
    } else if key == "GENRE"@ {
        TagsView { genre: TagOption::Present(value), ..tags }
    } else if key == "DATE"@ {
        TagsView { date: from_option(iso_8601_date(value)), ..tags }
    } else if key == "TRACKNUMBER"@ {
        TagsView { track_number: with_number(tags.track_number, value), ..tags }
    } else if key == "TRACKTOTAL"@ {
        TagsView { track_total: with_number(tags.track_total, value), ..tags }
    } else if key == "DISCNUMBER"@ {
        TagsView { disc_number: with_number(tags.disc_number, value), ..tags }
    } else if key == "DISCTOTAL"@ {
        TagsView { disc_total: with_number(tags.disc_total, value), ..tags }
    } else if key == "BPM"@ {
        TagsView { bpm: with_number(tags.bpm, value), ..tags }
    } else if key == "COMPILATION"@ {
        TagsView {
            is_compilation: TagOption::Present(
                lower_ascii(value) == "true"@ || lower_ascii(value) == "1"@,
            ),
            ..tags
        }
    } else if key == "COMMENT"@ {
        TagsView { comment: TagOption::Present(value), ..tags }
    } else if key == "TITLESORT"@ {
        TagsView { sort_title: TagOption::Present(value), ..tags }
    } else if key == "ALBUMSORT"@ {
        TagsView { sort_album: TagOption::Present(value), ..tags }
    } else if key == "ARTISTSORT"@ {
        TagsView { sort_artist: TagOption::Present(value), ..tags }
    } else if key == "ALBUMARTISTSORT"@ {
        TagsView { sort_album_artist: TagOption::Present(value), ..tags }
    } else if key == "COMPOSERSORT"@ {
        TagsView { sort_composer: TagOption::Present(value), ..tags }
    } else {
        tags
    }
}

/// Puts the value of an entry into the field that its key stands for.
fn set_entry(tags: &mut Tags, key: &str, value: String)
    ensures
        final(tags)@ == with_entry(old(tags)@, key@, value@),
{
    reveal(with_entry);
    if str_eq(key, "TITLE") {
        tags.title = TagOption::Present(value);
    } else if str_eq(key, "ALBUM") {
        tags.album = TagOption::Present(value);
    } else if str_eq(key, "ARTIST") {
        tags.artist = TagOption::Present(value);
    } else if str_eq(key, "ALBUMARTIST") {
        tags.album_artist = TagOption::Present(value);
    } else if str_eq(key, "COMPOSER") {
        tags.composer = TagOption::Present(value);
    } else if str_eq(key, "GROUPING") {
        tags.grouping = TagOption::Present(value);
    } else if str_eq(key, "GENRE") {
        tags.genre = TagOption::Present(value);
    } else if str_eq(key, "DATE") {
        tags.date = TagOption::from(DateTime::from_iso_8601(value.as_str()));
    } else if str_eq(key, "TRACKNUMBER") {
        if let Some(x) = parse_i64_str(value.as_str()) {
            tags.track_number = TagOption::Present(x);
        }
    } else if str_eq(key, "TRACKTOTAL") {
        if let Some(x) = parse_i64_str(value.as_str()) {
            tags.track_total = TagOption::Present(x);
        }
    } else if str_eq(key, "DISCNUMBER") {
        if let Some(x) = parse_i64_str(value.as_str()) {
            tags.disc_number = TagOption::Present(x);
        }
    } else if str_eq(key, "DISCTOTAL") {
        if let Some(x) = parse_i64_str(value.as_str()) {
            tags.disc_total = TagOption::Present(x);
        }
    } else if str_eq(key, "BPM") {
        if let Some(x) = parse_i64_str(value.as_str()) {
            tags.bpm = TagOption::Present(x);
        }
    } else if str_eq(key, "COMPILATION") {
        tags.is_compilation = TagOption::Present(
            eq_lower_ascii(value.as_str(), "true") || eq_lower_ascii(value.as_str(), "1"),
        );
    } else if str_eq(key, "COMMENT") {
        tags.comment = TagOption::Present(value);
    } else if str_eq(key, "TITLESORT") {
        tags.sort_title = TagOption::Present(value);
    } else if str_eq(key, "ALBUMSORT") {
        tags.sort_album = TagOption::Present(value);
    } else if str_eq(key, "ARTISTSORT") {
        tags.sort_artist = TagOption::Present(value);
    } else if str_eq(key, "ALBUMARTISTSORT") {
        tags.sort_album_artist = TagOption::Present(value);
    } else if str_eq(key, "COMPOSERSORT") {
        tags.sort_composer = TagOption::Present(value);
    }
}

/// The tags after a picture that gave `image` with the picture type `kind`.
pub open spec fn with_cover(state: (TagsView, bool), image: ImageView, kind: u32) -> (
    TagsView,
    bool,
) {
    if kind == 0x03 || !state.1 {
        (TagsView { front_cover: TagOption::Present(image), ..state.0 }, kind == 0x03)
    } else {
        state
    }
}

/// The tags after `remaining` entries from `pos` on, and where the cursor
/// stands then; `state` holds the tags so far and whether their cover is a
/// front cover, `buf` what the length field held last. An entry with the
/// key `METADATA_BLOCK_PICTURE` holds a picture block in base64.
pub open spec fn entries_read(
    data: Seq<u8>,
    pos: int,
    buf: Seq<u8>,
    remaining: nat,
    state: (TagsView, bool),
) -> (Result<TagsView, ErrorView>, int)
    decreases remaining,
{
    if remaining == 0 {
        (Ok(state.0), pos)
    } else {
        let n = data.len() as int;
        let b = read_over(buf, 0, data, pos);
        let at1 = pos + avail(n, pos, 4);
        let len = le_value(b) as u32;
        let entry = read_filled(data, at1, len as int, 0);
        let at2 = at1 + avail(n, at1, len as int);
        match entry_of(entry) {
            None => entries_read(data, at2, b, (remaining - 1) as nat, state),
            Some((key, value)) => if key == "METADATA_BLOCK_PICTURE"@ {
                match base64_bytes(value) {
                    None => entries_read(data, at2, b, (remaining - 1) as nat, state),
                    Some(block) => match picture_block_at(block, 0, len32(block.len())).0 {
                        Err(e) => (Err(e), at2),
                        Ok((image, kind)) => entries_read(
                            data,
                            at2,
                            b,
                            (remaining - 1) as nat,
                            with_cover(state, image, kind),
                        ),
                    },
                }
            } else {
                entries_read(
                    data,
                    at2,
                    b,
                    (remaining - 1) as nat,
                    (with_entry(state.0, key, value), state.1),
                )
            },
        }
    }
}

/// The tags of the comments at `pos`, and where the cursor stands after
/// them: the vendor string is passed over, then as many entries are read as
/// the count says.
pub open spec fn comments_at(data: Seq<u8>, pos: int) -> (Result<TagsView, ErrorView>, int) {
    let n = data.len() as int;
    let b1 = read_over(seq![0u8, 0u8, 0u8, 0u8], 0, data, pos);
    let at1 = pos + avail(n, pos, 4);
    match seek_target(at1, le_value(b1) as int) {
        None => (Err(ErrorView::IOError), at1),
        Some(at2) => {
            let b2 = read_over(b1, 0, data, at2 as int);
            let at3 = at2 + avail(n, at2 as int, 4);
            entries_read(data, at3, b2, le_value(b2), (TagsView::none(), false))
        },
    }
}

/// Reads the four bytes of a length, the least significant first.
fn read_length(input: &mut Store, buf: &mut Vec<u8>) -> (r: u32)
    requires
        old(buf)@.len() == 4,
    ensures
        final(buf)@ == read_over(old(buf)@, 0, old(input).data@, old(input).pos as int),
        final(buf)@.len() == 4,
        r == le_value(final(buf)@),
        final(input).data == old(input).data,
        final(input).pos == old(input).pos + avail(
            old(input).data@.len() as int,
            old(input).pos as int,
            4,
        ),
{
    input.read(buf);
    proof {
        lemma_le_value_bound(buf@);
    }
    decode_int_le_u32(buf.as_slice())
}

/// Reads Vorbis comments into tags.
pub fn get_tags(input: &mut Store) -> (r: Result<Tags, Error>)
    ensures
        crate::view_result(r) == comments_at(old(input).data@, old(input).pos as int).0,
        final(input).pos == comments_at(old(input).data@, old(input).pos as int).1,
        final(input).data == old(input).data,
{
    let mut buf: Vec<u8> = vec![0u8; 4];
    proof {
        assert(buf@ =~= seq![0u8, 0u8, 0u8, 0u8]);
    }
    let len = read_length(input, &mut buf);
    match input.seek_current(len as i64) {
        Ok(_) => {},
        Err(e) => {
            return Err(e);
        },
    }
    let count = read_length(input, &mut buf);
    let mut tags = Tags::none();
    let mut found_best_cover: bool = false;
    let ghost target = entries_read(
        input.data@,
        input.pos as int,
        buf@,
        count as nat,
        (tags@, found_best_cover),
    );
    let mut i: u32 = 0;
    while i < count
        invariant
            i <= count,
            buf@.len() == 4,
            input.data == old(input).data,
            comments_at(old(input).data@, old(input).pos as int) == target,
            entries_read(
                input.data@,
                input.pos as int,
                buf@,
                (count - i) as nat,
                (tags@, found_best_cover),
            ) == target,
        decreases count - i,
    {
        let len = read_length(input, &mut buf);
        let vec = input.read_filled(len as usize, 0);
        i = i + 1;
        if let Some((key, value)) = collect_tag(vec.as_slice()) {
            if str_eq(key.as_str(), "METADATA_BLOCK_PICTURE") {
                if let Some(block) = base64_decode(value.as_str()) {
                    let l = len_u32(block.len());
                    let mut inner = Store::new(block);
                    match read_image(&mut inner, l) {
                        Ok((img, apic_type)) => {
                            if apic_type == 0x03 || !found_best_cover {
                                tags.front_cover = TagOption::Present(img);
                                found_best_cover = apic_type == 0x03;
                            }
                        },
                        Err(e) => {
                            return Err(e);
                        },
                    }
                }
            } else {
                set_entry(&mut tags, key.as_str(), value);
            }
        }
    }
    Ok(tags)
}

/// An entry: the length of the text in four bytes, least significant
/// first, and the text in UTF-8.
#[verifier::opaque]
pub open spec fn entry(text: Seq<char>) -> Seq<u8> {
    le_bytes_u32(len32(text_bytes(text).len())) + text_bytes(text)
}

/// The list after the comment `c`, if there is one: its entry more, and
/// one more in the count.
pub open spec fn listed(acc: (Seq<u8>, nat), c: Option<Seq<char>>) -> (Seq<u8>, nat) {
    match c {
        Some(text) => (acc.0 + entry(text), acc.1 + 1),
        None => acc,
    }
}

/// The comment of a text field: `KEY=value` for a value that is not empty.
pub open spec fn text_comment(key: Seq<char>, field: TagOption<Seq<char>>) -> Option<Seq<char>> {
    match field {
        TagOption::Present(t) => if t.len() > 0 {
            Some(key + "="@ + t)
        } else {
            None
        },
        _ => None,
    }
}

/// The comment of a number.
pub open spec fn number_comment(key: Seq<char>, field: TagOption<i64>) -> Option<Seq<char>> {
    match field {
        TagOption::Present(n) => Some(key + "="@ + decimal_int(n as int)),
        _ => None,
    }
}

/// The comment of a date of which at least the year is known.
pub open spec fn date_comment(field: TagOption<DateTime>) -> Option<Seq<char>> {
    match field {
        TagOption::Present(d) => if iso_8601_text(d).len() > 0 {
            Some("DATE"@ + "="@ + iso_8601_text(d))
        } else {
            None
        },
        _ => None,
    }
}

/// The comment that marks a compilation.
pub open spec fn compilation_comment(field: TagOption<bool>) -> Option<Seq<char>> {
    if field == TagOption::Present(true) {
        Some("COMPILATION"@ + "="@ + "1"@)
    } else {
        None
    }
}

/// The comment of a cover, where one is asked for: its picture block in
/// base64. An image without a picture block has none.
#[verifier::opaque]
pub open spec fn picture_comment(field: TagOption<ImageView>, include_image: bool) -> Option<
    Seq<char>,
> {
    match field {
        TagOption::Present(image) => match picture_block_of(image) {
            Ok(block) => if include_image {
                Some("METADATA_BLOCK_PICTURE"@ + "="@ + base64_text(block))
            } else {
                None
            },
            Err(_) => None,
        },
        _ => None,
    }
}

/// The entry of `key` and `value`, with `=` between them.
fn joined(key: &str, value: &str) -> (r: String)
    ensures
        r@ == key@ + "="@ + value@,
{
    let mut s = String::from_str(key);
    s.append("=");
    s.append(value);
    s
}

/// The entry for a text field, if it holds a text that is not empty.
fn text_entry(key: &str, field: &TagOption<String>) -> (r: Option<String>)
    ensures
        opt_text(r) == text_comment(key@, field@),
{
    match field {
        TagOption::Present(t) => {
            if t.as_str().is_empty() {
                None
            } else {
                Some(joined(key, t.as_str()))
            }
        },
        _ => None,
    }
}

/// The characters of an optional string.
pub open spec fn opt_text(s: Option<String>) -> Option<Seq<char>> {
    match s {
        Some(s) => Some(s@),
        None => None,
    }
}

/// The entry for a number, if it is present.
fn number_entry(key: &str, field: &TagOption<i64>) -> (r: Option<String>)
    ensures
        opt_text(r) == number_comment(key@, *field),
{
    match field {
        TagOption::Present(n) => {
            let text = i64_to_string(*n);
            Some(joined(key, text.as_str()))
        },
        _ => None,
    }
}

/// The entry for the date, if at least its year is known.
fn date_entry(field: &TagOption<DateTime>) -> (r: Option<String>)
    ensures
        opt_text(r) == date_comment(*field),
{
    match field {
        TagOption::Present(d) => {
            let text = d.to_iso_8601();
            if text.as_str().is_empty() {
                None
            } else {
                Some(joined("DATE", text.as_str()))
            }
        },
        _ => None,
    }
}

/// The entry that marks a compilation, if the tags are marked so.
fn compilation_entry(field: &TagOption<bool>) -> (r: Option<String>)
    ensures
        opt_text(r) == compilation_comment(*field),
{
    match field {
        TagOption::Present(true) => Some(joined("COMPILATION", "1")),
        _ => None,
    }
}

/// The entry for the cover, if pictures are included and it holds an image.
fn picture_entry(field: &TagOption<Image>, include_image: bool) -> (r: Option<String>)
    ensures
        opt_text(r) == picture_comment(field@, include_image),
{
    reveal(picture_comment);
    reveal(picture_block_of);
    match field {
        TagOption::Present(i) => {
            if include_image && i.is_some() {
                match get_picture_block(i) {
                    Ok(block) => {
                        let img = base64_encode(block.as_slice());
                        Some(joined("METADATA_BLOCK_PICTURE", img.as_str()))
                    },
                    Err(_) => None,
                }
            } else {
                None
            }
        },
        _ => None,
    }
}

/// The bytes of an entry: its length, then its text.
fn entry_bytes(text: &str) -> (r: Vec<u8>)
    ensures
        r@ == entry(text@),
{
    reveal(entry);
    let bytes = text.as_bytes();
    let mut r = encode_int_le_u32(len_u32(bytes.len()));
    append_bytes(&mut r, bytes);
    r
}

/// Appends an entry, if there is one, and counts it.
fn push_comment(vec: &mut Vec<u8>, cc: &mut u32, c: Option<String>)
    requires
        *old(cc) < u32::MAX,
    ensures
        (final(vec)@, *final(cc) as nat) == listed((old(vec)@, *old(cc) as nat), opt_text(c)),
        *final(cc) <= *old(cc) + 1,
{
    if let Some(text) = c {
        let bytes = entry_bytes(text.as_str());
        append_bytes(vec, bytes.as_slice());
        *cc = *cc + 1;
    }
}

/// After `acc`, the comments of the names.
#[verifier::opaque]
pub open spec fn name_comments(acc: (Seq<u8>, nat), t: TagsView) -> (Seq<u8>, nat) {
    let acc = listed(acc, text_comment("TITLE"@, t.title));
    let acc = listed(acc, text_comment("ALBUM"@, t.album));
    let acc = listed(acc, text_comment("ARTIST"@, t.artist));
    let acc = listed(acc, text_comment("ALBUMARTIST"@, t.album_artist));
    let acc = listed(acc, text_comment("COMPOSER"@, t.composer));
    let acc = listed(acc, text_comment("GROUPING"@, t.grouping));
    let acc = listed(acc, text_comment("GENRE"@, t.genre));
    acc
}

/// Appends the entries of the names.
fn push_name_comments(vec: &mut Vec<u8>, cc: &mut u32, t: &Tags)
    requires
        *old(cc) <= 100,
    ensures
        (final(vec)@, *final(cc) as nat) == name_comments((old(vec)@, *old(cc) as nat), t@),
        *final(cc) <= *old(cc) + 7,
{
    reveal(name_comments);
    push_comment(vec, cc, text_entry("TITLE", &t.title));
    push_comment(vec, cc, text_entry("ALBUM", &t.album));
    push_comment(vec, cc, text_entry("ARTIST", &t.artist));
    push_comment(vec, cc, text_entry("ALBUMARTIST", &t.album_artist));
    push_comment(vec, cc, text_entry("COMPOSER", &t.composer));
    push_comment(vec, cc, text_entry("GROUPING", &t.grouping));
    push_comment(vec, cc, text_entry("GENRE", &t.genre));
}

/// After `acc`, the comments of date, numbers and compilation.
#[verifier::opaque]
pub open spec fn number_comments(acc: (Seq<u8>, nat), t: TagsView) -> (Seq<u8>, nat) {
    let acc = listed(acc, date_comment(t.date));
    let acc = listed(acc, number_comment("TRACKNUMBER"@, t.track_number));
    let acc = listed(acc, number_comment("TRACKTOTAL"@, t.track_total));
    let acc = listed(acc, number_comment("DISCNUMBER"@, t.disc_number));
    let acc = listed(acc, number_comment("DISCTOTAL"@, t.disc_total));
    let acc = listed(acc, number_comment("BPM"@, t.bpm));
    let acc = listed(acc, compilation_comment(t.is_compilation));
    acc
}

/// Appends the entries of date, numbers and compilation.
fn push_number_comments(vec: &mut Vec<u8>, cc: &mut u32, t: &Tags)
    requires
        *old(cc) <= 100,
    ensures
        (final(vec)@, *final(cc) as nat) == number_comments((old(vec)@, *old(cc) as nat), t@),
        *final(cc) <= *old(cc) + 7,
{
    reveal(number_comments);
    push_comment(vec, cc, date_entry(&t.date));
    push_comment(vec, cc, number_entry("TRACKNUMBER", &t.track_number));
    push_comment(vec, cc, number_entry("TRACKTOTAL", &t.track_total));
    push_comment(vec, cc, number_entry("DISCNUMBER", &t.disc_number));
    push_comment(vec, cc, number_entry("DISCTOTAL", &t.disc_total));
    push_comment(vec, cc, number_entry("BPM", &t.bpm));
    push_comment(vec, cc, compilation_entry(&t.is_compilation));
}

/// After `acc`, the comment and the comments of the sort names.
#[verifier::opaque]
pub open spec fn sort_comments(acc: (Seq<u8>, nat), t: TagsView) -> (Seq<u8>, nat) {
    let acc = listed(acc, text_comment("COMMENT"@, t.comment));
    let acc = listed(acc, text_comment("TITLESORT"@, t.sort_title));
    let acc = listed(acc, text_comment("ALBUMSORT"@, t.sort_album));
    let acc = listed(acc, text_comment("ARTISTSORT"@, t.sort_artist));
    let acc = listed(acc, text_comment("ALBUMARTISTSORT"@, t.sort_album_artist));
    let acc = listed(acc, text_comment("COMPOSERSORT"@, t.sort_composer));
    acc
}

/// Appends the entry of the comment and the entries of the sort names.
fn push_sort_comments(vec: &mut Vec<u8>, cc: &mut u32, t: &Tags)
    requires
        *old(cc) <= 100,
    ensures
        (final(vec)@, *final(cc) as nat) == sort_comments((old(vec)@, *old(cc) as nat), t@),
        *final(cc) <= *old(cc) + 6,
{
    reveal(sort_comments);
    push_comment(vec, cc, text_entry("COMMENT", &t.comment));
    push_comment(vec, cc, text_entry("TITLESORT", &t.sort_title));
    push_comment(vec, cc, text_entry("ALBUMSORT", &t.sort_album));
    push_comment(vec, cc, text_entry("ARTISTSORT", &t.sort_artist));
    push_comment(vec, cc, text_entry("ALBUMARTISTSORT", &t.sort_album_artist));
    push_comment(vec, cc, text_entry("COMPOSERSORT", &t.sort_composer));
}

/// The list of the comments of the tags, with how many they are, in the
/// order in which they are written.
pub open spec fn comments_of(t: TagsView, include_image: bool) -> (Seq<u8>, nat) {
    listed(
        sort_comments(number_comments(name_comments((Seq::empty(), 0), t), t), t),
        picture_comment(t.front_cover, include_image),
    )
}

/// The Vorbis comments of the tags: the vendor string, the count of the
/// entries, and the entries of the fields that have a value.
pub open spec fn comments_written(t: TagsView, include_image: bool) -> Seq<u8> {
    entry(vendor()) + le_bytes_u32(len32(comments_of(t, include_image).1)) + comments_of(
        t,
        include_image,
    ).0
}

/// Writes the tags as Vorbis comments, with the cover if `include_image`
/// says so.
#[verifier::rlimit(50)]
pub fn from_tags(tags: &Tags, include_image: bool) -> (r: Vec<u8>)
    ensures
        r@ == comments_written(tags@, include_image),
{
    let mut body: Vec<u8> = Vec::new();
    let mut cc: u32 = 0;
    push_name_comments(&mut body, &mut cc, tags);
    push_number_comments(&mut body, &mut cc, tags);
    push_sort_comments(&mut body, &mut cc, tags);
    push_comment(&mut body, &mut cc, picture_entry(&tags.front_cover, include_image));
    let mut vec = entry_bytes("neguse-taglib 0.1.0");
    let count = encode_int_le_u32(cc);
    append_bytes(&mut vec, count.as_slice());
    append_bytes(&mut vec, body.as_slice());
    vec
}

} // verus!
