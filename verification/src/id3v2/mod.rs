//! ID3v2 tags, versions 2.2 to 2.4.
use vstd::prelude::*;
use crate::id3v1::id3v1_tags;
use crate::id3v2::get::tags_at;
use crate::id3v2::read::header_of;
use crate::id3v2::read::text_bytes;
use crate::id3v2::structure::Header;
use crate::id3v2::tools::encode_synch_int;
use crate::id3v2::tools::synch_bytes;
use crate::id3v2::tools::undo_unsynch;
use crate::id3v2::tools::unsynch_removed;
use crate::store::avail;
use crate::store::read_filled;
use crate::store::rest;
use crate::store::Store;
use crate::tools::tags::delta;
use crate::tools::tags::delta_view;
use crate::tools::text::decimal_int;
use crate::tools::text::i64_to_string;
use crate::types::datetime::iso_8601_text;
use crate::types::datetime::DateTime;
use crate::types::image::Image;
use crate::types::image::ImageView;
use crate::types::tags::TagOption;
use crate::types::tags::Tags;
use crate::types::tags::TagsView;
use crate::Error;
use crate::ErrorView;

pub mod get;
pub mod read;
pub mod roundtrip;
pub mod structure;
pub mod tools;
pub mod track;

verus! {

/// The tags of the frames behind the header `h`, which was read up to
/// `pos`. The versions before 4 unsynchronize the tag as a whole, version 4
/// frame by frame.
#[verifier::opaque]
pub open spec fn internal_tags(data: Seq<u8>, pos: int, h: Header) -> TagsView {
    if h.is_unsynchronized && h.version < 4 {
        tags_at(unsynch_removed(read_filled(data, pos, h.size as int, 0)), 0, h, false).0
    } else if h.is_unsynchronized && h.version == 4 {
        tags_at(data, pos, h, true).0
    } else {
        tags_at(data, pos, h, false).0
    }
}

/// What reading the ID3v2 tag at the start of `data` gives.
pub open spec fn id3v2_tags(data: Seq<u8>) -> Result<TagsView, ErrorView> {
    match header_of(data) {
        Ok(h) => Ok(internal_tags(data, avail(data.len() as int, 0, 10), h)),
        Err(e) => Err(e),
    }
}

/// Reads the frames of the tag whose header was read.
fn get_internal(input: &mut Store, header: &Header) -> (r: Result<Tags, Error>)
    requires
        2 <= header.version <= 4,
    ensures
        r is Ok,
        r->Ok_0@ == internal_tags(old(input).data@, old(input).pos as int, *header),
        final(input).data == old(input).data,
{
    reveal(internal_tags);
    if header.is_unsynchronized && header.version < 4 {
        let mut vec = input.read_filled(header.size as usize, 0);
        undo_unsynch(&mut vec);
        let mut unsynch_input = Store::new(vec);
        get::tags(&mut unsynch_input, header)
    } else if header.is_unsynchronized && header.version == 4 {
        get::tags_unsynch_v4(input, header)
    } else {
        get::tags(input, header)
    }
}

/// Reads the ID3v2 tag at the start of the store.
pub fn get(input: &mut Store) -> (r: Result<Tags, Error>)
    ensures
        crate::view_result(r) == id3v2_tags(old(input).data@),
        final(input).data == old(input).data,
{
    let header = match read::header(input) {
        Ok(h) => h,
        Err(e) => {
            return Err(e);
        },
    };
    get_internal(input, &header)
}

/// A frame of version 4: the id, the synchsafe size of the content, two
/// bytes of flags, which are clear, and the content.
pub open spec fn frame(id: Seq<char>, payload: Seq<u8>) -> Seq<u8> {
    text_bytes(id) + synch_bytes(payload.len() as u32, false) + seq![0u8, 0u8] + payload
}

/// The frame of the content `payload`, nothing where there is none.
pub open spec fn opt_frame(id: Seq<char>, payload: Option<Seq<u8>>) -> Seq<u8> {
    match payload {
        Some(p) => frame(id, p),
        None => Seq::empty(),
    }
}

/// Whether the size of the content can be written: it is below 2^28.
pub open spec fn opt_fits(payload: Option<Seq<u8>>) -> bool {
    match payload {
        Some(p) => p.len() < 0x1000_0000,
        None => true,
    }
}

/// The content of a text frame: the mark of UTF-8, the text, a zero.
pub open spec fn text_payload(text: Seq<char>) -> Seq<u8> {
    seq![3u8] + text_bytes(text) + seq![0u8]
}

/// The content of the text frame of a field, if the field has a value.
pub open spec fn field_payload(field: TagOption<Seq<char>>) -> Option<Seq<u8>> {
    match field {
        TagOption::Present(s) => Some(text_payload(s)),
        _ => None,
    }
}

/// The content of the frame of a number, if there is one.
pub open spec fn number_payload(field: TagOption<i64>) -> Option<Seq<u8>> {
    match field {
        TagOption::Present(n) => Some(text_payload(decimal_int(n as int))),
        _ => None,
    }
}

/// The content of the frame of a date, if there is one.
pub open spec fn date_payload(field: TagOption<DateTime>) -> Option<Seq<u8>> {
    match field {
        TagOption::Present(d) => Some(text_payload(iso_8601_text(d))),
        _ => None,
    }
}

/// The text of a number and its total: `N`, or `N/M` with a total. Without
/// a number there is no text.
pub open spec fn pair_text(number: TagOption<i64>, total: TagOption<i64>) -> Seq<char> {
    match number {
        TagOption::Present(n) => match total {
            TagOption::Present(m) => decimal_int(n as int) + seq!['/'] + decimal_int(m as int),
            _ => decimal_int(n as int),
        },
        _ => Seq::empty(),
    }
}

/// The content of the frame of a number and its total, if the number is
/// known: a total without its number is not written.
pub open spec fn pair_payload(number: TagOption<i64>, total: TagOption<i64>) -> Option<Seq<u8>> {
    if number is Present {
        Some(text_payload(pair_text(number, total)))
    } else {
        None
    }
}

/// The content of the frame that marks a compilation.
pub open spec fn compilation_payload(field: TagOption<bool>) -> Option<Seq<u8>> {
    if field == TagOption::Present(true) {
        Some(text_payload("1"@))
    } else {
        None
    }
}

/// The content of a comment frame: the mark of UTF-8, the language `eng`,
/// an empty description, the text, a zero.
pub open spec fn comment_payload(field: TagOption<Seq<char>>) -> Option<Seq<u8>> {
    match field {
        TagOption::Present(s) => Some(
            seq![3u8] + text_bytes("eng"@) + seq![0u8] + text_bytes(s) + seq![0u8],
        ),
        _ => None,
    }
}

/// The content of a picture frame: the mark of UTF-8, the media type, a
/// zero, the type 3 of a front cover, an empty description, the image.
pub open spec fn picture_payload(field: TagOption<ImageView>) -> Option<Seq<u8>> {
    match field {
        TagOption::Present(ImageView::PNG(v)) => Some(
            seq![3u8] + text_bytes("image/png"@) + seq![0u8, 3u8, 0u8] + v,
        ),
        TagOption::Present(ImageView::JPEG(v)) => Some(
            seq![3u8] + text_bytes("image/jpeg"@) + seq![0u8, 3u8, 0u8] + v,
        ),
        _ => None,
    }
}

/// After `before`, the frames of the names: title, artist, album, album
/// artist, composer, grouping, genre.
pub open spec fn text_frames(before: Seq<u8>, t: TagsView) -> Seq<u8> {
    before + opt_frame("TIT2"@, field_payload(t.title))
        + opt_frame("TPE1"@, field_payload(t.artist)) + opt_frame("TALB"@, field_payload(t.album))
        + opt_frame("TPE2"@, field_payload(t.album_artist))
        + opt_frame("TCOM"@, field_payload(t.composer))
        + opt_frame("TIT1"@, field_payload(t.grouping)) + opt_frame("TCON"@, field_payload(t.genre))
}

/// Whether the sizes of these frames can be written.
pub open spec fn text_frames_fit(t: TagsView) -> bool {
    &&& opt_fits(field_payload(t.title))
    &&& opt_fits(field_payload(t.artist))
    &&& opt_fits(field_payload(t.album))
    &&& opt_fits(field_payload(t.album_artist))
    &&& opt_fits(field_payload(t.composer))
    &&& opt_fits(field_payload(t.grouping))
    &&& opt_fits(field_payload(t.genre))
}

/// After `before`, the frames of date, track, disc, tempo and compilation.
pub open spec fn number_frames(before: Seq<u8>, t: TagsView) -> Seq<u8> {
    before + opt_frame("TDRC"@, date_payload(t.date))
        + opt_frame("TRCK"@, pair_payload(t.track_number, t.track_total))
        + opt_frame("TPOS"@, pair_payload(t.disc_number, t.disc_total))
        + opt_frame("TBPM"@, number_payload(t.bpm))
        + opt_frame("TCMP"@, compilation_payload(t.is_compilation))
}

/// Whether the sizes of these frames can be written.
pub open spec fn number_frames_fit(t: TagsView) -> bool {
    &&& opt_fits(date_payload(t.date))
    &&& opt_fits(pair_payload(t.track_number, t.track_total))
    &&& opt_fits(pair_payload(t.disc_number, t.disc_total))
    &&& opt_fits(number_payload(t.bpm))
    &&& opt_fits(compilation_payload(t.is_compilation))
}

/// After `before`, the frames of the sort names.
pub open spec fn sort_frames(before: Seq<u8>, t: TagsView) -> Seq<u8> {
    before + opt_frame("TSOT"@, field_payload(t.sort_title))
        + opt_frame("TSOP"@, field_payload(t.sort_artist))
        + opt_frame("TSOA"@, field_payload(t.sort_album))
        + opt_frame("TSO2"@, field_payload(t.sort_album_artist))
        + opt_frame("TSOC"@, field_payload(t.sort_composer))
}

/// Whether the sizes of these frames can be written.
pub open spec fn sort_frames_fit(t: TagsView) -> bool {
    &&& opt_fits(field_payload(t.sort_title))
    &&& opt_fits(field_payload(t.sort_artist))
    &&& opt_fits(field_payload(t.sort_album))
    &&& opt_fits(field_payload(t.sort_album_artist))
    &&& opt_fits(field_payload(t.sort_composer))
}

/// After `before`, the frames of comment and cover.
pub open spec fn rest_frames(before: Seq<u8>, t: TagsView) -> Seq<u8> {
    before + opt_frame("COMM"@, comment_payload(t.comment))
        + opt_frame("APIC"@, picture_payload(t.front_cover))
}

/// Whether the sizes of these frames can be written.
pub open spec fn rest_frames_fit(t: TagsView) -> bool {
    &&& opt_fits(comment_payload(t.comment))
    &&& opt_fits(picture_payload(t.front_cover))
}

/// The frames of the tags, in the order in which they are written.
#[verifier::opaque]
pub open spec fn tag_frames(t: TagsView) -> Seq<u8> {
    rest_frames(sort_frames(number_frames(text_frames(Seq::empty(), t), t), t), t)
}

/// Whether the size of every frame of the tags can be written.
#[verifier::opaque]
pub open spec fn frames_fit(t: TagsView) -> bool {
    text_frames_fit(t) && number_frames_fit(t) && sort_frames_fit(t) && rest_frames_fit(t)
}

/// The length of a tag whose header and frames take `len` bytes: one byte
/// of padding more, and then up to the next multiple of 128.
pub open spec fn padded_len(len: int) -> int {
    (len + 1 + 127) / 128 * 128
}

/// The six bytes that start a tag of version 4 without flags.
pub open spec fn tag_start() -> Seq<u8> {
    seq![0x49u8, 0x44u8, 0x33u8, 0x04u8, 0x00u8, 0x00u8]
}

/// The message of the error for a size that cannot be written.
pub open spec fn too_large() -> Seq<char> {
    "Input uses more than 28 bits, but use fifth bit option is not enabled."@
}

/// The tag of version 4 with the given frames: the header with the size of
/// what follows it, the frames, and the padding. Fails where the size needs
/// more than 28 bits.
pub open spec fn tag_of_frames(frames: Seq<u8>) -> Result<Seq<u8>, ErrorView> {
    let total = padded_len(10 + frames.len() as int);
    if total - 10 >= 0x1000_0000 {
        Err(ErrorView::TagError(too_large()))
    } else {
        Ok(
            tag_start() + synch_bytes((total - 10) as u32, false) + frames + Seq::new(
                (total - 10 - frames.len()) as nat,
                |i: int| 0u8,
            ),
        )
    }
}

/// The tag of version 4 that holds `t`: the frames of the fields that have
/// a value, in a fixed order. Fails where a size needs more than 28 bits.
#[verifier::opaque]
pub open spec fn tag_written(t: TagsView) -> Result<Seq<u8>, ErrorView> {
    if !frames_fit(t) {
        Err(ErrorView::TagError(too_large()))
    } else {
        tag_of_frames(tag_frames(t))
    }
}

/// The tags that a file holds before it is rewritten: those of its ID3v2
/// tag, else those of its ID3v1 trailer, else none.
pub open spec fn tags_before(data: Seq<u8>) -> TagsView {
    match id3v2_tags(data) {
        Ok(t) => t,
        Err(_) => match id3v1_tags(data) {
            Ok(t) => t,
            Err(_) => TagsView::none(),
        },
    }
}

/// Where the audio starts: behind the ID3v2 tag, if there is one.
pub open spec fn audio_start(data: Seq<u8>) -> int {
    match header_of(data) {
        Ok(h) => h.size + 10,
        Err(_) => 0,
    }
}

/// The file `data` with its tags updated by `new`: a new tag of version 4
/// with the merged tags, then the audio as it was.
pub open spec fn rewritten(data: Seq<u8>, new: TagsView) -> Result<Seq<u8>, ErrorView> {
    match tag_written(delta_view(tags_before(data), new)) {
        Ok(tag) => Ok(tag + rest(data, audio_start(data))),
        Err(e) => Err(e),
    }
}

/// Appends `bytes` to `vec`.
pub fn append_bytes(vec: &mut Vec<u8>, bytes: &[u8])
    ensures
        final(vec)@ == old(vec)@ + bytes@,
{
    let mut i: usize = 0;
    proof {
        assert(vec@ =~= vec@ + bytes@.take(0));
    }
    while i < bytes.len()
        invariant
            i <= bytes@.len(),
            vec@ == old(vec)@ + bytes@.take(i as int),
        decreases bytes@.len() - i,
    {
        vec.push(bytes[i]);
        i = i + 1;
        proof {
            assert(old(vec)@ + bytes@.take(i as int) =~= (old(vec)@ + bytes@.take(i - 1)).push(
                bytes@[i - 1],
            ));
        }
    }
    proof {
        assert(bytes@.take(i as int) =~= bytes@);
    }
}

/// Appends `n` zeros to `vec`.
pub fn append_zeros(vec: &mut Vec<u8>, n: usize)
    ensures
        final(vec)@ == old(vec)@ + Seq::new(n as nat, |i: int| 0u8),
{
    let mut i: usize = 0;
    proof {
        assert(vec@ =~= vec@ + Seq::new(0, |i: int| 0u8));
    }
    while i < n
        invariant
            i <= n,
            vec@ == old(vec)@ + Seq::new(i as nat, |i: int| 0u8),
        decreases n - i,
    {
        vec.push(0);
        i = i + 1;
        proof {
            assert(vec@ =~= old(vec)@ + Seq::new(i as nat, |i: int| 0u8));
        }
    }
}

/// The content of a text frame: the byte for UTF-8, the text, a zero.
fn text_content(text: &str) -> (r: Vec<u8>)
    ensures
        r@ == text_payload(text@),
{
    let mut r: Vec<u8> = Vec::new();
    r.push(0x03);
    append_bytes(&mut r, text.as_bytes());
    r.push(0x00);
    proof {
        assert(r@ =~= text_payload(text@));
    }
    r
}

/// The content of the text frame for `field`, if it is present.
fn field_content(field: &TagOption<String>) -> (r: Option<Vec<u8>>)
    ensures
        crate::id3v2::opt_view(r) == field_payload(field@),
{
    match field {
        TagOption::Present(x) => Some(text_content(x.as_str())),
        _ => None,
    }
}

/// The bytes of an optional buffer.
pub open spec fn opt_view(v: Option<Vec<u8>>) -> Option<Seq<u8>> {
    match v {
        Some(v) => Some(v@),
        None => None,
    }
}

/// The content of the frame for a number and its total, if the number is
/// present.
fn pair_content(number: &TagOption<i64>, total: &TagOption<i64>) -> (r: Option<Vec<u8>>)
    ensures
        opt_view(r) == pair_payload(*number, *total),
{
    match number {
        TagOption::Present(n) => {
            let mut s = i64_to_string(*n);
            if let TagOption::Present(m) = total {
                proof {
                    reveal_strlit("/");
                    assert("/"@ =~= seq!['/']);
                }
                s.append("/");
                let t = i64_to_string(*m);
                s.append(t.as_str());
            }
            Some(text_content(s.as_str()))
        },
        _ => None,
    }
}

/// The content of the comment frame for `field`, if it is present.
fn comment_content(field: &TagOption<String>) -> (r: Option<Vec<u8>>)
    ensures
        opt_view(r) == comment_payload(field@),
{
    match field {
        TagOption::Present(x) => {
            let mut r: Vec<u8> = Vec::new();
            r.push(0x03);
            append_bytes(&mut r, "eng".as_bytes());
            r.push(0x00);
            append_bytes(&mut r, x.as_str().as_bytes());
            r.push(0x00);
            proof {
                assert(r@ =~= comment_payload(field@)->0);
            }
            Some(r)
        },
        _ => None,
    }
}

/// The content of the picture frame for `field`, if it holds an image.
fn picture_content(field: &TagOption<Image>) -> (r: Option<Vec<u8>>)
    ensures
        opt_view(r) == picture_payload(field@),
{
    match field {
        TagOption::Present(x) => {
            let image: &Vec<u8> = match x {
                Image::PNG(v) => v,
                Image::JPEG(v) => v,
                Image::Empty => {
                    return None;
                },
            };
            let mime = x.mime();
            let mut r: Vec<u8> = Vec::new();
            r.push(0x03);
            append_bytes(&mut r, mime.as_str().as_bytes());
            r.push(0x00);
            r.push(0x03);
            r.push(0x00);
            append_bytes(&mut r, image.as_slice());
            proof {
                assert(r@ =~= picture_payload(field@)->0);
            }
            Some(r)
        },
        _ => None,
    }
}

/// Appends the frame of `payload` if there is one; says whether its size
/// could be written.
fn push_frame(vec: &mut Vec<u8>, id: &str, payload: Option<Vec<u8>>) -> (fits: bool)
    ensures
        fits == opt_fits(opt_view(payload)),
        fits ==> final(vec)@ == old(vec)@ + opt_frame(id@, opt_view(payload)),
        !fits ==> final(vec)@ == old(vec)@,
{
    match payload {
        None => {
            proof {
                assert(vec@ =~= vec@ + Seq::<u8>::empty());
            }
            true
        },
        Some(p) => {
            if p.len() >= 0x1000_0000 {
                return false;
            }
            match encode_synch_int(p.len() as u32, false) {
                Ok(size) => {
                    append_bytes(vec, id.as_bytes());
                    append_bytes(vec, size.as_slice());
                    vec.push(0x00);
                    vec.push(0x00);
                    append_bytes(vec, p.as_slice());
                    proof {
                        assert(vec@ =~= old(vec)@ + frame(id@, p@));
                    }
                    true
                },
                Err(_) => false,
            }
        },
    }
}

/// The error for a size that cannot be written.
fn too_large_error() -> (e: Error)
    ensures
        e@ == ErrorView::TagError(too_large()),
{
    crate::tools::tag_error("Input uses more than 28 bits, but use fifth bit option is not enabled.")
}

/// The content of the frame for the date, if it is present.
fn date_content(field: &TagOption<DateTime>) -> (r: Option<Vec<u8>>)
    ensures
        opt_view(r) == date_payload(*field),
{
    match field {
        TagOption::Present(x) => {
            let text = x.to_iso_8601();
            Some(text_content(text.as_str()))
        },
        _ => None,
    }
}

/// The content of the frame for a number, if it is present.
fn number_content(field: &TagOption<i64>) -> (r: Option<Vec<u8>>)
    ensures
        opt_view(r) == number_payload(*field),
{
    match field {
        TagOption::Present(i) => {
            let text = i64_to_string(*i);
            Some(text_content(text.as_str()))
        },
        _ => None,
    }
}

/// The content of the frame that marks a compilation, if the tags are
/// marked so.
fn compilation_content(field: &TagOption<bool>) -> (r: Option<Vec<u8>>)
    ensures
        opt_view(r) == compilation_payload(*field),
{
    match field {
        TagOption::Present(true) => Some(text_content("1")),
        _ => None,
    }
}

/// Appends the frames of the names; says whether each fits its size field.
fn push_text_frames(vec: &mut Vec<u8>, t: &Tags) -> (fits: bool)
    ensures
        fits == text_frames_fit(t@),
        fits ==> final(vec)@ == text_frames(old(vec)@, t@),
{
    if !push_frame(vec, "TIT2", field_content(&t.title)) {
        return false;
    }
    if !push_frame(vec, "TPE1", field_content(&t.artist)) {
        return false;
    }
    if !push_frame(vec, "TALB", field_content(&t.album)) {
        return false;
    }
    if !push_frame(vec, "TPE2", field_content(&t.album_artist)) {
        return false;
    }
    if !push_frame(vec, "TCOM", field_content(&t.composer)) {
        return false;
    }
    if !push_frame(vec, "TIT1", field_content(&t.grouping)) {
        return false;
    }
    if !push_frame(vec, "TCON", field_content(&t.genre)) {
        return false;
    }
    true
}

/// Appends the frames of date, track, disc, tempo and compilation; says
/// whether each fits.
fn push_number_frames(vec: &mut Vec<u8>, t: &Tags) -> (fits: bool)
    ensures
        fits == number_frames_fit(t@),
        fits ==> final(vec)@ == number_frames(old(vec)@, t@),
{
    if !push_frame(vec, "TDRC", date_content(&t.date)) {
        return false;
    }
    if !push_frame(vec, "TRCK", pair_content(&t.track_number, &t.track_total)) {
        return false;
    }
    if !push_frame(vec, "TPOS", pair_content(&t.disc_number, &t.disc_total)) {
        return false;
    }
    if !push_frame(vec, "TBPM", number_content(&t.bpm)) {
        return false;
    }
    if !push_frame(vec, "TCMP", compilation_content(&t.is_compilation)) {
        return false;
    }
    true
}

/// Appends the frames of the sort orders; says whether each fits.
fn push_sort_frames(vec: &mut Vec<u8>, t: &Tags) -> (fits: bool)
    ensures
        fits == sort_frames_fit(t@),
        fits ==> final(vec)@ == sort_frames(old(vec)@, t@),
{
    if !push_frame(vec, "TSOT", field_content(&t.sort_title)) {
        return false;
    }
    if !push_frame(vec, "TSOP", field_content(&t.sort_artist)) {
        return false;
    }
    if !push_frame(vec, "TSOA", field_content(&t.sort_album)) {
        return false;
    }
    if !push_frame(vec, "TSO2", field_content(&t.sort_album_artist)) {
        return false;
    }
    if !push_frame(vec, "TSOC", field_content(&t.sort_composer)) {
        return false;
    }
    true
}

/// Appends the frames of the comment and the cover; says whether each fits.
fn push_rest_frames(vec: &mut Vec<u8>, t: &Tags) -> (fits: bool)
    ensures
        fits == rest_frames_fit(t@),
        fits ==> final(vec)@ == rest_frames(old(vec)@, t@),
{
    if !push_frame(vec, "COMM", comment_content(&t.comment)) {
        return false;
    }
    if !push_frame(vec, "APIC", picture_content(&t.front_cover)) {
        return false;
    }
    true
}

/// Writes the tag of version 4 that holds `t`.
pub fn write_tag(t: &Tags) -> (r: Result<Vec<u8>, Error>)
    ensures
        (match r {
            Ok(v) => Ok(v@),
            Err(e) => Err(e@),
        }) == tag_written(t@),
{
    reveal(tag_written);
    reveal(tag_frames);
    reveal(frames_fit);
    let mut vec: Vec<u8> = Vec::new();
    if !push_text_frames(&mut vec, t) {
        return Err(too_large_error());
    }
    if !push_number_frames(&mut vec, t) {
        return Err(too_large_error());
    }
    if !push_sort_frames(&mut vec, t) {
        return Err(too_large_error());
    }
    if !push_rest_frames(&mut vec, t) {
        return Err(too_large_error());
    }
    close_tag(vec)
}

/// Puts header and padding around the frames of a tag.
fn close_tag(frames: Vec<u8>) -> (r: Result<Vec<u8>, Error>)
    ensures
        (match r {
            Ok(v) => Ok(v@),
            Err(e) => Err(e@),
        }) == tag_of_frames(frames@),
{
    let frames_len: usize = frames.len();
    if frames_len >= 0x1000_0000 {
        return Err(too_large_error());
    }
    let total: usize = (10 + frames_len + 1 + 127) / 128 * 128;
    let size = match encode_synch_int((total - 10) as u32, false) {
        Ok(size) => size,
        Err(_) => {
            return Err(too_large_error());
        },
    };
    let mut tag: Vec<u8> = Vec::new();
    tag.push(0x49);
    tag.push(0x44);
    tag.push(0x33);
    tag.push(0x04);
    tag.push(0x00);
    tag.push(0x00);
    proof {
        assert(tag@ =~= tag_start());
    }
    append_bytes(&mut tag, size.as_slice());
    append_bytes(&mut tag, frames.as_slice());
    append_zeros(&mut tag, total - 10 - frames_len);
    Ok(tag)
}

/// Rewrites the file in `input` into `output` with its tags updated by
/// `new`. Nothing is written where the tags cannot be.
pub fn set(input: &mut Store, output: &mut Vec<u8>, new: &Tags) -> (r: Result<(), Error>)
    ensures
        final(input).data == old(input).data,
        match rewritten(old(input).data@, new@) {
            Ok(file) => r is Ok && final(output)@ == old(output)@ + file,
            Err(e) => r is Err && r->Err_0@ == e && final(output)@ == old(output)@,
        },
{
    let (audio, tags) = match read::header(input) {
        Ok(h) => {
            let old = match get_internal(input, &h) {
                Ok(t) => t,
                Err(e) => {
                    return Err(e);
                },
            };
            (h.size as u64 + 10, delta(&old, new))
        },
        Err(_) => {
            let old = match crate::id3v1::get(input) {
                Ok(t) => t,
                Err(_) => Tags::none(),
            };
            (0, delta(&old, new))
        },
    };
    let tag = match write_tag(&tags) {
        Ok(tag) => tag,
        Err(e) => {
            return Err(e);
        },
    };
    input.seek_start(audio);
    append_bytes(output, tag.as_slice());
    input.copy_rest(output);
    proof {
        assert(output@ =~= old(output)@ + (tag@ + rest(input.data@, audio as int)));
    }
    Ok(())
}

} // verus!
