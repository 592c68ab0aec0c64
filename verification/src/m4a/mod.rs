//! MP4: tags in the atom tree of an M4A file.
use vstd::prelude::*;

pub mod roundtrip;
pub mod tree;

use vstd::slice::slice_subrange;
use crate::id3v1::genre_name;
use crate::id3v1::get_genre;
use crate::store::avail;
use crate::store::read_filled;
use crate::store::seek_target;
use crate::store::Store;
use crate::flac::len32;
use crate::id3v2::append_bytes;
use crate::id3v2::read::text_bytes;
use crate::store::rest;
use crate::tools::be_bytes_u16;
use crate::tools::be_bytes_u32;
use crate::tools::be_value;
use crate::tools::encode_int_be_u16;
use crate::tools::encode_int_be_u32;
use crate::tools::encoding::encode_iso_8859_1;
use crate::tools::encoding::latin1_bytes;
use crate::tools::tags::delta;
use crate::tools::tags::delta_view;
use crate::types::datetime::iso_8601_text;
use crate::tools::decode_int_be_u32;
use crate::tools::encoding::decode_iso_8859_1;
use crate::tools::encoding::decode_utf8;
use crate::tools::encoding::latin1_text;
use crate::tools::encoding::utf8_text;
use crate::tools::lemma_be_value_bound;
use crate::tools::tag_error;
use crate::tools::text::str_eq;
use crate::types::datetime::iso_8601_date;
use crate::types::datetime::DateTime;
use crate::types::image::Image;
use crate::types::image::ImageView;
use crate::types::tags::from_option;
use crate::types::tags::TagOption;
use crate::types::tags::Tags;
use crate::types::tags::TagsView;
use crate::Error;
use crate::ErrorView;

verus! {

/// The header of an atom: a read cursor, never kept.
pub struct Atom {
    pub name: String,
    pub size: u64,
    pub start: u64,
    pub end: u64,
}

/// The size that the header `input` of an atom gives: its first four
/// bytes, most significant first. The size counts the header.
pub open spec fn atom_size(input: Seq<u8>) -> u32 {
    be_value(input.subrange(0, 4)) as u32
}

/// The name that the header `input` of an atom gives: its bytes four to
/// eight in ISO 8859-1.
pub open spec fn atom_name(input: Seq<u8>) -> Seq<char> {
    latin1_text(input.subrange(4, 8))
}

impl Atom {
    /// The atom with the header `input` that starts at `start`.
    pub fn new(input: &[u8], start: u64) -> (atom: Atom)
        requires
            input@.len() >= 8,
            start + 0xFFFF_FFFF <= u64::MAX,
        ensures
            atom.name@ == atom_name(input@),
            atom.size == atom_size(input@),
            atom.start == start,
            atom.end == start + atom.size,
    {
        proof {
            lemma_be_value_bound(input@.subrange(0, 4));
        }
        let size: u64 = decode_int_be_u32(slice_subrange(input, 0, 4)) as u64;
        Atom { name: decode_iso_8859_1(slice_subrange(input, 4, 8)), size, start, end: start
            + size }
    }
}

/// What an atom of the list of tags holds, by its name.
#[derive(Clone, Copy, Debug)]
pub enum AtomKind {
    /// The title.
    Title,
    /// The album.
    Album,
    /// The artist.
    Artist,
    /// The artist of the album.
    AlbumArtist,
    /// The composer.
    Composer,
    /// The grouping.
    Grouping,
    /// The genre as text.
    Genre,
    /// The genre as an index, from 1 on, into the genres of ID3v1.
    GenreIndex,
    /// The release date.
    Date,
    /// Track number and total.
    Track,
    /// Disc number and total.
    Disc,
    /// Whether the file is part of a compilation.
    Compilation,
    /// Beats per minute.
    Tempo,
    /// A comment.
    Comment,
    /// The title to sort by.
    SortTitle,
    /// The album to sort by.
    SortAlbum,
    /// The artist to sort by.
    SortArtist,
    /// The album's artist to sort by.
    SortAlbumArtist,
    /// The composer to sort by.
    SortComposer,
    /// The cover.
    Cover,
    /// Anything else: passed over.
    Other,
}

/// The kind of the atom with the given name.
pub open spec fn atom_kind_of(name: Seq<char>) -> AtomKind {
    if name == "©nam"@ {
        AtomKind::Title
    } else if name == "©alb"@ {
        AtomKind::Album
    } else if name == "©art"@ || name == "©ART"@ {
        AtomKind::Artist
    } else if name == "aART"@ {
        AtomKind::AlbumArtist
    } else if name == "©wrt"@ {
        AtomKind::Composer
    } else if name == "©grp"@ {
        AtomKind::Grouping
    } else if name == "©gen"@ {
        AtomKind::Genre
    } else if name == "gnre"@ {
        AtomKind::GenreIndex
    } else if name == "©day"@ {
        AtomKind::Date
    } else if name == "trkn"@ {
        AtomKind::Track
    } else if name == "disk"@ {
        AtomKind::Disc
    } else if name == "cpil"@ {
        AtomKind::Compilation
    } else if name == "tmpo"@ {
        AtomKind::Tempo
    } else if name == "©cmt"@ {
        AtomKind::Comment
    } else if name == "sonm"@ {
        AtomKind::SortTitle
    } else if name == "soal"@ {
        AtomKind::SortAlbum
    } else if name == "soar"@ {
        AtomKind::SortArtist
    } else if name == "soaa"@ {
        AtomKind::SortAlbumArtist
    } else if name == "soco"@ {
        AtomKind::SortComposer
    } else if name == "covr"@ {
        AtomKind::Cover
    } else {
        AtomKind::Other
    }
}

/// The kind of the atom with the given name.
pub fn atom_kind(name: &str) -> (r: AtomKind)
    ensures
        r == atom_kind_of(name@),
{
    if str_eq(name, "©nam") {
        AtomKind::Title
    } else if str_eq(name, "©alb") {
        AtomKind::Album
    } else if str_eq(name, "©art") || str_eq(name, "©ART") {
        AtomKind::Artist
    } else if str_eq(name, "aART") {
        AtomKind::AlbumArtist
    } else if str_eq(name, "©wrt") {
        AtomKind::Composer
    } else if str_eq(name, "©grp") {
        AtomKind::Grouping
    } else if str_eq(name, "©gen") {
        AtomKind::Genre
    } else if str_eq(name, "gnre") {
        AtomKind::GenreIndex
    } else if str_eq(name, "©day") {
        AtomKind::Date
    } else if str_eq(name, "trkn") {
        AtomKind::Track
    } else if str_eq(name, "disk") {
        AtomKind::Disc
    } else if str_eq(name, "cpil") {
        AtomKind::Compilation
    } else if str_eq(name, "tmpo") {
        AtomKind::Tempo
    } else if str_eq(name, "©cmt") {
        AtomKind::Comment
    } else if str_eq(name, "sonm") {
        AtomKind::SortTitle
    } else if str_eq(name, "soal") {
        AtomKind::SortAlbum
    } else if str_eq(name, "soar") {
        AtomKind::SortArtist
    } else if str_eq(name, "soaa") {
        AtomKind::SortAlbumArtist
    } else if str_eq(name, "soco") {
        AtomKind::SortComposer
    } else if str_eq(name, "covr") {
        AtomKind::Cover
    } else {
        AtomKind::Other
    }
}

/// Whether an atom of the kind holds text.
pub open spec fn holds_text(kind: AtomKind) -> bool {
    kind is Title || kind is Album || kind is Artist || kind is AlbumArtist || kind is Composer
        || kind is Grouping || kind is Genre || kind is Comment || kind is SortTitle
        || kind is SortAlbum || kind is SortArtist || kind is SortAlbumArtist
        || kind is SortComposer
}

/// The message of the error for an atom whose size is smaller than its header.
pub open spec fn invalid_atom() -> Seq<char> {
    "Found invalid atom while parsing m4a structure"@
}

/// The content of the `data` atom at `pos`, and where the cursor stands
/// after it: none where another atom stands there, or one whose size is
/// smaller than its header; the cursor is then behind that header.
pub open spec fn data_at(data: Seq<u8>, pos: int) -> (Option<Seq<u8>>, int) {
    let header = read_filled(data, pos, 8, 0);
    let at1 = pos + avail(data.len() as int, pos, 8);
    if atom_name(header) != "data"@ || atom_size(header) < 8 {
        (None, at1)
    } else {
        (
            Some(read_filled(data, at1, atom_size(header) - 8, 0)),
            at1 + avail(data.len() as int, at1, atom_size(header) - 8),
        )
    }
}

/// The text of the content of a `data` atom: behind four bytes that give
/// the type 1 and four reserved bytes.
pub open spec fn text_of(vec: Seq<u8>) -> Option<Seq<char>> {
    if vec.len() >= 9 && vec[3] == 1 {
        Some(utf8_text(vec.skip(8)))
    } else {
        None
    }
}

/// The number of the content of a `data` atom: up to four bytes behind
/// four bytes that give one of the types 0, 15 and 21 and four reserved bytes.
pub open spec fn number_of(vec: Seq<u8>) -> Option<u32> {
    if 9 <= vec.len() <= 12 && (vec[3] == 0 || vec[3] == 15 || vec[3] == 21) {
        Some(be_value(vec.skip(8)) as u32)
    } else {
        None
    }
}

/// Number and total of the content of a `data` atom: two numbers of 16
/// bits behind the type, 0 or 21, the reserved bytes and two more bytes.
pub open spec fn pair_of(vec: Seq<u8>) -> Option<(u16, u16)> {
    if vec.len() >= 14 && (vec[3] == 0 || vec[3] == 21) {
        Some((be_value(vec.subrange(10, 12)) as u16, be_value(vec.subrange(12, 14)) as u16))
    } else {
        None
    }
}

/// What follows an optional value.
pub open spec fn and_then<A, B>(a: Option<A>, f: spec_fn(A) -> Option<B>) -> Option<B> {
    match a {
        Some(x) => f(x),
        None => None,
    }
}

/// Reads the content of the data atom at the cursor.
fn collect_atom_data(input: &mut Store) -> (r: Result<Vec<u8>, Error>)
    ensures
        final(input).data == old(input).data,
        final(input).pos == data_at(old(input).data@, old(input).pos as int).1,
        match r {
            Ok(v) => data_at(old(input).data@, old(input).pos as int).0 == Some(v@),
            Err(_) => data_at(old(input).data@, old(input).pos as int).0 is None,
        },
{
    let buf = input.read_filled(8, 0);
    proof {
        lemma_be_value_bound(buf@.subrange(0, 4));
    }
    let size = decode_int_be_u32(slice_subrange(buf.as_slice(), 0, 4));
    let name = decode_iso_8859_1(slice_subrange(buf.as_slice(), 4, 8));
    if !str_eq(name.as_str(), "data") || size < 8 {
        return Err(tag_error("Expected data atom"));
    }
    Ok(input.read_filled(size as usize - 8, 0))
}

/// Reads the text of the data atom at the cursor.
fn collect_atom_text(input: &mut Store) -> (r: Result<String, Error>)
    ensures
        final(input).data == old(input).data,
        final(input).pos == data_at(old(input).data@, old(input).pos as int).1,
        match r {
            Ok(s) => and_then(
                data_at(old(input).data@, old(input).pos as int).0,
                |v: Seq<u8>| text_of(v),
            ) == Some(s@),
            Err(_) => and_then(
                data_at(old(input).data@, old(input).pos as int).0,
                |v: Seq<u8>| text_of(v),
            ) is None,
        },
{
    let vec = match collect_atom_data(input) {
        Ok(v) => v,
        Err(e) => {
            return Err(e);
        },
    };
    if vec.len() < 9 {
        return Err(tag_error("Data too short in atom"));
    }
    if vec[3] == 1 {
        let rest = slice_subrange(vec.as_slice(), 8, vec.len());
        proof {
            assert(rest@ =~= vec@.skip(8));
        }
        Ok(decode_utf8(rest))
    } else {
        Err(tag_error("Expected text data in atom"))
    }
}

/// Reads the number of the data atom at the cursor.
fn collect_atom_num(input: &mut Store) -> (r: Result<u32, Error>)
    ensures
        final(input).data == old(input).data,
        final(input).pos == data_at(old(input).data@, old(input).pos as int).1,
        match r {
            Ok(n) => and_then(
                data_at(old(input).data@, old(input).pos as int).0,
                |v: Seq<u8>| number_of(v),
            ) == Some(n),
            Err(_) => and_then(
                data_at(old(input).data@, old(input).pos as int).0,
                |v: Seq<u8>| number_of(v),
            ) is None,
        },
{
    let vec = match collect_atom_data(input) {
        Ok(v) => v,
        Err(e) => {
            return Err(e);
        },
    };
    if vec.len() < 9 {
        return Err(tag_error("Data too short in atom"));
    }
    if vec[3] == 0 || vec[3] == 15 || vec[3] == 21 {
        if vec.len() <= 12 {
            let rest = slice_subrange(vec.as_slice(), 8, vec.len());
            proof {
                assert(rest@ =~= vec@.skip(8));
                lemma_be_value_bound(rest@);
            }
            Ok(decode_int_be_u32(rest))
        } else {
            Err(tag_error("Expected a smaller number"))
        }
    } else {
        Err(tag_error("Expected a single integer in atom"))
    }
}

/// Reads the number and the total of the data atom at the cursor.
fn collect_atom_track(input: &mut Store) -> (r: Result<(u16, u16), Error>)
    ensures
        final(input).data == old(input).data,
        final(input).pos == data_at(old(input).data@, old(input).pos as int).1,
        match r {
            Ok(n) => and_then(
                data_at(old(input).data@, old(input).pos as int).0,
                |v: Seq<u8>| pair_of(v),
            ) == Some(n),
            Err(_) => and_then(
                data_at(old(input).data@, old(input).pos as int).0,
                |v: Seq<u8>| pair_of(v),
            ) is None,
        },
{
    let vec = match collect_atom_data(input) {
        Ok(v) => v,
        Err(e) => {
            return Err(e);
        },
    };
    if vec.len() < 14 {
        return Err(tag_error("Data too short in atom"));
    }
    if vec[3] == 0 || vec[3] == 21 {
        proof {
            lemma_be_value_bound(vec@.subrange(10, 12));
            lemma_be_value_bound(vec@.subrange(12, 14));
        }
        let number = decode_int_be_u32(slice_subrange(vec.as_slice(), 10, 12));
        let total = decode_int_be_u32(slice_subrange(vec.as_slice(), 12, 14));
        Ok((number as u16, total as u16))
    } else {
        Err(tag_error("Expected a single integer in atom"))
    }
}

/// The tags after an atom of a text kind with the given text.
pub open spec fn with_atom_text(tags: TagsView, kind: AtomKind, text: Seq<char>) -> TagsView {
    match kind {
        AtomKind::Title => TagsView { title: TagOption::Present(text), ..tags },
        AtomKind::Album => TagsView { album: TagOption::Present(text), ..tags },
        AtomKind::Artist => TagsView { artist: TagOption::Present(text), ..tags },
        AtomKind::AlbumArtist => TagsView { album_artist: TagOption::Present(text), ..tags },
        AtomKind::Composer => TagsView { composer: TagOption::Present(text), ..tags },
        AtomKind::Grouping => TagsView { grouping: TagOption::Present(text), ..tags },
        AtomKind::Genre => TagsView { genre: TagOption::Present(text), ..tags },
        AtomKind::Comment => TagsView { comment: TagOption::Present(text), ..tags },
        AtomKind::SortTitle => TagsView { sort_title: TagOption::Present(text), ..tags },
        AtomKind::SortAlbum => TagsView { sort_album: TagOption::Present(text), ..tags },
        AtomKind::SortArtist => TagsView { sort_artist: TagOption::Present(text), ..tags },
        AtomKind::SortAlbumArtist => TagsView { sort_album_artist: TagOption::Present(text),
            ..tags },
        AtomKind::SortComposer => TagsView { sort_composer: TagOption::Present(text), ..tags },
        _ => tags,
    }
}

/// Puts the text of an atom into the field that the atom stands for.
fn set_atom_text(tags: &mut Tags, kind: AtomKind, text: String)
    ensures
        final(tags)@ == with_atom_text(old(tags)@, kind, text@),
{
    match kind {
        AtomKind::Title => {
            tags.title = TagOption::Present(text);
        },
        AtomKind::Album => {
            tags.album = TagOption::Present(text);
        },
        AtomKind::Artist => {
            tags.artist = TagOption::Present(text);
        },
        AtomKind::AlbumArtist => {
            tags.album_artist = TagOption::Present(text);
        },
        AtomKind::Composer => {
            tags.composer = TagOption::Present(text);
        },
        AtomKind::Grouping => {
            tags.grouping = TagOption::Present(text);
        },
        AtomKind::Genre => {
            tags.genre = TagOption::Present(text);
        },
        AtomKind::Comment => {
            tags.comment = TagOption::Present(text);
        },
        AtomKind::SortTitle => {
            tags.sort_title = TagOption::Present(text);
        },
        AtomKind::SortAlbum => {
            tags.sort_album = TagOption::Present(text);
        },
        AtomKind::SortArtist => {
            tags.sort_artist = TagOption::Present(text);
        },
        AtomKind::SortAlbumArtist => {
            tags.sort_album_artist = TagOption::Present(text);
        },
        AtomKind::SortComposer => {
            tags.sort_composer = TagOption::Present(text);
        },
        _ => {},
    }
}

/// A number of a pair as a field: zero stands for no number.
pub open spec fn pair_field(n: u16) -> TagOption<i64> {
    if n == 0 {
        TagOption::Absent
    } else {
        TagOption::Present(n as i64)
    }
}

/// A number of a pair as a field: zero stands for none.
fn pair_value(n: u16) -> (r: TagOption<i64>)
    ensures
        r == pair_field(n),
{
    if n == 0 {
        TagOption::Absent
    } else {
        TagOption::Present(n as i64)
    }
}

/// The genre of an index: the indices count from 1, and one that is no
/// genre of ID3v1 gives the empty name.
pub open spec fn indexed_genre(i: u32) -> Seq<char> {
    genre_name(((i % 256 + 255) % 256) as u8)
}

/// The tags after the atom of `size` bytes and of the given kind whose
/// content starts at `pos`, and where the cursor stands after it. An atom
/// of a kind that the tags have no use for is passed over to its end; what
/// holds no `data` atom of the right type changes nothing. The genre by
/// index and the cover count only where the tags have none yet.
pub open spec fn child_read(data: Seq<u8>, pos: int, size: u32, kind: AtomKind,
    tags: TagsView) -> Result<
    (TagsView, int),
    ErrorView,
> {
    let d = data_at(data, pos);
    let passed: Result<(TagsView, int), ErrorView> = match seek_target(pos, size - 8) {
        Some(p) => Ok((tags, p as int)),
        None => Err(ErrorView::IOError),
    };
    if holds_text(kind) {
        Ok(
            (
                match and_then(d.0, |v: Seq<u8>| text_of(v)) {
                    Some(text) => with_atom_text(tags, kind, text),
                    None => tags,
                },
                d.1,
            ),
        )
    } else {
        match kind {
            AtomKind::GenreIndex => if tags.genre is Absent {
                Ok(
                    (
                        match and_then(d.0, |v: Seq<u8>| number_of(v)) {
                            Some(i) => TagsView {
                                genre: TagOption::Present(indexed_genre(i)),
                                ..tags
                            },
                            None => tags,
                        },
                        d.1,
                    ),
                )
            } else {
                Ok((tags, pos))
            },
            AtomKind::Date => Ok(
                (
                    match and_then(d.0, |v: Seq<u8>| text_of(v)) {
                        Some(text) => TagsView { date: from_option(iso_8601_date(text)), ..tags },
                        None => tags,
                    },
                    d.1,
                ),
            ),
            AtomKind::Track => Ok(
                (
                    match and_then(d.0, |v: Seq<u8>| pair_of(v)) {
                        Some(n) => TagsView {
                            track_number: pair_field(n.0),
                            track_total: pair_field(n.1),
                            ..tags
                        },
                        None => tags,
                    },
                    d.1,
                ),
            ),
            AtomKind::Disc => Ok(
                (
                    match and_then(d.0, |v: Seq<u8>| pair_of(v)) {
                        Some(n) => TagsView {
                            disc_number: pair_field(n.0),
                            disc_total: pair_field(n.1),
                            ..tags
                        },
                        None => tags,
                    },
                    d.1,
                ),
            ),
            AtomKind::Compilation => Ok(
                (
                    if and_then(d.0, |v: Seq<u8>| number_of(v)) == Some(1u32) {
                        TagsView { is_compilation: TagOption::Present(true), ..tags }
                    } else {
                        tags
                    },
                    d.1,
                ),
            ),
            AtomKind::Tempo => Ok(
                (
                    match and_then(d.0, |v: Seq<u8>| number_of(v)) {
                        Some(n) => if n != 0 {
                            TagsView { bpm: TagOption::Present(n as i64), ..tags }
                        } else {
                            tags
                        },
                        None => tags,
                    },
                    d.1,
                ),
            ),
            AtomKind::Cover => if tags.front_cover is Absent && size >= 24 {
                match seek_target(pos, 8) {
                    None => Err(ErrorView::IOError),
                    Some(at1) => {
                        let flags = read_filled(data, at1 as int, 8, 0);
                        let at2 = at1 + avail(data.len() as int, at1 as int, 8);
                        let image = read_filled(data, at2, size - 24, 0);
                        let at3 = at2 + avail(data.len() as int, at2, size - 24);
                        Ok(
                            (
                                if flags[3] == 13 {
                                    TagsView {
                                        front_cover: TagOption::Present(ImageView::JPEG(image)),
                                        ..tags
                                    }
                                } else if flags[3] == 14 {
                                    TagsView {
                                        front_cover: TagOption::Present(ImageView::PNG(image)),
                                        ..tags
                                    }
                                } else {
                                    tags
                                },
                                at3,
                            ),
                        )
                    },
                }
            } else {
                passed
            },
            _ => passed,
        }
    }
}

/// Moves the cursor over the content of an atom of the given size.
fn pass_atom(input: &mut Store, size: u32) -> (r: Result<(), Error>)
    ensures
        final(input).data == old(input).data,
        match seek_target(old(input).pos as int, size - 8) {
            Some(p) => r is Ok && final(input).pos == p,
            None => r is Err && r->Err_0@ is IOError,
        },
{
    match input.seek_current(size as i64 - 8) {
        Ok(_) => Ok(()),
        Err(e) => Err(e),
    }
}

/// Reads the content of one atom of the list of tags.
fn read_child(input: &mut Store, size: u32, kind: AtomKind, tags: &mut Tags) -> (r: Result<
    (),
    Error,
>)
    ensures
        final(input).data == old(input).data,
        match child_read(old(input).data@, old(input).pos as int, size, kind, old(tags)@) {
            Ok((next, p)) => r is Ok && final(tags)@ == next && final(input).pos == p,
            Err(e) => r is Err && r->Err_0@ == e,
        },
{
    match kind {
        AtomKind::GenreIndex => {
            if tags.genre.is_none() {
                if let Ok(i) = collect_atom_num(input) {
                    tags.genre = TagOption::Present(get_genre(((i % 256 + 255) % 256) as u8));
                }
            }
            Ok(())
        },
        AtomKind::Date => {
            if let Ok(date) = collect_atom_text(input) {
                tags.date = TagOption::from(DateTime::from_iso_8601(date.as_str()));
            }
            Ok(())
        },
        AtomKind::Track => {
            if let Ok(num) = collect_atom_track(input) {
                tags.track_number = pair_value(num.0);
                tags.track_total = pair_value(num.1);
            }
            Ok(())
        },
        AtomKind::Disc => {
            if let Ok(num) = collect_atom_track(input) {
                tags.disc_number = pair_value(num.0);
                tags.disc_total = pair_value(num.1);
            }
            Ok(())
        },
        AtomKind::Compilation => {
            if let Ok(i) = collect_atom_num(input) {
                if i == 1 {
                    tags.is_compilation = TagOption::Present(true);
                }
            }
            Ok(())
        },
        AtomKind::Tempo => {
            if let Ok(num) = collect_atom_num(input) {
                if num != 0 {
                    tags.bpm = TagOption::Present(num as i64);
                }
            }
            Ok(())
        },
        AtomKind::Cover => {
            if tags.front_cover.is_none() && size >= 24 {
                match input.seek_current(8) {
                    Ok(_) => {},
                    Err(e) => {
                        return Err(e);
                    },
                }
                let flags = input.read_filled(8, 0);
                let vec = input.read_filled(size as usize - 24, 0);
                if flags[3] == 13 {
                    tags.front_cover = TagOption::Present(Image::JPEG(vec));
                } else if flags[3] == 14 {
                    tags.front_cover = TagOption::Present(Image::PNG(vec));
                }
                Ok(())
            } else {
                pass_atom(input, size)
            }
        },
        AtomKind::Other => pass_atom(input, size),
        _ => {
            if let Ok(x) = collect_atom_text(input) {
                set_atom_text(tags, kind, x);
            }
            Ok(())
        },
    }
}

/// The tags after the atoms of the list from `pos` on and before `end`,
/// and where the cursor stands then. The list also ends where the data ends
/// before a whole header, at an atom of the size 0, and at an atom that
/// leaves the cursor at its start or before it.
pub open spec fn list_read(data: Seq<u8>, pos: int, end: int, tags: TagsView) -> Result<
    (TagsView, int),
    ErrorView,
>
    decreases
            (if pos < data.len() {
                data.len() - pos
            } else {
                0
            }),
{
    if pos >= end {
        Ok((tags, pos))
    } else if pos < 0 || pos + 8 > data.len() {
        Ok((tags, pos + avail(data.len() as int, pos, 8)))
    } else {
        let header = data.subrange(pos, pos + 8);
        if atom_size(header) == 0 {
            Ok((tags, pos + 8))
        } else {
            match child_read(
                data,
                pos + 8,
                atom_size(header),
                atom_kind_of(atom_name(header)),
                tags,
            ) {
                Err(e) => Err(e),
                Ok((next, p)) => if p <= pos {
                    Ok((next, p))
                } else {
                    list_read(data, p, end, next)
                },
            }
        }
    }
}

/// Reads the atoms of the list of tags from the cursor on and before `end`.
pub fn collect_tags(input: &mut Store, end: u64, tags: &mut Tags) -> (r: Result<(), Error>)
    ensures
        final(input).data == old(input).data,
        match list_read(old(input).data@, old(input).pos as int, end as int, old(tags)@) {
            Ok((next, p)) => r is Ok && final(tags)@ == next && final(input).pos == p,
            Err(e) => r is Err && r->Err_0@ == e,
        },
{
    let ghost target = list_read(input.data@, input.pos as int, end as int, tags@);
    let mut done: bool = false;
    while !done && input.pos < end
        invariant
            input.data == old(input).data,
            target == list_read(old(input).data@, old(input).pos as int, end as int, old(tags)@),
            !done ==> list_read(input.data@, input.pos as int, end as int, tags@) == target,
            done ==> target == Ok::<(TagsView, int), ErrorView>((tags@, input.pos as int)),
        decreases
                (if done {
                    0
                } else if input.pos < input.data@.len() {
                    input.data@.len() - input.pos + 1
                } else {
                    1
                }),
    {
        let start: u64 = input.pos;
        let mut buf: Vec<u8> = vec![0u8; 8];
        let n = input.read(&mut buf);
        if n < 8 {
            done = true;
        } else {
            proof {
                assert(buf@ =~= input.data@.subrange(start as int, start + 8));
                lemma_be_value_bound(buf@.subrange(0, 4));
            }
            let size = decode_int_be_u32(slice_subrange(buf.as_slice(), 0, 4));
            if size == 0 {
                done = true;
            } else {
                let name = decode_iso_8859_1(slice_subrange(buf.as_slice(), 4, 8));
                let kind = atom_kind(name.as_str());
                match read_child(input, size, kind, tags) {
                    Ok(_) => {},
                    Err(e) => {
                        return Err(e);
                    },
                }
                if input.pos <= start {
                    done = true;
                }
            }
        }
    }
    Ok(())
}

/// Where the atom of `size` bytes that starts at `pos` ends, as far as a
/// position can say.
pub open spec fn atom_end(pos: int, size: u32) -> int {
    if pos + size > u64::MAX {
        u64::MAX as int
    } else {
        pos + size
    }
}

/// Where the list of tags is: the position behind its header and its end.
/// The walk goes from atom to atom from `pos` on, into `moov` and `udta`
/// and, behind four more bytes, into `meta`, and over any other atom.
/// There is no list where the data ends before a whole header. An atom
/// whose size is smaller than its header is an error, unless it is one of
/// these containers and gives 0 or 1.
pub open spec fn list_found(data: Seq<u8>, pos: int) -> Result<Option<(int, int)>, ErrorView>
    decreases
            (if pos < data.len() {
                data.len() - pos
            } else {
                0
            }),
{
    if pos < 0 || pos + 8 > data.len() {
        Ok(None)
    } else {
        let header = data.subrange(pos, pos + 8);
        let size = atom_size(header);
        let name = atom_name(header);
        if 1 < size < 8 {
            Err(ErrorView::TagError(invalid_atom()))
        } else if name == "moov"@ || name == "udta"@ {
            list_found(data, pos + 8)
        } else if name == "meta"@ {
            match seek_target(pos + 8, 4) {
                Some(p) => list_found(data, p as int),
                None => Err(ErrorView::IOError),
            }
        } else if name == "ilst"@ {
            Ok(Some((pos + 8, atom_end(pos, size))))
        } else if size < 8 {
            Err(ErrorView::TagError(invalid_atom()))
        } else {
            match seek_target(pos + 8, size - 8) {
                Some(p) => list_found(data, p as int),
                None => Err(ErrorView::IOError),
            }
        }
    }
}

/// What reading the tags of the MP4 file at `pos` gives: those of its list
/// of tags, none without a list.
pub open spec fn m4a_tags(data: Seq<u8>, pos: int) -> Result<TagsView, ErrorView> {
    match list_found(data, pos) {
        Err(e) => Err(e),
        Ok(None) => Ok(TagsView::none()),
        Ok(Some((start, end))) => match list_read(data, start, end, TagsView::none()) {
            Ok((tags, _)) => Ok(tags),
            Err(e) => Err(e),
        },
    }
}

/// Looks for the list of tags from the cursor on; leaves the cursor behind
/// its header and gives its end.
fn find_list(input: &mut Store) -> (r: Result<Option<u64>, Error>)
    ensures
        final(input).data == old(input).data,
        match list_found(old(input).data@, old(input).pos as int) {
            Err(e) => r is Err && r->Err_0@ == e,
            Ok(None) => r == Ok::<Option<u64>, Error>(None),
            Ok(Some((start, end))) => r is Ok && r->Ok_0 is Some && r->Ok_0->Some_0 as int == end
                && final(input).pos == start,
        },
{
    let ghost data = input.data@;
    let ghost target = list_found(data, input.pos as int);
    loop
        invariant
            input.data == old(input).data,
            data == input.data@,
            target == list_found(old(input).data@, old(input).pos as int),
            list_found(data, input.pos as int) == target,
        decreases
                (if input.pos < input.data@.len() {
                    input.data@.len() - input.pos
                } else {
                    0
                }),
    {
        let start: u64 = input.pos;
        let mut buf: Vec<u8> = vec![0u8; 8];
        let n = input.read(&mut buf);
        if n < 8 {
            return Ok(None);
        }
        proof {
            assert(buf@ =~= data.subrange(start as int, start + 8));
            lemma_be_value_bound(buf@.subrange(0, 4));
        }
        let size = decode_int_be_u32(slice_subrange(buf.as_slice(), 0, 4));
        let name = decode_iso_8859_1(slice_subrange(buf.as_slice(), 4, 8));
        if size < 8 && size > 1 {
            return Err(tag_error("Found invalid atom while parsing m4a structure"));
        }
        if str_eq(name.as_str(), "moov") || str_eq(name.as_str(), "udta") {
        } else if str_eq(name.as_str(), "meta") {
            match input.seek_current(4) {
                Ok(_) => {},
                Err(e) => {
                    return Err(e);
                },
            }
        } else if str_eq(name.as_str(), "ilst") {
            return Ok(Some(start.saturating_add(size as u64)));
        } else if size < 8 {
            return Err(tag_error("Found invalid atom while parsing m4a structure"));
        } else {
            match input.seek_current(size as i64 - 8) {
                Ok(_) => {},
                Err(e) => {
                    return Err(e);
                },
            }
        }
    }
}

/// Reads the tags of an MP4 file.
pub fn get(input: &mut Store) -> (r: Result<Tags, Error>)
    ensures
        crate::view_result(r) == m4a_tags(old(input).data@, old(input).pos as int),
        final(input).data == old(input).data,
{
    let end = match find_list(input) {
        Ok(Some(end)) => end,
        Ok(None) => {
            return Ok(Tags::none());
        },
        Err(e) => {
            return Err(e);
        },
    };
    let mut tags = Tags::none();
    match collect_tags(input, end, &mut tags) {
        Ok(_) => Ok(tags),
        Err(e) => Err(e),
    }
}

/// An atom of the list of tags: its header, and a `data` atom with eight
/// bytes of flags, which give the type, and the content.
pub open spec fn data_atom(name: Seq<char>, flags: Seq<u8>, content: Seq<u8>) -> Seq<u8> {
    be_bytes_u32(len32(content.len() + flags.len() + 16)) + latin1_bytes(name) + be_bytes_u32(
        len32(content.len() + flags.len() + 8),
    ) + latin1_bytes("data"@) + flags + content
}

/// The flags of text.
pub open spec fn text_flags() -> Seq<u8> {
    seq![0u8, 0u8, 0u8, 1u8, 0u8, 0u8, 0u8, 0u8]
}

/// The flags of a number.
pub open spec fn number_flags() -> Seq<u8> {
    seq![0u8, 0u8, 0u8, 0x15u8, 0u8, 0u8, 0u8, 0u8]
}

/// The flags of number and total.
pub open spec fn pair_flags() -> Seq<u8> {
    seq![0u8, 0u8, 0u8, 0u8, 0u8, 0u8, 0u8, 0u8]
}

/// The flags of an image: the type 13 for JPEG, 14 for PNG.
pub open spec fn image_flags(kind: u8) -> Seq<u8> {
    seq![0u8, 0u8, 0u8, kind, 0u8, 0u8, 0u8, 0u8]
}

/// The atom of a text field: only a value that is not empty is written.
pub open spec fn text_atom(name: Seq<char>, field: TagOption<Seq<char>>) -> Seq<u8> {
    match field {
        TagOption::Present(t) => if t.len() > 0 {
            data_atom(name, text_flags(), text_bytes(t))
        } else {
            Seq::empty()
        },
        _ => Seq::empty(),
    }
}

/// The atom of a date of which at least the year is known.
pub open spec fn date_atom(field: TagOption<DateTime>) -> Seq<u8> {
    match field {
        TagOption::Present(d) => if iso_8601_text(d).len() > 0 {
            data_atom("©day"@, text_flags(), text_bytes(iso_8601_text(d)))
        } else {
            Seq::empty()
        },
        _ => Seq::empty(),
    }
}

/// The low 16 bits of a number; 0 without a number.
pub open spec fn low16(field: TagOption<i64>) -> u16 {
    match field {
        TagOption::Present(n) => (n as int % 0x1_0000) as u16,
        _ => 0,
    }
}

/// The atom of number and total, which is always written: two bytes, then
/// each in 16 bits.
pub open spec fn pair_atom(name: Seq<char>, number: TagOption<i64>, total: TagOption<i64>) -> Seq<
    u8,
> {
    data_atom(
        name,
        pair_flags(),
        seq![0u8, 0u8] + be_bytes_u16(low16(number)) + be_bytes_u16(low16(total)),
    )
}

/// The atom of the tempo, which is always written.
pub open spec fn tempo_atom(field: TagOption<i64>) -> Seq<u8> {
    data_atom("tmpo"@, number_flags(), be_bytes_u16(low16(field)))
}

/// The atom that marks a compilation.
pub open spec fn compilation_atom(field: TagOption<bool>) -> Seq<u8> {
    if field == TagOption::Present(true) {
        data_atom("cpil"@, number_flags(), seq![1u8])
    } else {
        Seq::empty()
    }
}

/// The atom of the cover, if there is an image.
pub open spec fn cover_atom(field: TagOption<ImageView>) -> Seq<u8> {
    match field {
        TagOption::Present(ImageView::JPEG(v)) => data_atom("covr"@, image_flags(13), v),
        TagOption::Present(ImageView::PNG(v)) => data_atom("covr"@, image_flags(14), v),
        _ => Seq::empty(),
    }
}

/// Appends the atom `name` with one data atom of the given flags and content.
fn push_data_atom(vec: &mut Vec<u8>, name: &str, flags: &Vec<u8>, content: &[u8])
    ensures
        final(vec)@ == old(vec)@ + data_atom(name@, flags@, content@),
{
    let mut atom = encode_int_be_u32(len_u32_sum(content.len(), flags.len(), 16));
    let n = encode_iso_8859_1(name);
    append_bytes(&mut atom, n.as_slice());
    let inner = encode_int_be_u32(len_u32_sum(content.len(), flags.len(), 8));
    append_bytes(&mut atom, inner.as_slice());
    let d = encode_iso_8859_1("data");
    append_bytes(&mut atom, d.as_slice());
    append_bytes(&mut atom, flags.as_slice());
    append_bytes(&mut atom, content);
    append_bytes(vec, atom.as_slice());
}

/// The sum of two lengths and a small number as the 32 bits of a length
/// field hold it.
fn len_u32_sum(a: usize, b: usize, c: u8) -> (r: u32)
    ensures
        r == len32((a + b + c) as nat),
{
    ((a as u128 + b as u128 + c as u128) % 0x1_0000_0000) as u32
}

/// The eight bytes of flags of a data atom with the given type.
fn flags_of(kind: u8) -> (r: Vec<u8>)
    ensures
        r@ == image_flags(kind),
        text_flags() == image_flags(1),
        number_flags() == image_flags(0x15),
        pair_flags() == image_flags(0),
{
    let mut r: Vec<u8> = Vec::new();
    r.push(0);
    r.push(0);
    r.push(0);
    r.push(kind);
    r.push(0);
    r.push(0);
    r.push(0);
    r.push(0);
    proof {
        assert(r@ =~= image_flags(kind));
        assert(text_flags() =~= image_flags(1));
        assert(number_flags() =~= image_flags(0x15));
        assert(pair_flags() =~= image_flags(0));
    }
    r
}

/// Appends the text atom for `field`, if it holds a text that is not empty.
fn push_text_atom(vec: &mut Vec<u8>, name: &str, field: &TagOption<String>)
    ensures
        final(vec)@ == old(vec)@ + text_atom(name@, field@),
{
    match field {
        TagOption::Present(t) => {
            if t.as_str().is_empty() {
                proof {
                    assert(vec@ =~= vec@ + Seq::<u8>::empty());
                }
            } else {
                push_data_atom(vec, name, &flags_of(1), t.as_str().as_bytes());
            }
        },
        _ => {
            proof {
                assert(vec@ =~= vec@ + Seq::<u8>::empty());
            }
        },
    }
}

/// Appends the atom for the date, if at least its year is known.
fn push_date_atom(vec: &mut Vec<u8>, field: &TagOption<DateTime>)
    ensures
        final(vec)@ == old(vec)@ + date_atom(*field),
{
    match field {
        TagOption::Present(d) => {
            let text = d.to_iso_8601();
            if text.as_str().is_empty() {
                proof {
                    assert(vec@ =~= vec@ + Seq::<u8>::empty());
                }
            } else {
                push_data_atom(vec, "©day", &flags_of(1), text.as_str().as_bytes());
            }
        },
        _ => {
            proof {
                assert(vec@ =~= vec@ + Seq::<u8>::empty());
            }
        },
    }
}

/// The low 16 bits of the number of a field; zero where there is none.
fn tag_to_u16(field: &TagOption<i64>) -> (r: u16)
    ensures
        r == low16(*field),
{
    match field {
        TagOption::Present(n) => {
            let n: i64 = *n;
            if n >= 0 {
                (n % 0x1_0000) as u16
            } else {
                let k: i64 = -(n + 1);
                (0xFFFF - k % 0x1_0000) as u16
            }
        },
        _ => 0,
    }
}

/// Appends the atom for a number and its total; it is always written.
fn push_pair_atom(vec: &mut Vec<u8>, name: &str, number: &TagOption<i64>, total: &TagOption<i64>)
    ensures
        final(vec)@ == old(vec)@ + pair_atom(name@, *number, *total),
{
    let mut content: Vec<u8> = Vec::new();
    content.push(0);
    content.push(0);
    let a = encode_int_be_u16(tag_to_u16(number));
    append_bytes(&mut content, a.as_slice());
    let b = encode_int_be_u16(tag_to_u16(total));
    append_bytes(&mut content, b.as_slice());
    proof {
        assert(content@ =~= seq![0u8, 0u8] + be_bytes_u16(low16(*number)) + be_bytes_u16(
            low16(*total),
        ));
    }
    push_data_atom(vec, name, &flags_of(0), content.as_slice());
}

/// Appends the atom for the tempo; it is always written.
fn push_tempo_atom(vec: &mut Vec<u8>, field: &TagOption<i64>)
    ensures
        final(vec)@ == old(vec)@ + tempo_atom(*field),
{
    let content = encode_int_be_u16(tag_to_u16(field));
    push_data_atom(vec, "tmpo", &flags_of(0x15), content.as_slice());
}

/// Appends the atom that marks a compilation, if the tags are marked so.
fn push_compilation_atom(vec: &mut Vec<u8>, field: &TagOption<bool>)
    ensures
        final(vec)@ == old(vec)@ + compilation_atom(*field),
{
    match field {
        TagOption::Present(true) => {
            let mut content: Vec<u8> = Vec::new();
            content.push(1);
            proof {
                assert(content@ =~= seq![1u8]);
            }
            push_data_atom(vec, "cpil", &flags_of(0x15), content.as_slice());
        },
        _ => {
            proof {
                assert(vec@ =~= vec@ + Seq::<u8>::empty());
            }
        },
    }
}

/// Appends the atom for the cover, if it holds an image.
fn push_cover_atom(vec: &mut Vec<u8>, field: &TagOption<Image>)
    ensures
        final(vec)@ == old(vec)@ + cover_atom(field@),
{
    match field {
        TagOption::Present(Image::JPEG(x)) => {
            push_data_atom(vec, "covr", &flags_of(13), x.as_slice());
        },
        TagOption::Present(Image::PNG(x)) => {
            push_data_atom(vec, "covr", &flags_of(14), x.as_slice());
        },
        _ => {
            proof {
                assert(vec@ =~= vec@ + Seq::<u8>::empty());
            }
        },
    }
}

/// After `before`, the atoms of the names.
#[verifier::opaque]
pub open spec fn name_atoms(before: Seq<u8>, t: TagsView) -> Seq<u8> {
    before + text_atom("©nam"@, t.title) + text_atom("©alb"@, t.album)
        + text_atom("©art"@, t.artist) + text_atom("aART"@, t.album_artist)
        + text_atom("©wrt"@, t.composer) + text_atom("©grp"@, t.grouping)
        + text_atom("©gen"@, t.genre)
}

/// Appends the atoms of the names.
fn push_name_atoms(vec: &mut Vec<u8>, t: &Tags)
    ensures
        final(vec)@ == name_atoms(old(vec)@, t@),
{
    reveal(name_atoms);
    push_text_atom(vec, "©nam", &t.title);
    push_text_atom(vec, "©alb", &t.album);
    push_text_atom(vec, "©art", &t.artist);
    push_text_atom(vec, "aART", &t.album_artist);
    push_text_atom(vec, "©wrt", &t.composer);
    push_text_atom(vec, "©grp", &t.grouping);
    push_text_atom(vec, "©gen", &t.genre);
}

/// After `before`, the atoms of date, track, disc, tempo and compilation.
#[verifier::opaque]
pub open spec fn number_atoms(before: Seq<u8>, t: TagsView) -> Seq<u8> {
    before + date_atom(t.date) + pair_atom("trkn"@, t.track_number, t.track_total)
        + pair_atom("disk"@, t.disc_number, t.disc_total) + tempo_atom(t.bpm)
        + compilation_atom(t.is_compilation)
}

/// Appends the atoms of date, track, disc, tempo and compilation.
fn push_number_atoms(vec: &mut Vec<u8>, t: &Tags)
    ensures
        final(vec)@ == number_atoms(old(vec)@, t@),
{
    reveal(number_atoms);
    push_date_atom(vec, &t.date);
    push_pair_atom(vec, "trkn", &t.track_number, &t.track_total);
    push_pair_atom(vec, "disk", &t.disc_number, &t.disc_total);
    push_tempo_atom(vec, &t.bpm);
    push_compilation_atom(vec, &t.is_compilation);
}

/// After `before`, the atoms of the comment, the sort names and the cover.
#[verifier::opaque]
pub open spec fn sort_atoms(before: Seq<u8>, t: TagsView) -> Seq<u8> {
    before + text_atom("©cmt"@, t.comment) + text_atom("sonm"@, t.sort_title)
        + text_atom("soal"@, t.sort_album) + text_atom("soar"@, t.sort_artist)
        + text_atom("soaa"@, t.sort_album_artist) + text_atom("soco"@, t.sort_composer)
        + cover_atom(t.front_cover)
}

/// Appends the atoms of the comment, the sort names and the cover.
fn push_sort_atoms(vec: &mut Vec<u8>, t: &Tags)
    ensures
        final(vec)@ == sort_atoms(old(vec)@, t@),
{
    reveal(sort_atoms);
    push_text_atom(vec, "©cmt", &t.comment);
    push_text_atom(vec, "sonm", &t.sort_title);
    push_text_atom(vec, "soal", &t.sort_album);
    push_text_atom(vec, "soar", &t.sort_artist);
    push_text_atom(vec, "soaa", &t.sort_album_artist);
    push_text_atom(vec, "soco", &t.sort_composer);
    push_cover_atom(vec, &t.front_cover);
}

/// After `before`, the atoms of the tags in the order in which they are written.
pub open spec fn list_atoms(before: Seq<u8>, t: TagsView) -> Seq<u8> {
    sort_atoms(number_atoms(name_atoms(before, t), t), t)
}

/// `out` with `delta` added to the number of four bytes at `at`, in the 32
/// bits of the field.
pub open spec fn patched(out: Seq<u8>, at: int, delta: int) -> Seq<u8> {
    let value = ((be_value(out.subrange(at, at + 4)) + delta) % 0x1_0000_0000) as u32;
    Seq::new(
        out.len(),
        |i: int|
            if at <= i < at + 4 {
                be_bytes_u32(value)[i - at]
            } else {
                out[i]
            },
    )
}

/// `out` with `delta` added to the size at `at`, if an atom was seen there.
pub open spec fn opt_patched(out: Seq<u8>, at: Option<usize>, delta: int) -> Seq<u8> {
    match at {
        Some(at) => patched(out, at as int, delta),
        None => out,
    }
}

/// `out` with `delta` added to each of the `n` numbers of four bytes from `from` on.
pub open spec fn entries_patched(out: Seq<u8>, from: int, n: nat, delta: int) -> Seq<u8>
    decreases n,
{
    if n == 0 {
        out
    } else {
        entries_patched(patched(out, from, delta), from + 4, (n - 1) as nat, delta)
    }
}

/// How many chunk offsets the table of the `stco` atom at `at` in `out`
/// holds: as many as its count says, but no more than lie within the atom
/// and within `out`.
pub open spec fn offsets_held(out: Seq<u8>, at: int) -> nat {
    if at + 16 > out.len() {
        0
    } else {
        let size = be_value(out.subrange(at, at + 4)) as int;
        let count = be_value(out.subrange(at + 12, at + 16)) as int;
        let end = if at + size < out.len() {
            at + size
        } else {
            out.len() as int
        };
        let room = if end >= at + 16 {
            (end - (at + 16)) / 4
        } else {
            0
        };
        (if count < room {
            count
        } else {
            room
        }) as nat
    }
}

/// `out` with `delta` added to every chunk offset of the `stco` atom at `at`.
pub open spec fn offsets_patched(out: Seq<u8>, at: int, delta: int) -> Seq<u8> {
    entries_patched(out, at + 16, offsets_held(out, at), delta)
}

/// What has been written so far, and where the atoms stand in it whose
/// sizes or offsets change with the list of tags.
pub struct Rewrite {
    pub out: Vec<u8>,
    pub moov: Option<usize>,
    pub udta: Option<usize>,
    pub meta: Option<usize>,
    pub stco: Option<usize>,
}

/// What contracts say of a [`Rewrite`].
pub struct RewriteView {
    pub out: Seq<u8>,
    pub moov: Option<usize>,
    pub udta: Option<usize>,
    pub meta: Option<usize>,
    pub stco: Option<usize>,
}

impl View for Rewrite {
    type V = RewriteView;

    open spec fn view(&self) -> RewriteView {
        RewriteView {
            out: self.out@,
            moov: self.moov,
            udta: self.udta,
            meta: self.meta,
            stco: self.stco,
        }
    }
}

impl RewriteView {
    /// Nothing written yet.
    pub open spec fn start() -> RewriteView {
        RewriteView { out: Seq::empty(), moov: None, udta: None, meta: None, stco: None }
    }

    /// Whether each atom that is remembered starts within what is written.
    pub open spec fn well_formed(self) -> bool {
        &&& self.moov is Some ==> self.moov->0 + 8 <= self.out.len()
        &&& self.udta is Some ==> self.udta->0 + 8 <= self.out.len()
        &&& self.meta is Some ==> self.meta->0 + 8 <= self.out.len()
        &&& self.stco is Some ==> self.stco->0 + 8 <= self.out.len()
    }
}

/// The message of the error for media data without a table of chunk offsets
/// before it.
pub open spec fn no_stco() -> Seq<char> {
    "Could not find stco atom"@
}

/// The message of the error for a file without media data.
pub open spec fn no_mdat() -> Seq<char> {
    "Could not find mdat atom"@
}

/// The list of tags rewritten: its header, and the atoms of the tags that
/// it held, updated by `new`; the sizes of the list and of the atoms
/// around it that were seen grow by what the list grew.
pub open spec fn list_rewritten(st: RewriteView, header: Seq<u8>, old: TagsView,
    new: TagsView) -> RewriteView {
    let at = st.out.len() as int;
    let out = list_atoms(st.out + header, delta_view(old, new));
    let delta = out.len() - at - atom_size(header);
    RewriteView {
        out: patched(
            opt_patched(opt_patched(opt_patched(out, st.moov, delta), st.udta, delta), st.meta,
                delta),
            at,
            delta,
        ),
        ..st
    }
}

/// What is written after the atom with the given header at `pos`, which
/// is not `mdat`, and where the cursor stands after it. The atoms on the way
/// to the list of tags and to the chunk offsets are entered and
/// remembered; the list of tags is written anew; the chunk offsets and any
/// other atom are kept as they are.
pub open spec fn atom_rewritten(
    data: Seq<u8>,
    pos: int,
    header: Seq<u8>,
    st: RewriteView,
    new: TagsView,
) -> Result<(RewriteView, int), ErrorView> {
    let at = st.out.len() as usize;
    let size = atom_size(header);
    let name = atom_name(header);
    let n = data.len() as int;
    if name == "moov"@ {
        Ok((RewriteView { out: st.out + header, moov: Some(at), ..st }, pos + 8))
    } else if name == "trak"@ || name == "mdia"@ || name == "minf"@ || name == "stbl"@ {
        Ok((RewriteView { out: st.out + header, ..st }, pos + 8))
    } else if name == "udta"@ {
        Ok((RewriteView { out: st.out + header, udta: Some(at), ..st }, pos + 8))
    } else if name == "meta"@ {
        Ok(
            (
                RewriteView {
                    out: st.out + header + read_filled(data, pos + 8, 4, 0),
                    meta: Some(at),
                    ..st
                },
                pos + 8 + avail(n, pos + 8, 4),
            ),
        )
    } else if name == "ilst"@ {
        match list_read(data, pos + 8, atom_end(pos, size), TagsView::none()) {
            Err(e) => Err(e),
            Ok((old, p)) => Ok((list_rewritten(st, header, old, new), p)),
        }
    } else if size < 8 {
        Err(ErrorView::TagError(invalid_atom()))
    } else {
        Ok(
            (
                RewriteView {
                    out: st.out + header + read_filled(data, pos + 8, size - 8, 0),
                    stco: if name == "stco"@ {
                        Some(at)
                    } else {
                        st.stco
                    },
                    ..st
                },
                pos + 8 + avail(n, pos + 8, size - 8),
            ),
        )
    }
}

/// The file rewritten from the atom at `pos` on, behind what `st` holds.
/// At `mdat` the chunk offsets are moved by as much as the media data
/// moved, and the rest of the file follows as it is. Fails where the data
/// ends before `mdat`, where `mdat` comes before the chunk offsets, and at
/// an atom whose size is smaller than its header.
pub open spec fn atoms_rewritten(data: Seq<u8>, pos: int, st: RewriteView, new: TagsView) -> Result<
    Seq<u8>,
    ErrorView,
>
    decreases
            (if pos < data.len() {
                data.len() - pos
            } else {
                0
            }),
{
    if pos < 0 || pos + 8 > data.len() {
        Err(ErrorView::TagError(no_mdat()))
    } else {
        let header = data.subrange(pos, pos + 8);
        if 1 < atom_size(header) < 8 {
            Err(ErrorView::TagError(invalid_atom()))
        } else if atom_name(header) == "mdat"@ {
            match st.stco {
                None => Err(ErrorView::TagError(no_stco())),
                Some(at) => Ok(
                    offsets_patched(st.out, at as int, st.out.len() - pos) + rest(data, pos),
                ),
            }
        } else {
            match atom_rewritten(data, pos, header, st, new) {
                Err(e) => Err(e),
                Ok((next, p)) => if p <= pos {
                    Err(ErrorView::TagError(invalid_atom()))
                } else {
                    atoms_rewritten(data, p, next, new)
                },
            }
        }
    }
}

/// The MP4 file at `pos` with its tags updated by `new`.
pub open spec fn m4a_rewritten(data: Seq<u8>, pos: int, new: TagsView) -> Result<
    Seq<u8>,
    ErrorView,
> {
    atoms_rewritten(data, pos, RewriteView::start(), new)
}

/// Adds `delta` to the number of four bytes at `at`.
fn patch(out: &mut Vec<u8>, at: usize, delta: i128)
    requires
        at + 4 <= old(out).len(),
        -0x1_0000_0000_0000_0000_0000 < delta < 0x1_0000_0000_0000_0000_0000,
    ensures
        final(out)@ == patched(old(out)@, at as int, delta as int),
{
    proof {
        lemma_be_value_bound(out@.subrange(at as int, at + 4));
    }
    let x = decode_int_be_u32(slice_subrange(out.as_slice(), at, at + 4));
    let shifted: i128 = x as i128 + delta + 0x1_0000_0000_0000_0000_0000_0000;
    let value: u32 = (shifted % 0x1_0000_0000) as u32;
    proof {
        vstd::arithmetic::div_mod::lemma_mod_multiples_vanish(
            0x1_0000_0000_0000_0000,
            x + delta,
            0x1_0000_0000,
        );
        assert(0x1_0000_0000 * 0x1_0000_0000_0000_0000 == 0x1_0000_0000_0000_0000_0000_0000int)
            by (nonlinear_arith);
        assert(value == ((be_value(out@.subrange(at as int, at + 4)) + delta) % 0x1_0000_0000)
            as u32);
    }
    let bytes = encode_int_be_u32(value);
    out[at] = bytes[0];
    out[at + 1] = bytes[1];
    out[at + 2] = bytes[2];
    out[at + 3] = bytes[3];
    proof {
        assert(out@ =~= patched(old(out)@, at as int, delta as int));
    }
}

/// Moves the size at `at`, if an atom was remembered there.
fn opt_patch(out: &mut Vec<u8>, at: Option<usize>, delta: i128)
    requires
        at is Some ==> at->0 + 4 <= old(out).len(),
        -0x1_0000_0000_0000_0000_0000 < delta < 0x1_0000_0000_0000_0000_0000,
    ensures
        final(out)@ == opt_patched(old(out)@, at, delta as int),
        final(out)@.len() == old(out)@.len(),
{
    if let Some(at) = at {
        patch(out, at, delta);
    }
}

/// Moves the chunk offsets of the `stco` atom at `at` by `delta`.
fn patch_offsets(out: &mut Vec<u8>, at: usize, delta: i128)
    requires
        -0x1_0000_0000_0000_0000_0000 < delta < 0x1_0000_0000_0000_0000_0000,
    ensures
        final(out)@ == offsets_patched(old(out)@, at as int, delta as int),
{
    let len: usize = out.len();
    if len < 16 || at > len - 16 {
        return ;
    }
    proof {
        lemma_be_value_bound(out@.subrange(at as int, at + 4));
        lemma_be_value_bound(out@.subrange(at + 12, at + 16));
    }
    let size = decode_int_be_u32(slice_subrange(out.as_slice(), at, at + 4)) as usize;
    let count = decode_int_be_u32(slice_subrange(out.as_slice(), at + 12, at + 16)) as usize;
    let end: usize = if size < len - at {
        at + size
    } else {
        len
    };
    let room: usize = if end >= at + 16 {
        (end - (at + 16)) / 4
    } else {
        0
    };
    let held: usize = if count < room {
        count
    } else {
        room
    };
    let mut i: usize = 0;
    while i < held
        invariant
            i <= held,
            at + 16 + 4 * held <= len,
            out@.len() == len,
            -0x1_0000_0000_0000_0000_0000 < delta < 0x1_0000_0000_0000_0000_0000,
            entries_patched(out@, at + 16 + 4 * i, (held - i) as nat, delta as int)
                == offsets_patched(old(out)@, at as int, delta as int),
        decreases held - i,
    {
        patch(out, at + 16 + 4 * i, delta);
        i = i + 1;
    }
}

/// Writes the list of tags anew behind `st.out`, which ends with the
/// header of the list as it was.
fn rewrite_list(st: &mut Rewrite, at: usize, size: u32, held: &Tags, new: &Tags)
    requires
        old(st)@.well_formed(),
        at + 8 == old(st).out@.len(),
        size == atom_size(old(st).out@.subrange(at as int, at + 8)),
    ensures
        final(st)@ == list_rewritten(
            RewriteView { out: old(st).out@.subrange(0, at as int), ..old(st)@ },
            old(st).out@.subrange(at as int, at + 8),
            held@,
            new@,
        ),
        final(st)@.well_formed(),
{
    let ghost before = st.out@;
    proof {
        assert(before.subrange(0, at as int) + before.subrange(at as int, at + 8) =~= before);
    }
    let tags = delta(held, new);
    push_name_atoms(&mut st.out, &tags);
    push_number_atoms(&mut st.out, &tags);
    push_sort_atoms(&mut st.out, &tags);
    proof {
        lemma_list_atoms_grow(before, tags@);
    }
    let grown: i128 = st.out.len() as i128 - at as i128 - size as i128;
    opt_patch(&mut st.out, st.moov, grown);
    opt_patch(&mut st.out, st.udta, grown);
    opt_patch(&mut st.out, st.meta, grown);
    patch(&mut st.out, at, grown);
}

/// The atoms of the tags are written behind what was there.
pub proof fn lemma_list_atoms_grow(before: Seq<u8>, t: TagsView)
    ensures
        list_atoms(before, t).len() >= before.len(),
{
    reveal(name_atoms);
    reveal(number_atoms);
    reveal(sort_atoms);
}

/// Copies the atom of `size` bytes whose header `buf` was read.
fn copy_atom(input: &mut Store, st: &mut Rewrite, buf: &Vec<u8>, content: usize)
    ensures
        final(input).data == old(input).data,
        final(input).pos == old(input).pos + avail(
            old(input).data@.len() as int,
            old(input).pos as int,
            content as int,
        ),
        final(st)@ == (RewriteView {
            out: old(st).out@ + buf@ + read_filled(
                old(input).data@,
                old(input).pos as int,
                content as int,
                0,
            ),
            ..old(st)@
        }),
{
    append_bytes(&mut st.out, buf.as_slice());
    let rest = input.read_filled(content, 0);
    append_bytes(&mut st.out, rest.as_slice());
}

/// Rewrites the atom whose header `buf` was read at `start`.
fn rewrite_atom(input: &mut Store, st: &mut Rewrite, buf: &Vec<u8>, start: u64, new: &Tags) -> (r:
    Result<(), Error>)
    requires
        old(st)@.well_formed(),
        buf@.len() == 8,
        old(input).pos == start + 8,
    ensures
        final(input).data == old(input).data,
        match atom_rewritten(old(input).data@, start as int, buf@, old(st)@, new@) {
            Ok((next, p)) => r is Ok && final(st)@ == next && final(input).pos == p
                && next.well_formed(),
            Err(e) => r is Err && r->Err_0@ == e,
        },
{
    proof {
        lemma_be_value_bound(buf@.subrange(0, 4));
    }
    let size = decode_int_be_u32(slice_subrange(buf.as_slice(), 0, 4));
    let name = decode_iso_8859_1(slice_subrange(buf.as_slice(), 4, 8));
    let name = name.as_str();
    let at: usize = st.out.len();
    if str_eq(name, "moov") {
        st.moov = Some(at);
        append_bytes(&mut st.out, buf.as_slice());
        Ok(())
    } else if str_eq(name, "trak") || str_eq(name, "mdia") || str_eq(name, "minf") || str_eq(
        name,
        "stbl",
    ) {
        append_bytes(&mut st.out, buf.as_slice());
        Ok(())
    } else if str_eq(name, "udta") {
        st.udta = Some(at);
        append_bytes(&mut st.out, buf.as_slice());
        Ok(())
    } else if str_eq(name, "meta") {
        st.meta = Some(at);
        copy_atom(input, st, buf, 4);
        Ok(())
    } else if str_eq(name, "ilst") {
        let mut held = Tags::none();
        match collect_tags(input, start.saturating_add(size as u64), &mut held) {
            Ok(_) => {},
            Err(e) => {
                return Err(e);
            },
        }
        let ghost before = st.out@;
        append_bytes(&mut st.out, buf.as_slice());
        proof {
            assert(st.out@.subrange(0, at as int) =~= before);
            assert(st.out@.subrange(at as int, at + 8) =~= buf@);
        }
        rewrite_list(st, at, size, &held, new);
        Ok(())
    } else if size < 8 {
        Err(tag_error("Found invalid atom while parsing m4a structure"))
    } else {
        if str_eq(name, "stco") {
            st.stco = Some(at);
        }
        copy_atom(input, st, buf, size as usize - 8);
        Ok(())
    }
}

/// Rewrites the MP4 file in `input` into `output` with its tags updated by
/// `new`. Nothing is written where that fails.
pub fn set(input: &mut Store, output: &mut Vec<u8>, new: &Tags) -> (r: Result<(), Error>)
    ensures
        final(input).data == old(input).data,
        match m4a_rewritten(old(input).data@, old(input).pos as int, new@) {
            Ok(file) => r is Ok && final(output)@ == old(output)@ + file,
            Err(e) => r is Err && r->Err_0@ == e && final(output)@ == old(output)@,
        },
{
    let mut st = Rewrite { out: Vec::new(), moov: None, udta: None, meta: None, stco: None };
    let ghost target = m4a_rewritten(input.data@, input.pos as int, new@);
    loop
        invariant
            input.data == old(input).data,
            output@ == old(output)@,
            st@.well_formed(),
            target == m4a_rewritten(old(input).data@, old(input).pos as int, new@),
            atoms_rewritten(input.data@, input.pos as int, st@, new@) == target,
        decreases
                (if input.pos < input.data@.len() {
                    input.data@.len() - input.pos
                } else {
                    0
                }),
    {
        let start: u64 = input.pos;
        let mut buf: Vec<u8> = vec![0u8; 8];
        let n = input.read(&mut buf);
        if n < 8 {
            return Err(tag_error("Could not find mdat atom"));
        }
        proof {
            assert(buf@ =~= input.data@.subrange(start as int, start + 8));
            lemma_be_value_bound(buf@.subrange(0, 4));
        }
        let size = decode_int_be_u32(slice_subrange(buf.as_slice(), 0, 4));
        if size < 8 && size > 1 {
            return Err(tag_error("Found invalid atom while parsing m4a structure"));
        }
        let name = decode_iso_8859_1(slice_subrange(buf.as_slice(), 4, 8));
        if str_eq(name.as_str(), "mdat") {
            let at = match st.stco {
                Some(at) => at,
                None => {
                    return Err(tag_error("Could not find stco atom"));
                },
            };
            let moved: i128 = st.out.len() as i128 - start as i128;
            patch_offsets(&mut st.out, at, moved);
            input.seek_start(start);
            input.copy_rest(&mut st.out);
            append_bytes(output, st.out.as_slice());
            return Ok(());
        }
        match rewrite_atom(input, &mut st, &buf, start, new) {
            Ok(_) => {},
            Err(e) => {
                return Err(e);
            },
        }
        if input.pos <= start {
            return Err(tag_error("Found invalid atom while parsing m4a structure"));
        }
    }
}

} // verus!
