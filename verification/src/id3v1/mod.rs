//! ID3v1: the fixed trailer of 128 bytes at the end of a file.
use vstd::prelude::*;
use vstd::slice::slice_subrange;
use crate::store::Store;
use crate::tools::encoding::decode_iso_8859_1;
use crate::tools::encoding::latin1_text;
use crate::tools::tag_error;
use crate::types::datetime::iso_8601_date;
use crate::types::datetime::DateTime;
use crate::types::tags::from_option;
use crate::types::tags::TagOption;
use crate::types::tags::Tags;
use crate::types::tags::TagsView;
use crate::Error;
use crate::ErrorView;

verus! {

/// The name of the genre with the index `g`; empty from 80 on.
pub open spec fn genre_name(g: u8) -> Seq<char> {
    match g {
        0 => "Blues"@,
        1 => "Classic Rock"@,
        2 => "Country"@,
        3 => "Dance"@,
        4 => "Disco"@,
        5 => "Funk"@,
        6 => "Grunge"@,
        7 => "Hip-Hop"@,
        8 => "Jazz"@,
        9 => "Metal"@,
        10 => "New Age"@,
        11 => "Oldies"@,
        12 => "Other"@,
        13 => "Pop"@,
        14 => "R&B"@,
        15 => "Rap"@,
        16 => "Reggae"@,
        17 => "Rock"@,
        18 => "Techno"@,
        19 => "Industrial"@,
        20 => "Alternative"@,
        21 => "Ska"@,
        22 => "Death Metal"@,
        23 => "Pranks"@,
        24 => "Soundtrack"@,
        25 => "Euro-Techno"@,
        26 => "Ambient"@,
        27 => "Trip-Hop"@,
        28 => "Vocal"@,
        29 => "Jazz+Funk"@,
        30 => "Fusion"@,
        31 => "Trance"@,
        32 => "Classical"@,
        33 => "Instrumental"@,
        34 => "Acid"@,
        35 => "House"@,
        36 => "Game"@,
        37 => "Sound Clip"@,
        38 => "Gospel"@,
        39 => "Noise"@,
        40 => "AlternRock"@,
        41 => "Bass"@,
        42 => "Soul"@,
        43 => "Punk"@,
        44 => "Space"@,
        45 => "Meditative"@,
        46 => "Instrumental Pop"@,
        47 => "Instrumental Rock"@,
        48 => "Ethnic"@,
        49 => "Gothic"@,
        50 => "Darkwave"@,
        51 => "Techno-Industrial"@,
        52 => "Electronic"@,
        53 => "Pop-Folk"@,
        54 => "Eurodance"@,
        55 => "Dream"@,
        56 => "Southern Rock"@,
        57 => "Comedy"@,
        58 => "Cult"@,
        59 => "Gangsta"@,
        60 => "Top 40"@,
        61 => "Christian Rap"@,
        62 => "Pop/Funk"@,
        63 => "Jungle"@,
        64 => "Native American"@,
        65 => "Cabaret"@,
        66 => "New Wave"@,
        67 => "Psychedelic"@,
        68 => "Rave"@,
        69 => "Showtunes"@,
        70 => "Trailer"@,
        71 => "Lo-Fi"@,
        72 => "Tribal"@,
        73 => "Acid Punk"@,
        74 => "Acid Jazz"@,
        75 => "Polka"@,
        76 => "Retro"@,
        77 => "Musical"@,
        78 => "Rock & Roll"@,
        79 => "Hard Rock"@,
        _ => ""@,
    }
}

/// The name of the genre with the index `g`.
fn genre_str(g: u8) -> (r: &'static str)
    ensures
        r@ == genre_name(g),
{
    match g {
        0 => "Blues",
        1 => "Classic Rock",
        2 => "Country",
        3 => "Dance",
        4 => "Disco",
        5 => "Funk",
        6 => "Grunge",
        7 => "Hip-Hop",
        8 => "Jazz",
        9 => "Metal",
        10 => "New Age",
        11 => "Oldies",
        12 => "Other",
        13 => "Pop",
        14 => "R&B",
        15 => "Rap",
        16 => "Reggae",
        17 => "Rock",
        18 => "Techno",
        19 => "Industrial",
        20 => "Alternative",
        21 => "Ska",
        22 => "Death Metal",
        23 => "Pranks",
        24 => "Soundtrack",
        25 => "Euro-Techno",
        26 => "Ambient",
        27 => "Trip-Hop",
        28 => "Vocal",
        29 => "Jazz+Funk",
        30 => "Fusion",
        31 => "Trance",
        32 => "Classical",
        33 => "Instrumental",
        34 => "Acid",
        35 => "House",
        36 => "Game",
        37 => "Sound Clip",
        38 => "Gospel",
        39 => "Noise",
        40 => "AlternRock",
        41 => "Bass",
        42 => "Soul",
        43 => "Punk",
        44 => "Space",
        45 => "Meditative",
        46 => "Instrumental Pop",
        47 => "Instrumental Rock",
        48 => "Ethnic",
        49 => "Gothic",
        50 => "Darkwave",
        51 => "Techno-Industrial",
        52 => "Electronic",
        53 => "Pop-Folk",
        54 => "Eurodance",
        55 => "Dream",
        56 => "Southern Rock",
        57 => "Comedy",
        58 => "Cult",
        59 => "Gangsta",
        60 => "Top 40",
        61 => "Christian Rap",
        62 => "Pop/Funk",
        63 => "Jungle",
        64 => "Native American",
        65 => "Cabaret",
        66 => "New Wave",
        67 => "Psychedelic",
        68 => "Rave",
        69 => "Showtunes",
        70 => "Trailer",
        71 => "Lo-Fi",
        72 => "Tribal",
        73 => "Acid Punk",
        74 => "Acid Jazz",
        75 => "Polka",
        76 => "Retro",
        77 => "Musical",
        78 => "Rock & Roll",
        79 => "Hard Rock",
        _ => "",
    }
}

/// The name of the genre with the index `g`; empty from 80 on.
pub fn get_genre(g: u8) -> (r: String)
    ensures
        r@ == genre_name(g),
        g >= 80 ==> r@.len() == 0,
{
    proof {
        reveal_strlit("");
    }
    String::from_str(genre_str(g))
}

/// Whether `data` ends in an ID3v1 trailer: 128 bytes that start with `TAG`.
pub open spec fn has_trailer(data: Seq<u8>) -> bool {
    &&& data.len() >= 128
    &&& data[data.len() - 128] == 0x54
    &&& data[data.len() - 127] == 0x41
    &&& data[data.len() - 126] == 0x47
}

/// The tags of the trailer `arr` of 128 bytes: title, artist and album of
/// 30 bytes each, the year of 4, the comment of 28, a zero before the track
/// number, and the index of the genre.
pub open spec fn trailer_tags(arr: Seq<u8>) -> TagsView {
    TagsView {
        title: TagOption::Present(latin1_text(arr.subrange(3, 33))),
        artist: TagOption::Present(latin1_text(arr.subrange(33, 63))),
        album: TagOption::Present(latin1_text(arr.subrange(63, 93))),
        date: from_option(iso_8601_date(latin1_text(arr.subrange(93, 97)))),
        comment: TagOption::Present(latin1_text(arr.subrange(97, 125))),
        track_number: if arr[125] == 0 {
            TagOption::Present(arr[126] as i64)
        } else {
            TagOption::Absent
        },
        genre: TagOption::Present(genre_name(arr[127])),
        ..TagsView::none()
    }
}

/// What reading the ID3v1 tags of `data` gives.
pub open spec fn id3v1_tags(data: Seq<u8>) -> Result<TagsView, ErrorView> {
    if data.len() < 128 {
        Err(ErrorView::IOError)
    } else if has_trailer(data) {
        Ok(trailer_tags(data.subrange(data.len() - 128, data.len() as int)))
    } else {
        Err(ErrorView::TagError("ID3 tags not found"@))
    }
}

/// Whether the store ends in an ID3v1 trailer.
pub fn has_id3v1(input: &mut Store) -> (r: bool)
    ensures
        r == has_trailer(old(input).data@),
        final(input).data == old(input).data,
        final(input).pos == (if old(input).data@.len() >= 128 {
            (old(input).data@.len() - 125) as u64
        } else {
            old(input).pos
        }),
{
    if input.seek_end(-128).is_err() {
        return false;
    }
    let arr = input.read_filled(3, 0);
    arr[0] == 0x54 && arr[1] == 0x41 && arr[2] == 0x47
}

/// Reads the ID3v1 tags at the end of the store.
pub fn get(input: &mut Store) -> (r: Result<Tags, Error>)
    ensures
        crate::view_result(r) == id3v1_tags(old(input).data@),
        final(input).data == old(input).data,
        final(input).pos == (if old(input).data@.len() >= 128 {
            old(input).data@.len() as u64
        } else {
            old(input).pos
        }),
{
    match input.seek_end(-128) {
        Ok(_) => {},
        Err(e) => {
            return Err(e);
        },
    }
    let arr = input.read_filled(128, 0);
    let ghost data = input.data@;
    proof {
        assert(arr@ =~= data.subrange(data.len() - 128, data.len() as int));
    }
    if arr[0] == 0x54 && arr[1] == 0x41 && arr[2] == 0x47 {
        let a = arr.as_slice();
        let year = decode_iso_8859_1(slice_subrange(a, 93, 97));
        let mut tags = Tags::none();
        tags.title = TagOption::Present(decode_iso_8859_1(slice_subrange(a, 3, 33)));
        tags.artist = TagOption::Present(decode_iso_8859_1(slice_subrange(a, 33, 63)));
        tags.album = TagOption::Present(decode_iso_8859_1(slice_subrange(a, 63, 93)));
        tags.date = TagOption::from(DateTime::from_iso_8601(year.as_str()));
        tags.comment = TagOption::Present(decode_iso_8859_1(slice_subrange(a, 97, 125)));
        tags.track_number = if arr[125] == 0 {
            TagOption::Present(arr[126] as i64)
        } else {
            TagOption::Absent
        };
        tags.genre = TagOption::Present(get_genre(arr[127]));
        Ok(tags)
    } else {
        Err(tag_error("ID3 tags not found"))
    }
}

} // verus!
