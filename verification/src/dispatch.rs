//! The front door: reading and writing tags by the kind of file.
use vstd::prelude::*;
use crate::flac::flac_rewritten;
use crate::flac::flac_tags;
use crate::id3v1::has_id3v1;
use crate::id3v1::has_trailer;
use crate::id3v1::id3v1_tags;
use crate::id3v2::id3v2_tags;
use crate::id3v2::audio_start;
use crate::id3v2::rewritten;
use crate::id3v2::tag_written;
use crate::id3v2::tags_before;
use crate::store::rest;
use crate::tools::tags::delta_view;
use crate::m4a::m4a_rewritten;
use crate::m4a::m4a_tags;
use crate::store::Store;
use crate::tools::tag_error;
use crate::tools::text::str_eq;
use crate::types::image::Image;
use crate::types::image::ImageView;
use crate::types::tags::TagOption;
use crate::types::tags::Tags;
use crate::types::tags::TagsView;
use crate::Error;
use crate::ErrorView;

verus! {

/// The message of the error for a file of a kind that is not supported.
pub open spec fn unsupported() -> Seq<char> {
    "Unsupported file format"@
}

/// The tags of the file `data` whose name ends in `extension`: `mp3` for
/// ID3v2 and, where that is no such tag, ID3v1; `flac`; `m4a`.
pub open spec fn tags_read(extension: Seq<char>, data: Seq<u8>) -> Result<TagsView, ErrorView> {
    if extension == "mp3"@ {
        match id3v2_tags(data) {
            Ok(t) => Ok(t),
            Err(ErrorView::IOError) => Err(ErrorView::IOError),
            Err(ErrorView::TagError(_)) => id3v1_tags(data),
        }
    } else if extension == "flac"@ {
        flac_tags(data, 0)
    } else if extension == "m4a"@ {
        m4a_tags(data, 0)
    } else {
        Err(ErrorView::TagError(unsupported()))
    }
}

/// `file` without the ID3v1 trailer, if it ends in one.
pub open spec fn without_trailer(file: Seq<u8>) -> Seq<u8> {
    if has_trailer(file) {
        file.subrange(0, file.len() - 128)
    } else {
        file
    }
}

/// The file `data` whose name ends in `extension`, with its tags updated
/// by `new`. An `mp3` file loses its ID3v1 trailer.
pub open spec fn file_written(extension: Seq<char>, data: Seq<u8>, new: TagsView) -> Result<
    Seq<u8>,
    ErrorView,
> {
    if extension == "mp3"@ {
        match rewritten(data, new) {
            Ok(file) => Ok(without_trailer(file)),
            Err(e) => Err(e),
        }
    } else if extension == "flac"@ {
        flac_rewritten(data, 0, new)
    } else if extension == "m4a"@ {
        m4a_rewritten(data, 0, new)
    } else {
        Err(ErrorView::TagError(unsupported()))
    }
}

/// Reads the tags of the file in `input`, whose name ends in `extension`.
pub fn get_tags(extension: &str, input: &mut Store) -> (r: Result<Tags, Error>)
    ensures
        crate::view_result(r) == tags_read(extension@, old(input).data@),
        final(input).data == old(input).data,
{
    input.seek_start(0);
    if str_eq(extension, "mp3") {
        match crate::id3v2::get(input) {
            Ok(t) => Ok(t),
            Err(Error::IOError(x)) => Err(Error::IOError(x)),
            Err(Error::TagError(_)) => crate::id3v1::get(input),
        }
    } else if str_eq(extension, "flac") {
        crate::flac::get(input)
    } else if str_eq(extension, "m4a") {
        crate::m4a::get(input)
    } else {
        Err(tag_error("Unsupported file format"))
    }
}

/// The cover that the tags hold; no image if they hold none.
pub open spec fn cover_of(tags: TagsView) -> ImageView {
    match tags.front_cover {
        TagOption::Present(image) => image,
        _ => ImageView::Empty,
    }
}

/// Reads the cover of the file in `input`, whose name ends in `extension`.
pub fn get_front_cover(extension: &str, input: &mut Store) -> (r: Result<Image, Error>)
    ensures
        crate::view_result(r) == (match tags_read(extension@, old(input).data@) {
            Ok(tags) => Ok(cover_of(tags)),
            Err(e) => Err(e),
        }),
        final(input).data == old(input).data,
{
    let tags = match get_tags(extension, input) {
        Ok(t) => t,
        Err(e) => {
            return Err(e);
        },
    };
    match tags.front_cover {
        TagOption::Present(img) => Ok(img),
        _ => Ok(Image::Empty),
    }
}

/// Writes the file in `input`, whose name ends in `extension`, anew with
/// its tags updated by `tags`, and gives the new file.
pub fn set_tags(extension: &str, input: &mut Store, tags: &Tags) -> (r: Result<Vec<u8>, Error>)
    ensures
        (match r {
            Ok(file) => Ok(file@),
            Err(e) => Err(e@),
        }) == file_written(extension@, old(input).data@, tags@),
        final(input).data == old(input).data,
{
    input.seek_start(0);
    let mut output: Vec<u8> = Vec::new();
    if str_eq(extension, "mp3") {
        match crate::id3v2::set(input, &mut output, tags) {
            Ok(_) => {},
            Err(e) => {
                return Err(e);
            },
        }
        let ghost file = output@;
        let mut written = Store::new(output);
        if has_id3v1(&mut written) {
            let Store { data, pos } = written;
            let mut data = data;
            let len: usize = data.len() - 128;
            data.truncate(len);
            proof {
                assert(data@ =~= without_trailer(file));
            }
            Ok(data)
        } else {
            let Store { data, pos } = written;
            Ok(data)
        }
    } else if str_eq(extension, "flac") {
        match crate::flac::set(input, &mut output, tags) {
            Ok(_) => Ok(output),
            Err(e) => Err(e),
        }
    } else if str_eq(extension, "m4a") {
        match crate::m4a::set(input, &mut output, tags) {
            Ok(_) => Ok(output),
            Err(e) => Err(e),
        }
    } else {
        Err(tag_error("Unsupported file format"))
    }
}

/// Writing tags to an `mp3` file and reading them again gives the merged
/// tags: those that the file held, updated by `new`, if they are such as
/// can be stored and the audio is long enough to hold a trailer by itself.
#[verifier::rlimit(50)]
pub proof fn lemma_mp3_round_trip(data: Seq<u8>, new: TagsView)
    requires
        file_written("mp3"@, data, new) is Ok,
        crate::id3v2::roundtrip::storable(delta_view(tags_before(data), new)),
        rest(data, audio_start(data)).len() >= 128,
    ensures
        tags_read("mp3"@, file_written("mp3"@, data, new)->Ok_0) == Ok::<TagsView, ErrorView>(
            delta_view(tags_before(data), new),
        ),
{
    let merged = delta_view(tags_before(data), new);
    let audio = rest(data, audio_start(data));
    let tag = tag_written(merged)->Ok_0;
    let file = rewritten(data, new)->Ok_0;
    assert(file == tag + audio);
    if has_trailer(file) {
        let kept = audio.subrange(0, audio.len() - 128);
        assert(without_trailer(file) =~= tag + kept);
        crate::id3v2::roundtrip::lemma_written_tag_read(merged, kept);
    } else {
        crate::id3v2::roundtrip::lemma_written_tag_read(merged, audio);
    }
}

/// The tags that an `mp3` file is rewritten from are the tags that reading
/// it gives, where reading gives any.
pub proof fn lemma_mp3_tags_before(data: Seq<u8>)
    requires
        tags_read("mp3"@, data) is Ok,
    ensures
        tags_read("mp3"@, data) == Ok::<TagsView, ErrorView>(tags_before(data)),
{
}

/// What reading and writing a `flac` file is.
pub proof fn lemma_flac_files(data: Seq<u8>, new: TagsView)
    ensures
        tags_read("flac"@, data) == flac_tags(data, 0),
        file_written("flac"@, data, new) == flac_rewritten(data, 0, new),
{
    reveal_strlit("flac");
    reveal_strlit("mp3");
    assert("flac"@.len() == 4);
    assert("mp3"@.len() == 3);
}

/// Writing tags to a `flac` file and reading them again gives the merged
/// tags: those that the file held, updated by `new`, if they are such as
/// can be stored.
#[verifier::rlimit(50)]
pub proof fn lemma_flac_round_trip(data: Seq<u8>, new: TagsView)
    requires
        file_written("flac"@, data, new) is Ok,
        file_written("flac"@, data, new)->Ok_0.len() <= u64::MAX,
        crate::vorbis::roundtrip::storable(
            delta_view(crate::flac::roundtrip::tags_before(data, 0), new),
        ),
    ensures
        tags_read("flac"@, file_written("flac"@, data, new)->Ok_0) == Ok::<TagsView, ErrorView>(
            delta_view(crate::flac::roundtrip::tags_before(data, 0), new),
        ),
{
    lemma_flac_files(data, new);
    lemma_flac_files(flac_rewritten(data, 0, new)->Ok_0, new);
    crate::flac::roundtrip::lemma_flac_round_trip(data, 0, new);
}

/// What reading and writing are for an `m4a` file.
pub proof fn lemma_m4a_files(data: Seq<u8>, new: TagsView)
    ensures
        tags_read("m4a"@, data) == m4a_tags(data, 0),
        file_written("m4a"@, data, new) == m4a_rewritten(data, 0, new),
{
    reveal_strlit("m4a");
    reveal_strlit("flac");
    reveal_strlit("mp3");
    assert("flac"@.len() == 4);
    assert("m4a"@.len() == 3);
    assert("m4a"@[1] == '4');
    assert("mp3"@[1] == 'p');
}

/// Writing tags to an `m4a` file and reading them again gives the merged
/// tags: those that the list of tags at `list` held, updated by `new`, if
/// they are such as can be stored. The atoms before the list are whole and
/// nested as their sizes say, and the atoms around the list keep sizes of
/// atoms when the list grows or shrinks.
pub proof fn lemma_m4a_round_trip(data: Seq<u8>, list: int, new: TagsView)
    requires
        crate::m4a::tree::joint(data, 0, list),
        0 <= list,
        list + 8 <= data.len(),
        data.len() <= usize::MAX,
        crate::m4a::atom_name(crate::m4a::tree::header_at(data, list)) == "ilst"@,
        file_written("m4a"@, data, new) is Ok,
        file_written("m4a"@, data, new)->Ok_0.len() <= usize::MAX,
        crate::m4a::roundtrip::storable(crate::m4a::tree::merged_tags(data, list, new)),
        list + 8 + crate::m4a::list_atoms(
            Seq::empty(),
            crate::m4a::tree::merged_tags(data, list, new),
        ).len() < 0x1_0000_0000,
        crate::m4a::tree::size_kept(
            file_written("m4a"@, data, new)->Ok_0,
            crate::m4a::tree::walked(data, 0, list, crate::m4a::RewriteView::start()).moov,
        ),
        crate::m4a::tree::size_kept(
            file_written("m4a"@, data, new)->Ok_0,
            crate::m4a::tree::walked(data, 0, list, crate::m4a::RewriteView::start()).udta,
        ),
        crate::m4a::tree::size_kept(
            file_written("m4a"@, data, new)->Ok_0,
            crate::m4a::tree::walked(data, 0, list, crate::m4a::RewriteView::start()).meta,
        ),
    ensures
        tags_read("m4a"@, file_written("m4a"@, data, new)->Ok_0) == Ok::<TagsView, ErrorView>(
            crate::m4a::tree::merged_tags(data, list, new),
        ),
{
    lemma_m4a_files(data, new);
    lemma_m4a_files(m4a_rewritten(data, 0, new)->Ok_0, new);
    crate::m4a::tree::lemma_m4a_round_trip(data, list, new);
}

} // verus!
