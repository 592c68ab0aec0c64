//! The list of tags of an MP4 file that was written is read back as the
//! tags that were written.
use vstd::prelude::*;
use crate::flac::len32;
use crate::id3v2::read::text_bytes;
use crate::m4a::and_then;
use crate::m4a::atom_kind_of;
use crate::m4a::atom_name;
use crate::m4a::atom_size;
use crate::m4a::child_read;
use crate::m4a::compilation_atom;
use crate::m4a::cover_atom;
use crate::m4a::data_at;
use crate::m4a::data_atom;
use crate::m4a::date_atom;
use crate::m4a::holds_text;
use crate::m4a::image_flags;
use crate::m4a::list_atoms;
use crate::m4a::list_read;
use crate::m4a::low16;
use crate::m4a::name_atoms;
use crate::m4a::number_atoms;
use crate::m4a::number_flags;
use crate::m4a::number_of;
use crate::m4a::entries_patched;
use crate::m4a::offsets_held;
use crate::m4a::offsets_patched;
use crate::m4a::patched;
use crate::m4a::pair_atom;
use crate::m4a::pair_field;
use crate::m4a::pair_flags;
use crate::m4a::pair_of;
use crate::m4a::sort_atoms;
use crate::m4a::tempo_atom;
use crate::m4a::text_atom;
use crate::m4a::text_flags;
use crate::m4a::text_of;
use crate::m4a::with_atom_text;
use crate::m4a::AtomKind;
use crate::store::avail;
use crate::store::read_filled;
use crate::store::seek_target;
use crate::tools::be_bytes_u16;
use crate::tools::be_bytes_u32;
use crate::tools::be_value;
use crate::tools::encoding::latin1_bytes;
use crate::tools::encoding::latin1_chars;
use crate::tools::encoding::latin1_text;
use crate::tools::encoding::utf8_text;
use crate::tools::lemma_be_u16_roundtrip;
use crate::tools::lemma_be_u32_roundtrip;
use crate::tools::text::trim_nul;
use crate::types::datetime::iso_8601_date;
use crate::types::datetime::iso_8601_text;
use crate::types::datetime::DateTime;
use crate::types::image::ImageView;
use crate::types::tags::from_option;
use crate::types::tags::TagOption;
use crate::types::tags::TagsView;
use crate::vorbis::roundtrip::lemma_stands_at;
use crate::vorbis::roundtrip::stands_at;
use crate::ErrorView;

verus! {

/// Whether `name` is the name of an atom as it is written: four characters
/// of ISO 8859-1, none of them NUL.
pub open spec fn is_atom_name(name: Seq<char>) -> bool {
    name.len() == 4 && forall|i: int| 0 <= i < 4 ==> 1 <= #[trigger] (name[i] as u32) <= 0xFF
}

/// The name of an atom is read from its four bytes as it was written.
pub proof fn lemma_name_bytes(name: Seq<char>)
    requires
        is_atom_name(name),
    ensures
        latin1_bytes(name).len() == 4,
        latin1_text(latin1_bytes(name)) == name,
{
    let b = latin1_bytes(name);
    let c = latin1_chars(b);
    assert(c =~= name) by {
        assert forall|i: int| 0 <= i < 4 implies c[i] == name[i] by {
            let u = name[i] as u32;
            assert(1 <= u <= 0xFF);
            assert(b[i] == name[i] as u8);
            vstd::utf8::char_u32_cast(name[i], u);
            assert(b[i] as u32 == u);
            assert(c[i] == b[i] as char);
        }
    }
    assert(1 <= name[3] as u32);
    assert(name.last() != '\0');
    assert(trim_nul(name) == name);
}

/// A written atom that stands at `pos` is read there: its header gives its
/// size and name, and its `data` atom holds the flags and the content.
pub proof fn lemma_atom_found(
    data: Seq<u8>,
    pos: int,
    name: Seq<char>,
    flags: Seq<u8>,
    content: Seq<u8>,
)
    requires
        is_atom_name(name),
        flags.len() == 8,
        content.len() + 24 < 0x1_0000_0000,
        stands_at(data_atom(name, flags, content), data, pos),
    ensures
        data_atom(name, flags, content).len() == content.len() + 24,
        atom_size(data.subrange(pos, pos + 8)) == content.len() + 24,
        atom_name(data.subrange(pos, pos + 8)) == name,
        data_at(data, pos + 8) == (Some(flags + content), pos + 24 + content.len()),
        read_filled(data, pos + 16, 8, 0) == flags,
        read_filled(data, pos + 24, content.len() as int, 0) == content,
        avail(data.len() as int, pos + 16, 8) == 8,
        avail(data.len() as int, pos + 24, content.len() as int) == content.len(),
{
    reveal_strlit("data");
    let inner = "data"@;
    assert(is_atom_name(inner)) by {
        assert(inner.len() == 4);
        assert(inner[0] == 'd' && inner[1] == 'a' && inner[2] == 't' && inner[3] == 'a');
    }
    lemma_name_bytes(name);
    lemma_name_bytes(inner);
    let total = (content.len() + 24) as u32;
    assert(len32(content.len() + flags.len() + 16) == total);
    assert(len32(content.len() + flags.len() + 8) == (total - 8) as u32);
    lemma_be_u32_roundtrip(total);
    lemma_be_u32_roundtrip((total - 8) as u32);
    let a = data_atom(name, flags, content);
    let x1 = be_bytes_u32(total);
    let x2 = x1 + latin1_bytes(name);
    let x3 = x2 + be_bytes_u32((total - 8) as u32);
    let x4 = x3 + latin1_bytes(inner);
    let x5 = x4 + flags;
    assert(a == x5 + content);
    lemma_stands_at(x5, content, data, pos);
    lemma_stands_at(x4, flags, data, pos);
    lemma_stands_at(x3, latin1_bytes(inner), data, pos);
    lemma_stands_at(x2, be_bytes_u32((total - 8) as u32), data, pos);
    lemma_stands_at(x1, latin1_bytes(name), data, pos);
    let header = data.subrange(pos, pos + 8);
    assert(header.subrange(0, 4) =~= x1) by {
        assert forall|i: int| 0 <= i < 4 implies header[i] == x1[i] by {
            assert(data.subrange(pos, pos + 4)[i] == x1[i]);
        }
    }
    assert(header.subrange(4, 8) =~= latin1_bytes(name)) by {
        assert forall|i: int| 0 <= i < 4 implies header[4 + i] == latin1_bytes(name)[i] by {
            assert(data.subrange(pos + 4, pos + 8)[i] == latin1_bytes(name)[i]);
        }
    }
    let second = read_filled(data, pos + 8, 8, 0);
    assert(second.subrange(0, 4) =~= be_bytes_u32((total - 8) as u32)) by {
        assert forall|i: int| 0 <= i < 4 implies second[i] == be_bytes_u32(
            (total - 8) as u32,
        )[i] by {
            assert(data.subrange(pos + 8, pos + 12)[i] == be_bytes_u32((total - 8) as u32)[i]);
        }
    }
    assert(second.subrange(4, 8) =~= latin1_bytes(inner)) by {
        assert forall|i: int| 0 <= i < 4 implies second[4 + i] == latin1_bytes(inner)[i] by {
            assert(data.subrange(pos + 12, pos + 16)[i] == latin1_bytes(inner)[i]);
        }
    }
    assert(read_filled(data, pos + 16, 8, 0) =~= flags) by {
        assert forall|i: int| 0 <= i < 8 implies read_filled(data, pos + 16, 8, 0)[i]
            == flags[i] by {
            assert(data.subrange(pos + 16, pos + 24)[i] == flags[i]);
        }
    }
    assert(read_filled(data, pos + 24, content.len() as int, 0) =~= content) by {
        assert forall|i: int| 0 <= i < content.len() implies read_filled(
            data,
            pos + 24,
            content.len() as int,
            0,
        )[i] == content[i] by {
            assert(data.subrange(pos + 24, pos + 24 + content.len() as int)[i] == content[i]);
        }
    }
    assert(read_filled(data, pos + 16, total - 16, 0) =~= flags + content) by {
        assert forall|i: int| 0 <= i < total - 16 implies read_filled(
            data,
            pos + 16,
            total - 16,
            0,
        )[i] == (flags + content)[i] by {
            if i < 8 {
                assert(read_filled(data, pos + 16, 8, 0)[i] == flags[i]);
            } else {
                assert(read_filled(data, pos + 24, content.len() as int, 0)[i - 8] == content[i
                    - 8]);
            }
        }
    }
}

/// `©nam` is the name of an atom, of the kind that it is written for.
pub proof fn lemma_name_of_title()
    ensures
        is_atom_name("©nam"@),
        atom_kind_of("©nam"@) == AtomKind::Title,
{
    reveal_strlit("©nam");
    reveal_strlit("©alb");
    reveal_strlit("©art");
    reveal_strlit("©ART");
    reveal_strlit("aART");
    reveal_strlit("©wrt");
    reveal_strlit("©grp");
    reveal_strlit("©gen");
    reveal_strlit("gnre");
    reveal_strlit("©day");
    reveal_strlit("trkn");
    reveal_strlit("disk");
    reveal_strlit("cpil");
    reveal_strlit("tmpo");
    reveal_strlit("©cmt");
    reveal_strlit("sonm");
    reveal_strlit("soal");
    reveal_strlit("soar");
    reveal_strlit("soaa");
    reveal_strlit("soco");
    reveal_strlit("covr");
    let name = "©nam"@;
    assert(name.len() == 4);
    assert(name[0] == '©' && name[1] == 'n' && name[2] == 'a' && name[3] == 'm');
}

/// `©alb` is the name of an atom, of the kind that it is written for.
pub proof fn lemma_name_of_album()
    ensures
        is_atom_name("©alb"@),
        atom_kind_of("©alb"@) == AtomKind::Album,
{
    reveal_strlit("©nam");
    reveal_strlit("©alb");
    reveal_strlit("©art");
    reveal_strlit("©ART");
    reveal_strlit("aART");
    reveal_strlit("©wrt");
    reveal_strlit("©grp");
    reveal_strlit("©gen");
    reveal_strlit("gnre");
    reveal_strlit("©day");
    reveal_strlit("trkn");
    reveal_strlit("disk");
    reveal_strlit("cpil");
    reveal_strlit("tmpo");
    reveal_strlit("©cmt");
    reveal_strlit("sonm");
    reveal_strlit("soal");
    reveal_strlit("soar");
    reveal_strlit("soaa");
    reveal_strlit("soco");
    reveal_strlit("covr");
    let name = "©alb"@;
    assert(name.len() == 4);
    assert(name[0] == '©' && name[1] == 'a' && name[2] == 'l' && name[3] == 'b');
}

/// `©art` is the name of an atom, of the kind that it is written for.
pub proof fn lemma_name_of_artist()
    ensures
        is_atom_name("©art"@),
        atom_kind_of("©art"@) == AtomKind::Artist,
{
    reveal_strlit("©nam");
    reveal_strlit("©alb");
    reveal_strlit("©art");
    reveal_strlit("©ART");
    reveal_strlit("aART");
    reveal_strlit("©wrt");
    reveal_strlit("©grp");
    reveal_strlit("©gen");
    reveal_strlit("gnre");
    reveal_strlit("©day");
    reveal_strlit("trkn");
    reveal_strlit("disk");
    reveal_strlit("cpil");
    reveal_strlit("tmpo");
    reveal_strlit("©cmt");
    reveal_strlit("sonm");
    reveal_strlit("soal");
    reveal_strlit("soar");
    reveal_strlit("soaa");
    reveal_strlit("soco");
    reveal_strlit("covr");
    let name = "©art"@;
    assert(name.len() == 4);
    assert(name[0] == '©' && name[1] == 'a' && name[2] == 'r' && name[3] == 't');
}

/// `aART` is the name of an atom, of the kind that it is written for.
pub proof fn lemma_name_of_album_artist()
    ensures
        is_atom_name("aART"@),
        atom_kind_of("aART"@) == AtomKind::AlbumArtist,
{
    reveal_strlit("©nam");
    reveal_strlit("©alb");
    reveal_strlit("©art");
    reveal_strlit("©ART");
    reveal_strlit("aART");
    reveal_strlit("©wrt");
    reveal_strlit("©grp");
    reveal_strlit("©gen");
    reveal_strlit("gnre");
    reveal_strlit("©day");
    reveal_strlit("trkn");
    reveal_strlit("disk");
    reveal_strlit("cpil");
    reveal_strlit("tmpo");
    reveal_strlit("©cmt");
    reveal_strlit("sonm");
    reveal_strlit("soal");
    reveal_strlit("soar");
    reveal_strlit("soaa");
    reveal_strlit("soco");
    reveal_strlit("covr");
    let name = "aART"@;
    assert(name.len() == 4);
    assert(name[0] == 'a' && name[1] == 'A' && name[2] == 'R' && name[3] == 'T');
}

/// `©wrt` is the name of an atom, of the kind that it is written for.
pub proof fn lemma_name_of_composer()
    ensures
        is_atom_name("©wrt"@),
        atom_kind_of("©wrt"@) == AtomKind::Composer,
{
    reveal_strlit("©nam");
    reveal_strlit("©alb");
    reveal_strlit("©art");
    reveal_strlit("©ART");
    reveal_strlit("aART");
    reveal_strlit("©wrt");
    reveal_strlit("©grp");
    reveal_strlit("©gen");
    reveal_strlit("gnre");
    reveal_strlit("©day");
    reveal_strlit("trkn");
    reveal_strlit("disk");
    reveal_strlit("cpil");
    reveal_strlit("tmpo");
    reveal_strlit("©cmt");
    reveal_strlit("sonm");
    reveal_strlit("soal");
    reveal_strlit("soar");
    reveal_strlit("soaa");
    reveal_strlit("soco");
    reveal_strlit("covr");
    let name = "©wrt"@;
    assert(name.len() == 4);
    assert(name[0] == '©' && name[1] == 'w' && name[2] == 'r' && name[3] == 't');
}

/// `©grp` is the name of an atom, of the kind that it is written for.
pub proof fn lemma_name_of_grouping()
    ensures
        is_atom_name("©grp"@),
        atom_kind_of("©grp"@) == AtomKind::Grouping,
{
    reveal_strlit("©nam");
    reveal_strlit("©alb");
    reveal_strlit("©art");
    reveal_strlit("©ART");
    reveal_strlit("aART");
    reveal_strlit("©wrt");
    reveal_strlit("©grp");
    reveal_strlit("©gen");
    reveal_strlit("gnre");
    reveal_strlit("©day");
    reveal_strlit("trkn");
    reveal_strlit("disk");
    reveal_strlit("cpil");
    reveal_strlit("tmpo");
    reveal_strlit("©cmt");
    reveal_strlit("sonm");
    reveal_strlit("soal");
    reveal_strlit("soar");
    reveal_strlit("soaa");
    reveal_strlit("soco");
    reveal_strlit("covr");
    let name = "©grp"@;
    assert(name.len() == 4);
    assert(name[0] == '©' && name[1] == 'g' && name[2] == 'r' && name[3] == 'p');
}

/// `©gen` is the name of an atom, of the kind that it is written for.
pub proof fn lemma_name_of_genre()
    ensures
        is_atom_name("©gen"@),
        atom_kind_of("©gen"@) == AtomKind::Genre,
{
    reveal_strlit("©nam");
    reveal_strlit("©alb");
    reveal_strlit("©art");
    reveal_strlit("©ART");
    reveal_strlit("aART");
    reveal_strlit("©wrt");
    reveal_strlit("©grp");
    reveal_strlit("©gen");
    reveal_strlit("gnre");
    reveal_strlit("©day");
    reveal_strlit("trkn");
    reveal_strlit("disk");
    reveal_strlit("cpil");
    reveal_strlit("tmpo");
    reveal_strlit("©cmt");
    reveal_strlit("sonm");
    reveal_strlit("soal");
    reveal_strlit("soar");
    reveal_strlit("soaa");
    reveal_strlit("soco");
    reveal_strlit("covr");
    let name = "©gen"@;
    assert(name.len() == 4);
    assert(name[0] == '©' && name[1] == 'g' && name[2] == 'e' && name[3] == 'n');
}

/// `©day` is the name of an atom, of the kind that it is written for.
pub proof fn lemma_name_of_date()
    ensures
        is_atom_name("©day"@),
        atom_kind_of("©day"@) == AtomKind::Date,
{
    reveal_strlit("©nam");
    reveal_strlit("©alb");
    reveal_strlit("©art");
    reveal_strlit("©ART");
    reveal_strlit("aART");
    reveal_strlit("©wrt");
    reveal_strlit("©grp");
    reveal_strlit("©gen");
    reveal_strlit("gnre");
    reveal_strlit("©day");
    reveal_strlit("trkn");
    reveal_strlit("disk");
    reveal_strlit("cpil");
    reveal_strlit("tmpo");
    reveal_strlit("©cmt");
    reveal_strlit("sonm");
    reveal_strlit("soal");
    reveal_strlit("soar");
    reveal_strlit("soaa");
    reveal_strlit("soco");
    reveal_strlit("covr");
    let name = "©day"@;
    assert(name.len() == 4);
    assert(name[0] == '©' && name[1] == 'd' && name[2] == 'a' && name[3] == 'y');
}

/// `trkn` is the name of an atom, of the kind that it is written for.
pub proof fn lemma_name_of_track()
    ensures
        is_atom_name("trkn"@),
        atom_kind_of("trkn"@) == AtomKind::Track,
{
    reveal_strlit("©nam");
    reveal_strlit("©alb");
    reveal_strlit("©art");
    reveal_strlit("©ART");
    reveal_strlit("aART");
    reveal_strlit("©wrt");
    reveal_strlit("©grp");
    reveal_strlit("©gen");
    reveal_strlit("gnre");
    reveal_strlit("©day");
    reveal_strlit("trkn");
    reveal_strlit("disk");
    reveal_strlit("cpil");
    reveal_strlit("tmpo");
    reveal_strlit("©cmt");
    reveal_strlit("sonm");
    reveal_strlit("soal");
    reveal_strlit("soar");
    reveal_strlit("soaa");
    reveal_strlit("soco");
    reveal_strlit("covr");
    let name = "trkn"@;
    assert(name.len() == 4);
    assert(name[0] == 't' && name[1] == 'r' && name[2] == 'k' && name[3] == 'n');
}

/// `disk` is the name of an atom, of the kind that it is written for.
pub proof fn lemma_name_of_disc()
    ensures
        is_atom_name("disk"@),
        atom_kind_of("disk"@) == AtomKind::Disc,
{
    reveal_strlit("©nam");
    reveal_strlit("©alb");
    reveal_strlit("©art");
    reveal_strlit("©ART");
    reveal_strlit("aART");
    reveal_strlit("©wrt");
    reveal_strlit("©grp");
    reveal_strlit("©gen");
    reveal_strlit("gnre");
    reveal_strlit("©day");
    reveal_strlit("trkn");
    reveal_strlit("disk");
    reveal_strlit("cpil");
    reveal_strlit("tmpo");
    reveal_strlit("©cmt");
    reveal_strlit("sonm");
    reveal_strlit("soal");
    reveal_strlit("soar");
    reveal_strlit("soaa");
    reveal_strlit("soco");
    reveal_strlit("covr");
    let name = "disk"@;
    assert(name.len() == 4);
    assert(name[0] == 'd' && name[1] == 'i' && name[2] == 's' && name[3] == 'k');
}

/// `tmpo` is the name of an atom, of the kind that it is written for.
pub proof fn lemma_name_of_tempo()
    ensures
        is_atom_name("tmpo"@),
        atom_kind_of("tmpo"@) == AtomKind::Tempo,
{
    reveal_strlit("©nam");
    reveal_strlit("©alb");
    reveal_strlit("©art");
    reveal_strlit("©ART");
    reveal_strlit("aART");
    reveal_strlit("©wrt");
    reveal_strlit("©grp");
    reveal_strlit("©gen");
    reveal_strlit("gnre");
    reveal_strlit("©day");
    reveal_strlit("trkn");
    reveal_strlit("disk");
    reveal_strlit("cpil");
    reveal_strlit("tmpo");
    reveal_strlit("©cmt");
    reveal_strlit("sonm");
    reveal_strlit("soal");
    reveal_strlit("soar");
    reveal_strlit("soaa");
    reveal_strlit("soco");
    reveal_strlit("covr");
    let name = "tmpo"@;
    assert(name.len() == 4);
    assert(name[0] == 't' && name[1] == 'm' && name[2] == 'p' && name[3] == 'o');
}

/// `cpil` is the name of an atom, of the kind that it is written for.
pub proof fn lemma_name_of_compilation()
    ensures
        is_atom_name("cpil"@),
        atom_kind_of("cpil"@) == AtomKind::Compilation,
{
    reveal_strlit("©nam");
    reveal_strlit("©alb");
    reveal_strlit("©art");
    reveal_strlit("©ART");
    reveal_strlit("aART");
    reveal_strlit("©wrt");
    reveal_strlit("©grp");
    reveal_strlit("©gen");
    reveal_strlit("gnre");
    reveal_strlit("©day");
    reveal_strlit("trkn");
    reveal_strlit("disk");
    reveal_strlit("cpil");
    reveal_strlit("tmpo");
    reveal_strlit("©cmt");
    reveal_strlit("sonm");
    reveal_strlit("soal");
    reveal_strlit("soar");
    reveal_strlit("soaa");
    reveal_strlit("soco");
    reveal_strlit("covr");
    let name = "cpil"@;
    assert(name.len() == 4);
    assert(name[0] == 'c' && name[1] == 'p' && name[2] == 'i' && name[3] == 'l');
}

/// `©cmt` is the name of an atom, of the kind that it is written for.
pub proof fn lemma_name_of_comment()
    ensures
        is_atom_name("©cmt"@),
        atom_kind_of("©cmt"@) == AtomKind::Comment,
{
    reveal_strlit("©nam");
    reveal_strlit("©alb");
    reveal_strlit("©art");
    reveal_strlit("©ART");
    reveal_strlit("aART");
    reveal_strlit("©wrt");
    reveal_strlit("©grp");
    reveal_strlit("©gen");
    reveal_strlit("gnre");
    reveal_strlit("©day");
    reveal_strlit("trkn");
    reveal_strlit("disk");
    reveal_strlit("cpil");
    reveal_strlit("tmpo");
    reveal_strlit("©cmt");
    reveal_strlit("sonm");
    reveal_strlit("soal");
    reveal_strlit("soar");
    reveal_strlit("soaa");
    reveal_strlit("soco");
    reveal_strlit("covr");
    let name = "©cmt"@;
    assert(name.len() == 4);
    assert(name[0] == '©' && name[1] == 'c' && name[2] == 'm' && name[3] == 't');
}

/// `sonm` is the name of an atom, of the kind that it is written for.
pub proof fn lemma_name_of_sort_title()
    ensures
        is_atom_name("sonm"@),
        atom_kind_of("sonm"@) == AtomKind::SortTitle,
{
    reveal_strlit("©nam");
    reveal_strlit("©alb");
    reveal_strlit("©art");
    reveal_strlit("©ART");
    reveal_strlit("aART");
    reveal_strlit("©wrt");
    reveal_strlit("©grp");
    reveal_strlit("©gen");
    reveal_strlit("gnre");
    reveal_strlit("©day");
    reveal_strlit("trkn");
    reveal_strlit("disk");
    reveal_strlit("cpil");
    reveal_strlit("tmpo");
    reveal_strlit("©cmt");
    reveal_strlit("sonm");
    reveal_strlit("soal");
    reveal_strlit("soar");
    reveal_strlit("soaa");
    reveal_strlit("soco");
    reveal_strlit("covr");
    let name = "sonm"@;
    assert(name.len() == 4);
    assert(name[0] == 's' && name[1] == 'o' && name[2] == 'n' && name[3] == 'm');
}

/// `soal` is the name of an atom, of the kind that it is written for.
pub proof fn lemma_name_of_sort_album()
    ensures
        is_atom_name("soal"@),
        atom_kind_of("soal"@) == AtomKind::SortAlbum,
{
    reveal_strlit("©nam");
    reveal_strlit("©alb");
    reveal_strlit("©art");
    reveal_strlit("©ART");
    reveal_strlit("aART");
    reveal_strlit("©wrt");
    reveal_strlit("©grp");
    reveal_strlit("©gen");
    reveal_strlit("gnre");
    reveal_strlit("©day");
    reveal_strlit("trkn");
    reveal_strlit("disk");
    reveal_strlit("cpil");
    reveal_strlit("tmpo");
    reveal_strlit("©cmt");
    reveal_strlit("sonm");
    reveal_strlit("soal");
    reveal_strlit("soar");
    reveal_strlit("soaa");
    reveal_strlit("soco");
    reveal_strlit("covr");
    let name = "soal"@;
    assert(name.len() == 4);
    assert(name[0] == 's' && name[1] == 'o' && name[2] == 'a' && name[3] == 'l');
}

/// `soar` is the name of an atom, of the kind that it is written for.
pub proof fn lemma_name_of_sort_artist()
    ensures
        is_atom_name("soar"@),
        atom_kind_of("soar"@) == AtomKind::SortArtist,
{
    reveal_strlit("©nam");
    reveal_strlit("©alb");
    reveal_strlit("©art");
    reveal_strlit("©ART");
    reveal_strlit("aART");
    reveal_strlit("©wrt");
    reveal_strlit("©grp");
    reveal_strlit("©gen");
    reveal_strlit("gnre");
    reveal_strlit("©day");
    reveal_strlit("trkn");
    reveal_strlit("disk");
    reveal_strlit("cpil");
    reveal_strlit("tmpo");
    reveal_strlit("©cmt");
    reveal_strlit("sonm");
    reveal_strlit("soal");
    reveal_strlit("soar");
    reveal_strlit("soaa");
    reveal_strlit("soco");
    reveal_strlit("covr");
    let name = "soar"@;
    assert(name.len() == 4);
    assert(name[0] == 's' && name[1] == 'o' && name[2] == 'a' && name[3] == 'r');
}

/// `soaa` is the name of an atom, of the kind that it is written for.
pub proof fn lemma_name_of_sort_album_artist()
    ensures
        is_atom_name("soaa"@),
        atom_kind_of("soaa"@) == AtomKind::SortAlbumArtist,
{
    reveal_strlit("©nam");
    reveal_strlit("©alb");
    reveal_strlit("©art");
    reveal_strlit("©ART");
    reveal_strlit("aART");
    reveal_strlit("©wrt");
    reveal_strlit("©grp");
    reveal_strlit("©gen");
    reveal_strlit("gnre");
    reveal_strlit("©day");
    reveal_strlit("trkn");
    reveal_strlit("disk");
    reveal_strlit("cpil");
    reveal_strlit("tmpo");
    reveal_strlit("©cmt");
    reveal_strlit("sonm");
    reveal_strlit("soal");
    reveal_strlit("soar");
    reveal_strlit("soaa");
    reveal_strlit("soco");
    reveal_strlit("covr");
    let name = "soaa"@;
    assert(name.len() == 4);
    assert(name[0] == 's' && name[1] == 'o' && name[2] == 'a' && name[3] == 'a');
}

/// `soco` is the name of an atom, of the kind that it is written for.
pub proof fn lemma_name_of_sort_composer()
    ensures
        is_atom_name("soco"@),
        atom_kind_of("soco"@) == AtomKind::SortComposer,
{
    reveal_strlit("©nam");
    reveal_strlit("©alb");
    reveal_strlit("©art");
    reveal_strlit("©ART");
    reveal_strlit("aART");
    reveal_strlit("©wrt");
    reveal_strlit("©grp");
    reveal_strlit("©gen");
    reveal_strlit("gnre");
    reveal_strlit("©day");
    reveal_strlit("trkn");
    reveal_strlit("disk");
    reveal_strlit("cpil");
    reveal_strlit("tmpo");
    reveal_strlit("©cmt");
    reveal_strlit("sonm");
    reveal_strlit("soal");
    reveal_strlit("soar");
    reveal_strlit("soaa");
    reveal_strlit("soco");
    reveal_strlit("covr");
    let name = "soco"@;
    assert(name.len() == 4);
    assert(name[0] == 's' && name[1] == 'o' && name[2] == 'c' && name[3] == 'o');
}

/// `covr` is the name of an atom, of the kind that it is written for.
pub proof fn lemma_name_of_cover()
    ensures
        is_atom_name("covr"@),
        atom_kind_of("covr"@) == AtomKind::Cover,
{
    reveal_strlit("©nam");
    reveal_strlit("©alb");
    reveal_strlit("©art");
    reveal_strlit("©ART");
    reveal_strlit("aART");
    reveal_strlit("©wrt");
    reveal_strlit("©grp");
    reveal_strlit("©gen");
    reveal_strlit("gnre");
    reveal_strlit("©day");
    reveal_strlit("trkn");
    reveal_strlit("disk");
    reveal_strlit("cpil");
    reveal_strlit("tmpo");
    reveal_strlit("©cmt");
    reveal_strlit("sonm");
    reveal_strlit("soal");
    reveal_strlit("soar");
    reveal_strlit("soaa");
    reveal_strlit("soco");
    reveal_strlit("covr");
    let name = "covr"@;
    assert(name.len() == 4);
    assert(name[0] == 'c' && name[1] == 'o' && name[2] == 'v' && name[3] == 'r');
}

/// Whether reading the list from `start` on comes, behind the atoms
/// `before`, to the tags `tags`.
#[verifier::opaque]
pub open spec fn listed(data: Seq<u8>, start: int, end: int, before: Seq<u8>,
    tags: TagsView) -> bool {
    list_read(data, start, end, TagsView::none()) == list_read(
        data,
        start + before.len() as int,
        end,
        tags,
    )
}

/// Reading passes over a written atom and takes into the tags what reading
/// its content gives.
pub proof fn lemma_atom_read(
    data: Seq<u8>,
    start: int,
    end: int,
    before: Seq<u8>,
    tags: TagsView,
    name: Seq<char>,
    kind: AtomKind,
    flags: Seq<u8>,
    content: Seq<u8>,
    next: TagsView,
)
    requires
        is_atom_name(name),
        atom_kind_of(name) == kind,
        flags.len() == 8,
        content.len() + 24 < 0x1_0000_0000,
        stands_at(before + data_atom(name, flags, content), data, start),
        start + (before + data_atom(name, flags, content)).len() <= end,
        listed(data, start, end, before, tags),
        child_read(
            data,
            start + before.len() as int + 8,
            (content.len() + 24) as u32,
            kind,
            tags,
        ) == Ok::<(TagsView, int), ErrorView>(
            (next, start + before.len() as int + 24 + content.len() as int),
        ),
    ensures
        listed(data, start, end, before + data_atom(name, flags, content), next),
{
    reveal(listed);
    let atom = data_atom(name, flags, content);
    lemma_stands_at(before, atom, data, start);
    lemma_atom_found(data, start + before.len() as int, name, flags, content);
}

/// Whether a text can be written into an atom and read back: it is not
/// empty and does not end with a NUL.
pub open spec fn ends_well(s: Seq<char>) -> bool {
    s.len() > 0 && s.last() != '\0'
}

/// The content of a written atom of text is read as the text.
pub proof fn lemma_text_content(s: Seq<char>)
    requires
        ends_well(s),
    ensures
        text_of(text_flags() + text_bytes(s)) == Some(s),
        text_bytes(s).len() >= 1,
{
    let b = text_bytes(s);
    vstd::utf8::encode_utf8_valid_utf8(s);
    vstd::utf8::encode_utf8_decode_utf8(s);
    if b.len() == 0 {
        assert(vstd::utf8::decode_utf8(b) =~= Seq::<char>::empty());
    }
    let vec = text_flags() + b;
    assert(vec[3] == 1);
    assert(vec.skip(8) =~= b);
    assert(trim_nul(s) == s);
}

/// What reading a written atom of text gives.
pub proof fn lemma_text_child(
    data: Seq<u8>,
    pos: int,
    size: u32,
    kind: AtomKind,
    tags: TagsView,
    s: Seq<char>,
    end: int,
)
    requires
        holds_text(kind),
        ends_well(s),
        data_at(data, pos) == (Some(text_flags() + text_bytes(s)), end),
    ensures
        child_read(data, pos, size, kind, tags) == Ok::<(TagsView, int), ErrorView>(
            (with_atom_text(tags, kind, s), end),
        ),
{
    lemma_text_content(s);
}

/// What reading a written atom of a date gives.
pub proof fn lemma_date_child(
    data: Seq<u8>,
    pos: int,
    size: u32,
    tags: TagsView,
    d: DateTime,
    end: int,
)
    requires
        d.well_formed(),
        d.year is Some,
        data_at(data, pos) == (Some(text_flags() + text_bytes(iso_8601_text(d))), end),
    ensures
        child_read(data, pos, size, AtomKind::Date, tags) == Ok::<(TagsView, int), ErrorView>(
            (TagsView { date: TagOption::Present(d), ..tags }, end),
        ),
        iso_8601_text(d).len() > 0,
{
    crate::types::datetime::lemma_iso_8601_roundtrip(d);
    crate::types::datetime::lemma_date_lacks(d, '\0');
    let s = iso_8601_text(d);
    assert(s[s.len() - 1] != '\0');
    lemma_text_content(s);
}

/// The two bytes of a number of 16 bits are read as the number.
pub proof fn lemma_two_bytes(vec: Seq<u8>, at: int, n: u16)
    requires
        0 <= at,
        at + 2 <= vec.len(),
        vec.subrange(at, at + 2) == be_bytes_u16(n),
    ensures
        be_value(vec.subrange(at, at + 2)) == n,
{
    lemma_be_u16_roundtrip(n);
}

/// Whether a number can be written in 16 bits and read back: it is not 0.
pub open spec fn storable_number(field: TagOption<i64>) -> bool {
    match field {
        TagOption::Present(n) => 1 <= n <= 0xFFFF,
        TagOption::Mixed => false,
        TagOption::Absent => true,
    }
}

/// A number of 16 bits that was written is read into its field.
pub proof fn lemma_number_field(field: TagOption<i64>)
    requires
        storable_number(field),
    ensures
        pair_field(low16(field)) == field,
{
}

/// What reading a written atom of number and total gives.
pub proof fn lemma_pair_child(
    data: Seq<u8>,
    pos: int,
    size: u32,
    kind: AtomKind,
    tags: TagsView,
    number: TagOption<i64>,
    total: TagOption<i64>,
    end: int,
)
    requires
        kind is Track || kind is Disc,
        storable_number(number),
        storable_number(total),
        data_at(data, pos) == (
            Some(
                pair_flags() + (seq![0u8, 0u8] + be_bytes_u16(low16(number)) + be_bytes_u16(
                    low16(total),
                )),
            ),
            end,
        ),
    ensures
        child_read(data, pos, size, kind, tags) == Ok::<(TagsView, int), ErrorView>(
            (
                if kind is Track {
                    TagsView { track_number: number, track_total: total, ..tags }
                } else {
                    TagsView { disc_number: number, disc_total: total, ..tags }
                },
                end,
            ),
        ),
{
    let a = be_bytes_u16(low16(number));
    let b = be_bytes_u16(low16(total));
    let vec = pair_flags() + (seq![0u8, 0u8] + a + b);
    assert(vec.len() == 14);
    assert(vec[3] == 0);
    assert(vec.subrange(10, 12) =~= a);
    assert(vec.subrange(12, 14) =~= b);
    lemma_two_bytes(vec, 10, low16(number));
    lemma_two_bytes(vec, 12, low16(total));
    lemma_number_field(number);
    lemma_number_field(total);
    assert(pair_of(vec) == Some((low16(number), low16(total))));
}

/// What reading a written atom of the tempo gives.
pub proof fn lemma_tempo_child(
    data: Seq<u8>,
    pos: int,
    size: u32,
    tags: TagsView,
    bpm: TagOption<i64>,
    end: int,
)
    requires
        storable_number(bpm),
        tags.bpm is Absent,
        data_at(data, pos) == (Some(number_flags() + be_bytes_u16(low16(bpm))), end),
    ensures
        child_read(data, pos, size, AtomKind::Tempo, tags) == Ok::<(TagsView, int), ErrorView>(
            (TagsView { bpm, ..tags }, end),
        ),
{
    let a = be_bytes_u16(low16(bpm));
    let vec = number_flags() + a;
    assert(vec.len() == 10);
    assert(vec[3] == 21);
    assert(vec.skip(8) =~= a);
    lemma_be_u16_roundtrip(low16(bpm));
    lemma_number_field(bpm);
    assert(number_of(vec) == Some(low16(bpm) as u32));
}

/// What reading a written atom of the mark of a compilation gives.
pub proof fn lemma_compilation_child(data: Seq<u8>, pos: int, size: u32, tags: TagsView, end: int)
    requires
        data_at(data, pos) == (Some(number_flags() + seq![1u8]), end),
    ensures
        child_read(data, pos, size, AtomKind::Compilation, tags) == Ok::<
            (TagsView, int),
            ErrorView,
        >((TagsView { is_compilation: TagOption::Present(true), ..tags }, end)),
{
    let vec = number_flags() + seq![1u8];
    assert(vec.len() == 9);
    assert(vec[3] == 21);
    assert(vec.skip(8) =~= seq![1u8]);
    let one = seq![1u8];
    assert(one.drop_last().len() == 0);
    assert(be_value(one.drop_last()) == 0);
    assert(be_value(one) == 1);
    assert(number_of(vec) == Some(1u32));
}

/// What reading a written atom of a cover gives.
pub proof fn lemma_cover_child(
    data: Seq<u8>,
    pos: int,
    tags: TagsView,
    kind: u8,
    bytes: Seq<u8>,
)
    requires
        kind == 13 || kind == 14,
        0 <= pos,
        pos + 16 + bytes.len() <= data.len(),
        data.len() <= u64::MAX,
        bytes.len() + 24 < 0x1_0000_0000,
        tags.front_cover is Absent,
        read_filled(data, pos + 8, 8, 0) == image_flags(kind),
        read_filled(data, pos + 16, bytes.len() as int, 0) == bytes,
    ensures
        child_read(data, pos, (bytes.len() + 24) as u32, AtomKind::Cover, tags) == Ok::<
            (TagsView, int),
            ErrorView,
        >(
            (
                TagsView {
                    front_cover: TagOption::Present(
                        if kind == 13 {
                            ImageView::JPEG(bytes)
                        } else {
                            ImageView::PNG(bytes)
                        },
                    ),
                    ..tags
                },
                pos + 16 + bytes.len(),
            ),
        ),
{
    assert(seek_target(pos, 8) == Some((pos + 8) as u64));
    assert(image_flags(kind)[3] == kind);
}

/// How long a written atom is.
pub proof fn lemma_atom_len(name: Seq<char>, flags: Seq<u8>, content: Seq<u8>)
    requires
        name.len() == 4,
    ensures
        data_atom(name, flags, content).len() == 16 + flags.len() + content.len(),
{
    reveal_strlit("data");
    assert("data"@.len() == 4);
}

/// Whether a text can be written into an atom and read back.
pub open spec fn storable_text(field: TagOption<Seq<char>>) -> bool {
    match field {
        TagOption::Present(s) => ends_well(s),
        TagOption::Mixed => false,
        TagOption::Absent => true,
    }
}

/// Whether the tags can be written as a list of atoms and read back as
/// they are: no field is `Mixed`; no text is empty or ends with a NUL; the
/// date is well-formed; the numbers are from 1 to 65535; a compilation is
/// marked or not spoken of; the cover is an image; there is no rating.
#[verifier::opaque]
pub open spec fn storable(t: TagsView) -> bool {
    &&& storable_text(t.title)
    &&& storable_text(t.album)
    &&& storable_text(t.artist)
    &&& storable_text(t.album_artist)
    &&& storable_text(t.composer)
    &&& storable_text(t.grouping)
    &&& storable_text(t.genre)
    &&& match t.date {
        TagOption::Present(d) => d.well_formed() && d.year is Some,
        TagOption::Mixed => false,
        TagOption::Absent => true,
    }
    &&& storable_number(t.track_number)
    &&& storable_number(t.track_total)
    &&& storable_number(t.disc_number)
    &&& storable_number(t.disc_total)
    &&& storable_number(t.bpm)
    &&& (t.is_compilation is Absent || t.is_compilation == TagOption::Present(true))
    &&& storable_text(t.comment)
    &&& storable_text(t.sort_title)
    &&& storable_text(t.sort_album)
    &&& storable_text(t.sort_artist)
    &&& storable_text(t.sort_album_artist)
    &&& storable_text(t.sort_composer)
    &&& match t.front_cover {
        TagOption::Present(image) => !(image is Empty),
        TagOption::Mixed => false,
        TagOption::Absent => true,
    }
    &&& t.rating is Absent
}

/// The field after an atom was read, if one was written for `new`.
pub open spec fn picked<T>(new: TagOption<T>, old: TagOption<T>) -> TagOption<T> {
    if new is Present {
        new
    } else {
        old
    }
}

/// Reading passes over the atom of a text field, if one was written.
pub proof fn lemma_text_atom_read(
    data: Seq<u8>,
    start: int,
    end: int,
    before: Seq<u8>,
    tags: TagsView,
    name: Seq<char>,
    kind: AtomKind,
    field: TagOption<Seq<char>>,
)
    requires
        is_atom_name(name),
        atom_kind_of(name) == kind,
        holds_text(kind),
        storable_text(field),
        (before + text_atom(name, field)).len() < 0x1_0000_0000,
        stands_at(before + text_atom(name, field), data, start),
        start + (before + text_atom(name, field)).len() <= end,
        listed(data, start, end, before, tags),
    ensures
        listed(
            data,
            start,
            end,
            before + text_atom(name, field),
            match field {
                TagOption::Present(s) => with_atom_text(tags, kind, s),
                _ => tags,
            },
        ),
{
    match field {
        TagOption::Present(s) => {
            let content = text_bytes(s);
            let atom = data_atom(name, text_flags(), content);
            let at = start + before.len() as int;
            lemma_atom_len(name, text_flags(), content);
            lemma_stands_at(before, atom, data, start);
            lemma_atom_found(data, at, name, text_flags(), content);
            lemma_text_child(
                data,
                at + 8,
                (content.len() + 24) as u32,
                kind,
                tags,
                s,
                at + 24 + content.len() as int,
            );
            lemma_atom_read(
                data,
                start,
                end,
                before,
                tags,
                name,
                kind,
                text_flags(),
                content,
                with_atom_text(tags, kind, s),
            );
        },
        _ => {
            assert(before + text_atom(name, field) =~= before);
        },
    }
}

/// Reading passes over the atom of the date, if one was written.
pub proof fn lemma_date_atom_read(
    data: Seq<u8>,
    start: int,
    end: int,
    before: Seq<u8>,
    tags: TagsView,
    field: TagOption<DateTime>,
)
    requires
        match field {
            TagOption::Present(d) => d.well_formed() && d.year is Some,
            TagOption::Mixed => false,
            TagOption::Absent => true,
        },
        (before + date_atom(field)).len() < 0x1_0000_0000,
        stands_at(before + date_atom(field), data, start),
        start + (before + date_atom(field)).len() <= end,
        listed(data, start, end, before, tags),
    ensures
        listed(
            data,
            start,
            end,
            before + date_atom(field),
            TagsView { date: picked(field, tags.date), ..tags },
        ),
{
    lemma_name_of_date();
    match field {
        TagOption::Present(d) => {
            let content = text_bytes(iso_8601_text(d));
            crate::types::datetime::lemma_iso_8601_roundtrip(d);
            let atom = data_atom("©day"@, text_flags(), content);
            let at = start + before.len() as int;
            lemma_atom_len("©day"@, text_flags(), content);
            lemma_stands_at(before, atom, data, start);
            lemma_atom_found(data, at, "©day"@, text_flags(), content);
            lemma_date_child(
                data,
                at + 8,
                (content.len() + 24) as u32,
                tags,
                d,
                at + 24 + content.len() as int,
            );
            lemma_atom_read(
                data,
                start,
                end,
                before,
                tags,
                "©day"@,
                AtomKind::Date,
                text_flags(),
                content,
                TagsView { date: TagOption::Present(d), ..tags },
            );
        },
        _ => {
            assert(before + date_atom(field) =~= before);
            assert(tags == TagsView { date: picked(field, tags.date), ..tags });
        },
    }
}

/// Reading passes over the atom of number and total.
pub proof fn lemma_pair_atom_read(
    data: Seq<u8>,
    start: int,
    end: int,
    before: Seq<u8>,
    tags: TagsView,
    name: Seq<char>,
    kind: AtomKind,
    number: TagOption<i64>,
    total: TagOption<i64>,
)
    requires
        is_atom_name(name),
        atom_kind_of(name) == kind,
        kind is Track || kind is Disc,
        storable_number(number),
        storable_number(total),
        (before + pair_atom(name, number, total)).len() < 0x1_0000_0000,
        stands_at(before + pair_atom(name, number, total), data, start),
        start + (before + pair_atom(name, number, total)).len() <= end,
        listed(data, start, end, before, tags),
    ensures
        listed(
            data,
            start,
            end,
            before + pair_atom(name, number, total),
            if kind is Track {
                TagsView { track_number: number, track_total: total, ..tags }
            } else {
                TagsView { disc_number: number, disc_total: total, ..tags }
            },
        ),
{
    let content = seq![0u8, 0u8] + be_bytes_u16(low16(number)) + be_bytes_u16(low16(total));
    assert(content.len() == 6);
    let atom = data_atom(name, pair_flags(), content);
    let at = start + before.len() as int;
    lemma_stands_at(before, atom, data, start);
    lemma_atom_found(data, at, name, pair_flags(), content);
    lemma_pair_child(data, at + 8, 30, kind, tags, number, total, at + 30);
    lemma_atom_read(
        data,
        start,
        end,
        before,
        tags,
        name,
        kind,
        pair_flags(),
        content,
        if kind is Track {
            TagsView { track_number: number, track_total: total, ..tags }
        } else {
            TagsView { disc_number: number, disc_total: total, ..tags }
        },
    );
}

/// Reading passes over the atom of the tempo.
pub proof fn lemma_tempo_atom_read(
    data: Seq<u8>,
    start: int,
    end: int,
    before: Seq<u8>,
    tags: TagsView,
    bpm: TagOption<i64>,
)
    requires
        storable_number(bpm),
        tags.bpm is Absent,
        (before + tempo_atom(bpm)).len() < 0x1_0000_0000,
        stands_at(before + tempo_atom(bpm), data, start),
        start + (before + tempo_atom(bpm)).len() <= end,
        listed(data, start, end, before, tags),
    ensures
        listed(data, start, end, before + tempo_atom(bpm), TagsView { bpm, ..tags }),
{
    lemma_name_of_tempo();
    let content = be_bytes_u16(low16(bpm));
    assert(content.len() == 2);
    let atom = data_atom("tmpo"@, number_flags(), content);
    let at = start + before.len() as int;
    lemma_stands_at(before, atom, data, start);
    lemma_atom_found(data, at, "tmpo"@, number_flags(), content);
    lemma_tempo_child(data, at + 8, 26, tags, bpm, at + 26);
    lemma_atom_read(
        data,
        start,
        end,
        before,
        tags,
        "tmpo"@,
        AtomKind::Tempo,
        number_flags(),
        content,
        TagsView { bpm, ..tags },
    );
}

/// Reading passes over the atom of the mark of a compilation, if one was written.
pub proof fn lemma_compilation_atom_read(
    data: Seq<u8>,
    start: int,
    end: int,
    before: Seq<u8>,
    tags: TagsView,
    field: TagOption<bool>,
)
    requires
        field is Absent || field == TagOption::Present(true),
        (before + compilation_atom(field)).len() < 0x1_0000_0000,
        stands_at(before + compilation_atom(field), data, start),
        start + (before + compilation_atom(field)).len() <= end,
        listed(data, start, end, before, tags),
    ensures
        listed(
            data,
            start,
            end,
            before + compilation_atom(field),
            TagsView { is_compilation: picked(field, tags.is_compilation), ..tags },
        ),
{
    lemma_name_of_compilation();
    if field == TagOption::Present(true) {
        let content = seq![1u8];
        let atom = data_atom("cpil"@, number_flags(), content);
        let at = start + before.len() as int;
        lemma_stands_at(before, atom, data, start);
        lemma_atom_found(data, at, "cpil"@, number_flags(), content);
        lemma_compilation_child(data, at + 8, 25, tags, at + 25);
        lemma_atom_read(
            data,
            start,
            end,
            before,
            tags,
            "cpil"@,
            AtomKind::Compilation,
            number_flags(),
            content,
            TagsView { is_compilation: TagOption::Present(true), ..tags },
        );
    } else {
        assert(before + compilation_atom(field) =~= before);
        assert(tags == TagsView { is_compilation: picked(field, tags.is_compilation), ..tags });
    }
}

/// Reading passes over the atom of the cover, if one was written.
pub proof fn lemma_cover_atom_read(
    data: Seq<u8>,
    start: int,
    end: int,
    before: Seq<u8>,
    tags: TagsView,
    field: TagOption<ImageView>,
)
    requires
        match field {
            TagOption::Present(image) => !(image is Empty),
            TagOption::Mixed => false,
            TagOption::Absent => true,
        },
        tags.front_cover is Absent,
        data.len() <= u64::MAX,
        0 <= start,
        (before + cover_atom(field)).len() < 0x1_0000_0000,
        stands_at(before + cover_atom(field), data, start),
        start + (before + cover_atom(field)).len() <= end,
        listed(data, start, end, before, tags),
    ensures
        listed(
            data,
            start,
            end,
            before + cover_atom(field),
            TagsView { front_cover: picked(field, tags.front_cover), ..tags },
        ),
{
    lemma_name_of_cover();
    match field {
        TagOption::Present(image) => {
            let kind: u8 = if image is JPEG {
                13
            } else {
                14
            };
            let bytes = image.bytes();
            let atom = data_atom("covr"@, image_flags(kind), bytes);
            assert(cover_atom(field) == atom);
            let at = start + before.len() as int;
            lemma_atom_len("covr"@, image_flags(kind), bytes);
            lemma_stands_at(before, atom, data, start);
            lemma_atom_found(data, at, "covr"@, image_flags(kind), bytes);
            lemma_cover_child(data, at + 8, tags, kind, bytes);
            lemma_atom_read(
                data,
                start,
                end,
                before,
                tags,
                "covr"@,
                AtomKind::Cover,
                image_flags(kind),
                bytes,
                TagsView { front_cover: field, ..tags },
            );
        },
        _ => {
            assert(before + cover_atom(field) =~= before);
            assert(tags == TagsView { front_cover: picked(field, tags.front_cover), ..tags });
        },
    }
}

/// The tags after the atoms of the names.
pub open spec fn tags_name(tags: TagsView, t: TagsView) -> TagsView {
    TagsView {
        title: picked(t.title, tags.title),
        album: picked(t.album, tags.album),
        artist: picked(t.artist, tags.artist),
        album_artist: picked(t.album_artist, tags.album_artist),
        composer: picked(t.composer, tags.composer),
        grouping: picked(t.grouping, tags.grouping),
        genre: picked(t.genre, tags.genre),
        ..tags
    }
}

/// Reading passes over these atoms and takes them into the tags.
#[verifier::rlimit(50)]
pub proof fn lemma_name_atoms_read(
    data: Seq<u8>,
    start: int,
    end: int,
    before: Seq<u8>,
    tags: TagsView,
    t: TagsView,
)
    requires
        storable(t),
        0 <= start,
        data.len() <= u64::MAX,
        name_atoms(before, t).len() < 0x1_0000_0000,
        stands_at(name_atoms(before, t), data, start),
        start + name_atoms(before, t).len() <= end,
        listed(data, start, end, before, tags),
    ensures
        listed(data, start, end, name_atoms(before, t), tags_name(tags, t)),
{
    reveal(name_atoms);
    reveal(storable);
    let a0 = before;
    let s0 = tags;
    let a1 = a0 + text_atom("©nam"@, t.title);
    let a2 = a1 + text_atom("©alb"@, t.album);
    let a3 = a2 + text_atom("©art"@, t.artist);
    let a4 = a3 + text_atom("aART"@, t.album_artist);
    let a5 = a4 + text_atom("©wrt"@, t.composer);
    let a6 = a5 + text_atom("©grp"@, t.grouping);
    let a7 = a6 + text_atom("©gen"@, t.genre);
    assert(a7 == name_atoms(before, t));
    lemma_stands_at(a6, text_atom("©gen"@, t.genre), data, start);
    lemma_stands_at(a5, text_atom("©grp"@, t.grouping), data, start);
    lemma_stands_at(a4, text_atom("©wrt"@, t.composer), data, start);
    lemma_stands_at(a3, text_atom("aART"@, t.album_artist), data, start);
    lemma_stands_at(a2, text_atom("©art"@, t.artist), data, start);
    lemma_stands_at(a1, text_atom("©alb"@, t.album), data, start);
    lemma_stands_at(a0, text_atom("©nam"@, t.title), data, start);
    lemma_name_of_title();
    lemma_text_atom_read(data, start, end, a0, s0, "©nam"@, AtomKind::Title, t.title);
    let s1 = match t.title {
        TagOption::Present(x) => with_atom_text(s0, AtomKind::Title, x),
        _ => s0,
    };
    lemma_name_of_album();
    lemma_text_atom_read(data, start, end, a1, s1, "©alb"@, AtomKind::Album, t.album);
    let s2 = match t.album {
        TagOption::Present(x) => with_atom_text(s1, AtomKind::Album, x),
        _ => s1,
    };
    lemma_name_of_artist();
    lemma_text_atom_read(data, start, end, a2, s2, "©art"@, AtomKind::Artist, t.artist);
    let s3 = match t.artist {
        TagOption::Present(x) => with_atom_text(s2, AtomKind::Artist, x),
        _ => s2,
    };
    lemma_name_of_album_artist();
    lemma_text_atom_read(data, start, end, a3, s3, "aART"@, AtomKind::AlbumArtist, t.album_artist);
    let s4 = match t.album_artist {
        TagOption::Present(x) => with_atom_text(s3, AtomKind::AlbumArtist, x),
        _ => s3,
    };
    lemma_name_of_composer();
    lemma_text_atom_read(data, start, end, a4, s4, "©wrt"@, AtomKind::Composer, t.composer);
    let s5 = match t.composer {
        TagOption::Present(x) => with_atom_text(s4, AtomKind::Composer, x),
        _ => s4,
    };
    lemma_name_of_grouping();
    lemma_text_atom_read(data, start, end, a5, s5, "©grp"@, AtomKind::Grouping, t.grouping);
    let s6 = match t.grouping {
        TagOption::Present(x) => with_atom_text(s5, AtomKind::Grouping, x),
        _ => s5,
    };
    lemma_name_of_genre();
    lemma_text_atom_read(data, start, end, a6, s6, "©gen"@, AtomKind::Genre, t.genre);
    let s7 = match t.genre {
        TagOption::Present(x) => with_atom_text(s6, AtomKind::Genre, x),
        _ => s6,
    };
    assert(s7 == tags_name(tags, t));
}

/// The tags after the atoms of the comment, the sort names and the cover.
pub open spec fn tags_sort(tags: TagsView, t: TagsView) -> TagsView {
    TagsView {
        comment: picked(t.comment, tags.comment),
        sort_title: picked(t.sort_title, tags.sort_title),
        sort_album: picked(t.sort_album, tags.sort_album),
        sort_artist: picked(t.sort_artist, tags.sort_artist),
        sort_album_artist: picked(t.sort_album_artist, tags.sort_album_artist),
        sort_composer: picked(t.sort_composer, tags.sort_composer),
        front_cover: picked(t.front_cover, tags.front_cover),
        ..tags
    }
}

/// Reading passes over these atoms and takes them into the tags.
#[verifier::rlimit(50)]
pub proof fn lemma_sort_atoms_read(
    data: Seq<u8>,
    start: int,
    end: int,
    before: Seq<u8>,
    tags: TagsView,
    t: TagsView,
)
    requires
        storable(t),
        0 <= start,
        data.len() <= u64::MAX,
        tags.front_cover is Absent,
        sort_atoms(before, t).len() < 0x1_0000_0000,
        stands_at(sort_atoms(before, t), data, start),
        start + sort_atoms(before, t).len() <= end,
        listed(data, start, end, before, tags),
    ensures
        listed(data, start, end, sort_atoms(before, t), tags_sort(tags, t)),
{
    reveal(sort_atoms);
    reveal(storable);
    let a0 = before;
    let s0 = tags;
    let a1 = a0 + text_atom("©cmt"@, t.comment);
    let a2 = a1 + text_atom("sonm"@, t.sort_title);
    let a3 = a2 + text_atom("soal"@, t.sort_album);
    let a4 = a3 + text_atom("soar"@, t.sort_artist);
    let a5 = a4 + text_atom("soaa"@, t.sort_album_artist);
    let a6 = a5 + text_atom("soco"@, t.sort_composer);
    let a7 = a6 + cover_atom(t.front_cover);
    assert(a7 == sort_atoms(before, t));
    lemma_stands_at(a6, cover_atom(t.front_cover), data, start);
    lemma_stands_at(a5, text_atom("soco"@, t.sort_composer), data, start);
    lemma_stands_at(a4, text_atom("soaa"@, t.sort_album_artist), data, start);
    lemma_stands_at(a3, text_atom("soar"@, t.sort_artist), data, start);
    lemma_stands_at(a2, text_atom("soal"@, t.sort_album), data, start);
    lemma_stands_at(a1, text_atom("sonm"@, t.sort_title), data, start);
    lemma_stands_at(a0, text_atom("©cmt"@, t.comment), data, start);
    lemma_name_of_comment();
    lemma_text_atom_read(data, start, end, a0, s0, "©cmt"@, AtomKind::Comment, t.comment);
    let s1 = match t.comment {
        TagOption::Present(x) => with_atom_text(s0, AtomKind::Comment, x),
        _ => s0,
    };
    lemma_name_of_sort_title();
    lemma_text_atom_read(data, start, end, a1, s1, "sonm"@, AtomKind::SortTitle, t.sort_title);
    let s2 = match t.sort_title {
        TagOption::Present(x) => with_atom_text(s1, AtomKind::SortTitle, x),
        _ => s1,
    };
    lemma_name_of_sort_album();
    lemma_text_atom_read(data, start, end, a2, s2, "soal"@, AtomKind::SortAlbum, t.sort_album);
    let s3 = match t.sort_album {
        TagOption::Present(x) => with_atom_text(s2, AtomKind::SortAlbum, x),
        _ => s2,
    };
    lemma_name_of_sort_artist();
    lemma_text_atom_read(data, start, end, a3, s3, "soar"@, AtomKind::SortArtist, t.sort_artist);
    let s4 = match t.sort_artist {
        TagOption::Present(x) => with_atom_text(s3, AtomKind::SortArtist, x),
        _ => s3,
    };
    lemma_name_of_sort_album_artist();
    lemma_text_atom_read(data, start, end, a4, s4, "soaa"@, AtomKind::SortAlbumArtist,
        t.sort_album_artist);
    let s5 = match t.sort_album_artist {
        TagOption::Present(x) => with_atom_text(s4, AtomKind::SortAlbumArtist, x),
        _ => s4,
    };
    lemma_name_of_sort_composer();
    lemma_text_atom_read(data, start, end, a5, s5, "soco"@, AtomKind::SortComposer,
        t.sort_composer);
    let s6 = match t.sort_composer {
        TagOption::Present(x) => with_atom_text(s5, AtomKind::SortComposer, x),
        _ => s5,
    };
    lemma_cover_atom_read(data, start, end, a6, s6, t.front_cover);
    let s7 = TagsView { front_cover: picked(t.front_cover, s6.front_cover), ..s6 };
    assert(s7 == tags_sort(tags, t));
}

/// What stands in the data with these atoms behind it stands in the data.
pub proof fn lemma_sort_atoms_stand(before: Seq<u8>, t: TagsView, data: Seq<u8>, start: int)
    requires
        stands_at(sort_atoms(before, t), data, start),
    ensures
        stands_at(before, data, start),
        before.len() <= sort_atoms(before, t).len(),
{
    reveal(sort_atoms);
    let a0 = before;
    let a1 = a0 + text_atom("©cmt"@, t.comment);
    let a2 = a1 + text_atom("sonm"@, t.sort_title);
    let a3 = a2 + text_atom("soal"@, t.sort_album);
    let a4 = a3 + text_atom("soar"@, t.sort_artist);
    let a5 = a4 + text_atom("soaa"@, t.sort_album_artist);
    let a6 = a5 + text_atom("soco"@, t.sort_composer);
    let a7 = a6 + cover_atom(t.front_cover);
    lemma_stands_at(a6, cover_atom(t.front_cover), data, start);
    lemma_stands_at(a5, text_atom("soco"@, t.sort_composer), data, start);
    lemma_stands_at(a4, text_atom("soaa"@, t.sort_album_artist), data, start);
    lemma_stands_at(a3, text_atom("soar"@, t.sort_artist), data, start);
    lemma_stands_at(a2, text_atom("soal"@, t.sort_album), data, start);
    lemma_stands_at(a1, text_atom("sonm"@, t.sort_title), data, start);
    lemma_stands_at(a0, text_atom("©cmt"@, t.comment), data, start);
}

/// The tags after the atoms of date, track, disc, tempo and compilation.
pub open spec fn tags_number(tags: TagsView, t: TagsView) -> TagsView {
    TagsView {
        date: picked(t.date, tags.date),
        track_number: t.track_number,
        track_total: t.track_total,
        disc_number: t.disc_number,
        disc_total: t.disc_total,
        bpm: t.bpm,
        is_compilation: picked(t.is_compilation, tags.is_compilation),
        ..tags
    }
}

/// Reading passes over these atoms and takes them into the tags.
#[verifier::rlimit(50)]
pub proof fn lemma_number_atoms_read(
    data: Seq<u8>,
    start: int,
    end: int,
    before: Seq<u8>,
    tags: TagsView,
    t: TagsView,
)
    requires
        storable(t),
        0 <= start,
        data.len() <= u64::MAX,
        tags.bpm is Absent,
        number_atoms(before, t).len() < 0x1_0000_0000,
        stands_at(number_atoms(before, t), data, start),
        start + number_atoms(before, t).len() <= end,
        listed(data, start, end, before, tags),
    ensures
        listed(data, start, end, number_atoms(before, t), tags_number(tags, t)),
{
    reveal(number_atoms);
    reveal(storable);
    let a0 = before;
    let s0 = tags;
    let a1 = a0 + date_atom(t.date);
    let a2 = a1 + pair_atom("trkn"@, t.track_number, t.track_total);
    let a3 = a2 + pair_atom("disk"@, t.disc_number, t.disc_total);
    let a4 = a3 + tempo_atom(t.bpm);
    let a5 = a4 + compilation_atom(t.is_compilation);
    assert(a5 == number_atoms(before, t));
    lemma_stands_at(a4, compilation_atom(t.is_compilation), data, start);
    lemma_stands_at(a3, tempo_atom(t.bpm), data, start);
    lemma_stands_at(a2, pair_atom("disk"@, t.disc_number, t.disc_total), data, start);
    lemma_stands_at(a1, pair_atom("trkn"@, t.track_number, t.track_total), data, start);
    lemma_stands_at(a0, date_atom(t.date), data, start);
    lemma_date_atom_read(data, start, end, a0, s0, t.date);
    let s1 = TagsView { date: picked(t.date, s0.date), ..s0 };
    lemma_name_of_track();
    lemma_pair_atom_read(data, start, end, a1, s1, "trkn"@, AtomKind::Track, t.track_number,
        t.track_total);
    let s2 = TagsView { track_number: t.track_number, track_total: t.track_total, ..s1 };
    lemma_name_of_disc();
    lemma_pair_atom_read(data, start, end, a2, s2, "disk"@, AtomKind::Disc, t.disc_number,
        t.disc_total);
    let s3 = TagsView { disc_number: t.disc_number, disc_total: t.disc_total, ..s2 };
    lemma_tempo_atom_read(data, start, end, a3, s3, t.bpm);
    let s4 = TagsView { bpm: t.bpm, ..s3 };
    lemma_compilation_atom_read(data, start, end, a4, s4, t.is_compilation);
    let s5 = TagsView { is_compilation: picked(t.is_compilation, s4.is_compilation), ..s4 };
    assert(s5 == tags_number(tags, t));
}

/// What stands in the data with these atoms behind it stands in the data.
pub proof fn lemma_number_atoms_stand(before: Seq<u8>, t: TagsView, data: Seq<u8>, start: int)
    requires
        stands_at(number_atoms(before, t), data, start),
    ensures
        stands_at(before, data, start),
        before.len() <= number_atoms(before, t).len(),
{
    reveal(number_atoms);
    let a0 = before;
    let a1 = a0 + date_atom(t.date);
    let a2 = a1 + pair_atom("trkn"@, t.track_number, t.track_total);
    let a3 = a2 + pair_atom("disk"@, t.disc_number, t.disc_total);
    let a4 = a3 + tempo_atom(t.bpm);
    let a5 = a4 + compilation_atom(t.is_compilation);
    lemma_stands_at(a4, compilation_atom(t.is_compilation), data, start);
    lemma_stands_at(a3, tempo_atom(t.bpm), data, start);
    lemma_stands_at(a2, pair_atom("disk"@, t.disc_number, t.disc_total), data, start);
    lemma_stands_at(a1, pair_atom("trkn"@, t.track_number, t.track_total), data, start);
    lemma_stands_at(a0, date_atom(t.date), data, start);
}

/// What the atoms of written tags are read into is the tags.
#[verifier::rlimit(50)]
pub proof fn lemma_tags_read(t: TagsView)
    requires
        storable(t),
    ensures
        tags_sort(tags_number(tags_name(TagsView::none(), t), t), t) == t,
{
    reveal(storable);
    let s1 = tags_name(TagsView::none(), t);
    let s2 = tags_number(s1, t);
    let r = tags_sort(s2, t);
    assert(r.title == t.title);
    assert(r.album == t.album);
    assert(r.artist == t.artist);
    assert(r.album_artist == t.album_artist);
    assert(r.composer == t.composer);
    assert(r.grouping == t.grouping);
    assert(r.genre == t.genre);
    assert(r.date == t.date);
    assert(r.track_number == t.track_number);
    assert(r.track_total == t.track_total);
    assert(r.disc_number == t.disc_number);
    assert(r.disc_total == t.disc_total);
    assert(r.bpm == t.bpm);
    assert(r.is_compilation == t.is_compilation);
    assert(r.comment == t.comment);
    assert(r.sort_title == t.sort_title);
    assert(r.sort_album == t.sort_album);
    assert(r.sort_artist == t.sort_artist);
    assert(r.sort_album_artist == t.sort_album_artist);
    assert(r.sort_composer == t.sort_composer);
    assert(r.front_cover == t.front_cover);
    assert(r.rating == t.rating);
}

/// The list of atoms that was written for tags is read back as the tags,
/// if the tags are such as can be stored.
#[verifier::rlimit(50)]
pub proof fn lemma_list_read(data: Seq<u8>, start: int, t: TagsView)
    requires
        storable(t),
        0 <= start,
        data.len() <= u64::MAX,
        list_atoms(Seq::empty(), t).len() < 0x1_0000_0000,
        stands_at(list_atoms(Seq::empty(), t), data, start),
    ensures
        list_read(
            data,
            start,
            start + list_atoms(Seq::empty(), t).len(),
            TagsView::none(),
        ) == Ok::<(TagsView, int), ErrorView>((t, start + list_atoms(Seq::empty(), t).len())),
{
    let none = TagsView::none();
    let e = Seq::<u8>::empty();
    let a1 = name_atoms(e, t);
    let a2 = number_atoms(a1, t);
    let a3 = sort_atoms(a2, t);
    assert(a3 == list_atoms(e, t));
    let end = start + a3.len();
    lemma_sort_atoms_stand(a2, t, data, start);
    lemma_number_atoms_stand(a1, t, data, start);
    assert(listed(data, start, end, e, none)) by {
        reveal(listed);
    }
    lemma_name_atoms_read(data, start, end, e, none, t);
    let s1 = tags_name(none, t);
    lemma_number_atoms_read(data, start, end, a1, s1, t);
    let s2 = tags_number(s1, t);
    lemma_sort_atoms_read(data, start, end, a2, s2, t);
    lemma_tags_read(t);
    reveal(listed);
}

/// What adding `delta` to the number of four bytes at `at` does: the
/// number grows by `delta` within its 32 bits, and nothing else changes.
pub proof fn lemma_patched(out: Seq<u8>, at: int, delta: int)
    requires
        0 <= at,
        at + 4 <= out.len(),
    ensures
        patched(out, at, delta).len() == out.len(),
        be_value(patched(out, at, delta).subrange(at, at + 4)) == (be_value(
            out.subrange(at, at + 4),
        ) + delta) % 0x1_0000_0000,
        forall|i: int|
            0 <= i < out.len() && !(at <= i < at + 4) ==> #[trigger] patched(out, at, delta)[i]
                == out[i],
{
    let value = ((be_value(out.subrange(at, at + 4)) + delta) % 0x1_0000_0000) as u32;
    lemma_be_u32_roundtrip(value);
    assert(patched(out, at, delta).subrange(at, at + 4) =~= be_bytes_u32(value));
}

/// What moving `n` numbers of four bytes from `from` on by `delta` does:
/// each grows by `delta` within its 32 bits, and nothing else changes.
pub proof fn lemma_entries_patched(out: Seq<u8>, from: int, n: nat, delta: int, k: int)
    requires
        0 <= from,
        from + 4 * n <= out.len(),
        0 <= k < n,
    ensures
        entries_patched(out, from, n, delta).len() == out.len(),
        be_value(
            entries_patched(out, from, n, delta).subrange(from + 4 * k, from + 4 * k + 4),
        ) == (be_value(out.subrange(from + 4 * k, from + 4 * k + 4)) + delta) % 0x1_0000_0000,
    decreases n,
{
    lemma_patched(out, from, delta);
    let first = patched(out, from, delta);
    lemma_entries_kept(first, from + 4, (n - 1) as nat, delta);
    let all = entries_patched(out, from, n, delta);
    assert(all == entries_patched(first, from + 4, (n - 1) as nat, delta));
    if k == 0 {
        assert(all.subrange(from, from + 4) =~= first.subrange(from, from + 4));
    } else {
        lemma_entries_patched(first, from + 4, (n - 1) as nat, delta, k - 1);
        assert(first.subrange(from + 4 * k, from + 4 * k + 4) =~= out.subrange(
            from + 4 * k,
            from + 4 * k + 4,
        ));
    }
}

/// Moving numbers from `from` on changes nothing before `from` or behind them.
pub proof fn lemma_entries_kept(out: Seq<u8>, from: int, n: nat, delta: int)
    requires
        0 <= from,
        from + 4 * n <= out.len(),
    ensures
        entries_patched(out, from, n, delta).len() == out.len(),
        forall|i: int|
            0 <= i < out.len() && !(from <= i < from + 4 * n) ==> #[trigger] entries_patched(
                out,
                from,
                n,
                delta,
            )[i] == out[i],
    decreases n,
{
    if n > 0 {
        lemma_patched(out, from, delta);
        lemma_entries_kept(patched(out, from, delta), from + 4, (n - 1) as nat, delta);
    }
}

/// Every chunk offset that the table holds is moved by `delta`, within its
/// 32 bits, and nothing else of what was written changes.
pub proof fn lemma_offsets_moved(out: Seq<u8>, at: int, delta: int, k: int)
    requires
        0 <= at,
        0 <= k < offsets_held(out, at),
    ensures
        offsets_patched(out, at, delta).len() == out.len(),
        at + 16 + 4 * k + 4 <= out.len(),
        be_value(offsets_patched(out, at, delta).subrange(at + 16 + 4 * k, at + 16 + 4 * k + 4))
            == (be_value(out.subrange(at + 16 + 4 * k, at + 16 + 4 * k + 4)) + delta)
            % 0x1_0000_0000,
        forall|i: int|
            0 <= i < at + 16 ==> #[trigger] offsets_patched(out, at, delta)[i] == out[i],
{
    let n = offsets_held(out, at);
    lemma_entries_patched(out, at + 16, n, delta, k);
    lemma_entries_kept(out, at + 16, n, delta);
}

} // verus!
