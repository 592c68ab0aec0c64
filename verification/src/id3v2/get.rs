//! Reading the frames of an ID3v2 tag into tags.
use vstd::prelude::*;
use crate::id3v2::read::comment;
use crate::id3v2::read::comment_at;
use crate::id3v2::read::frame_header;
use crate::id3v2::read::frame_header_at;
use crate::id3v2::read::frame_header_len;
use crate::id3v2::read::frame_text;
use crate::id3v2::read::image;
use crate::id3v2::read::image_at;
use crate::id3v2::read::image_v2;
use crate::id3v2::read::image_v2_at;
use crate::id3v2::read::string;
use crate::id3v2::read::string_from_slice;
use crate::id3v2::structure::FrameHeader;
use crate::id3v2::structure::Header;
use crate::id3v2::tools::undo_unsynch;
use crate::id3v2::tools::unsynch_removed;
use crate::id3v2::track::get_track_number;
use crate::id3v2::track::track_parts;
use crate::store::avail;
use crate::store::read_filled;
use crate::store::Store;
use crate::tools::tag_error;
use crate::tools::text::chars_of;
use crate::tools::text::parse_i64;
use crate::tools::text::parse_i64_str;
use crate::tools::text::replace_nul_in;
use crate::tools::text::str_eq;
use crate::tools::text::string_of_range;
use crate::types::datetime::iso_8601_date;
use crate::types::datetime::DateTime;
use crate::types::image::Image;
use crate::types::image::ImageView;
use crate::types::tags::from_option;
use crate::types::tags::TagOption;
use crate::types::tags::Tags;
use crate::types::tags::TagsView;
use crate::Error;
use crate::ErrorView;

verus! {

/// What a frame holds, by its id.
#[derive(Clone, Copy, PartialEq, Eq, Debug)]
pub enum FrameKind {
    /// The title.
    Title,
    /// The album.
    Album,
    /// The artist.
    Artist,
    /// The artist of the album.
    AlbumArtist,
    /// The composer.
    Composer,
    /// The grouping.
    Grouping,
    /// The genre.
    Genre,
    /// The recording time, or the year in the older versions.
    Date,
    /// Day and month as `DDMM`, in the older versions.
    DayMonth,
    /// Hour and minute as `HHMM`, in the older versions.
    Time,
    /// Track number and total.
    Track,
    /// Disc number and total.
    Disc,
    /// Beats per minute.
    Bpm,
    /// Whether the file is part of a compilation.
    Compilation,
    /// A comment.
    Comment,
    /// The title to sort by.
    SortTitle,
    /// The album to sort by.
    SortAlbum,
    /// The artist to sort by.
    SortArtist,
    /// The album's artist to sort by.
    SortAlbumArtist,
    /// The composer to sort by.
    SortComposer,
    /// An attached picture.
    Picture,
    /// An attached picture of version 2.
    PictureV2,
    /// Anything else: passed over.
    Other,
}

/// The kind of the frame with the id `name`. Each kind has an id of four
/// characters; `strict` leaves out the ids of three characters of version 2
/// and the date frames that version 4 gave up.
pub open spec fn frame_kind_of(name: Seq<char>, strict: bool) -> FrameKind {
    if name == "TIT2"@ || (!strict && (name == "TT2"@)) {
        FrameKind::Title
    } else if name == "TALB"@ || (!strict && (name == "TAL"@)) {
        FrameKind::Album
    } else if name == "TPE1"@ || (!strict && (name == "TP1"@)) {
        FrameKind::Artist
    } else if name == "TPE2"@ || (!strict && (name == "TP2"@)) {
        FrameKind::AlbumArtist
    } else if name == "TCOM"@ || (!strict && (name == "TCM"@)) {
        FrameKind::Composer
    } else if name == "TIT1"@ || (!strict && (name == "TT1"@)) {
        FrameKind::Grouping
    } else if name == "TCON"@ || (!strict && (name == "TCO"@)) {
        FrameKind::Genre
    } else if name == "TDRC"@ || (!strict && (name == "TYER"@ || name == "TYE"@)) {
        FrameKind::Date
    } else if (!strict && (name == "TDAT"@ || name == "TDA"@)) {
        FrameKind::DayMonth
    } else if (!strict && (name == "TIME"@ || name == "TIM"@)) {
        FrameKind::Time
    } else if name == "TRCK"@ || (!strict && (name == "TRK"@)) {
        FrameKind::Track
    } else if name == "TPOS"@ || (!strict && (name == "TPA"@)) {
        FrameKind::Disc
    } else if name == "TBPM"@ || (!strict && (name == "TBP"@)) {
        FrameKind::Bpm
    } else if name == "TCMP"@ || (!strict && (name == "TCP"@)) {
        FrameKind::Compilation
    } else if name == "COMM"@ || (!strict && (name == "COM"@)) {
        FrameKind::Comment
    } else if name == "TSOT"@ || (!strict && (name == "TST"@)) {
        FrameKind::SortTitle
    } else if name == "TSOA"@ || (!strict && (name == "TSA"@)) {
        FrameKind::SortAlbum
    } else if name == "TSOP"@ || (!strict && (name == "TSP"@)) {
        FrameKind::SortArtist
    } else if name == "TSO2"@ || (!strict && (name == "TS2"@)) {
        FrameKind::SortAlbumArtist
    } else if name == "TSOC"@ || (!strict && (name == "TSC"@)) {
        FrameKind::SortComposer
    } else if name == "APIC"@ {
        FrameKind::Picture
    } else if (!strict && (name == "PIC"@)) {
        FrameKind::PictureV2
    } else {
        FrameKind::Other
    }
}

/// The kind of the frame with the id `name`.
pub fn frame_kind(name: &str, strict: bool) -> (r: FrameKind)
    ensures
        r == frame_kind_of(name@, strict),
{
    if str_eq(name, "TIT2") || (!strict && (str_eq(name, "TT2"))) {
        FrameKind::Title
    } else if str_eq(name, "TALB") || (!strict && (str_eq(name, "TAL"))) {
        FrameKind::Album
    } else if str_eq(name, "TPE1") || (!strict && (str_eq(name, "TP1"))) {
        FrameKind::Artist
    } else if str_eq(name, "TPE2") || (!strict && (str_eq(name, "TP2"))) {
        FrameKind::AlbumArtist
    } else if str_eq(name, "TCOM") || (!strict && (str_eq(name, "TCM"))) {
        FrameKind::Composer
    } else if str_eq(name, "TIT1") || (!strict && (str_eq(name, "TT1"))) {
        FrameKind::Grouping
    } else if str_eq(name, "TCON") || (!strict && (str_eq(name, "TCO"))) {
        FrameKind::Genre
    } else if str_eq(name, "TDRC") || (!strict && (str_eq(name, "TYER") || str_eq(name, "TYE"))) {
        FrameKind::Date
    } else if (!strict && (str_eq(name, "TDAT") || str_eq(name, "TDA"))) {
        FrameKind::DayMonth
    } else if (!strict && (str_eq(name, "TIME") || str_eq(name, "TIM"))) {
        FrameKind::Time
    } else if str_eq(name, "TRCK") || (!strict && (str_eq(name, "TRK"))) {
        FrameKind::Track
    } else if str_eq(name, "TPOS") || (!strict && (str_eq(name, "TPA"))) {
        FrameKind::Disc
    } else if str_eq(name, "TBPM") || (!strict && (str_eq(name, "TBP"))) {
        FrameKind::Bpm
    } else if str_eq(name, "TCMP") || (!strict && (str_eq(name, "TCP"))) {
        FrameKind::Compilation
    } else if str_eq(name, "COMM") || (!strict && (str_eq(name, "COM"))) {
        FrameKind::Comment
    } else if str_eq(name, "TSOT") || (!strict && (str_eq(name, "TST"))) {
        FrameKind::SortTitle
    } else if str_eq(name, "TSOA") || (!strict && (str_eq(name, "TSA"))) {
        FrameKind::SortAlbum
    } else if str_eq(name, "TSOP") || (!strict && (str_eq(name, "TSP"))) {
        FrameKind::SortArtist
    } else if str_eq(name, "TSO2") || (!strict && (str_eq(name, "TS2"))) {
        FrameKind::SortAlbumArtist
    } else if str_eq(name, "TSOC") || (!strict && (str_eq(name, "TSC"))) {
        FrameKind::SortComposer
    } else if str_eq(name, "APIC") {
        FrameKind::Picture
    } else if (!strict && (str_eq(name, "PIC"))) {
        FrameKind::PictureV2
    } else {
        FrameKind::Other
    }
}

/// What has been collected from the frames read so far.
pub struct Scan {
    pub tags: Tags,
    pub date: String,
    pub tdat: String,
    pub time: String,
    pub trck: String,
    pub tpos: String,
    /// Whether the cover that `tags` holds is a front cover.
    pub found_best_cover: bool,
}

/// What contracts say of a [`Scan`].
pub struct ScanView {
    pub tags: TagsView,
    pub date: Seq<char>,
    pub tdat: Seq<char>,
    pub time: Seq<char>,
    pub trck: Seq<char>,
    pub tpos: Seq<char>,
    pub found_best_cover: bool,
}

impl View for Scan {
    type V = ScanView;

    open spec fn view(&self) -> ScanView {
        ScanView {
            tags: self.tags@,
            date: self.date@,
            tdat: self.tdat@,
            time: self.time@,
            trck: self.trck@,
            tpos: self.tpos@,
            found_best_cover: self.found_best_cover,
        }
    }
}

impl ScanView {
    /// Nothing collected yet.
    pub open spec fn start() -> ScanView {
        ScanView {
            tags: TagsView::none(),
            date: Seq::empty(),
            tdat: Seq::empty(),
            time: Seq::empty(),
            trck: Seq::empty(),
            tpos: Seq::empty(),
            found_best_cover: false,
        }
    }
}

/// The scan after a frame of the given kind with the text `text`. The
/// tempo counts only if it is a number; a compilation is marked by `1`.
pub open spec fn with_text(scan: ScanView, kind: FrameKind, text: Seq<char>) -> ScanView {
    match kind {
        FrameKind::Title => ScanView {
            tags: TagsView { title: TagOption::Present(text), ..scan.tags },
            ..scan
        },
        FrameKind::Album => ScanView {
            tags: TagsView { album: TagOption::Present(text), ..scan.tags },
            ..scan
        },
        FrameKind::Artist => ScanView {
            tags: TagsView { artist: TagOption::Present(text), ..scan.tags },
            ..scan
        },
        FrameKind::AlbumArtist => ScanView {
            tags: TagsView { album_artist: TagOption::Present(text), ..scan.tags },
            ..scan
        },
        FrameKind::Composer => ScanView {
            tags: TagsView { composer: TagOption::Present(text), ..scan.tags },
            ..scan
        },
        FrameKind::Grouping => ScanView {
            tags: TagsView { grouping: TagOption::Present(text), ..scan.tags },
            ..scan
        },
        FrameKind::Genre => ScanView {
            tags: TagsView { genre: TagOption::Present(text), ..scan.tags },
            ..scan
        },
        FrameKind::SortTitle => ScanView {
            tags: TagsView { sort_title: TagOption::Present(text), ..scan.tags },
            ..scan
        },
        FrameKind::SortAlbum => ScanView {
            tags: TagsView { sort_album: TagOption::Present(text), ..scan.tags },
            ..scan
        },
        FrameKind::SortArtist => ScanView {
            tags: TagsView { sort_artist: TagOption::Present(text), ..scan.tags },
            ..scan
        },
        FrameKind::SortAlbumArtist => ScanView {
            tags: TagsView { sort_album_artist: TagOption::Present(text), ..scan.tags },
            ..scan
        },
        FrameKind::SortComposer => ScanView {
            tags: TagsView { sort_composer: TagOption::Present(text), ..scan.tags },
            ..scan
        },
        FrameKind::Date => ScanView { date: text, ..scan },
        FrameKind::DayMonth => ScanView { tdat: text, ..scan },
        FrameKind::Time => ScanView { time: text, ..scan },
        FrameKind::Track => ScanView { trck: text, ..scan },
        FrameKind::Disc => ScanView { tpos: text, ..scan },
        FrameKind::Bpm => match parse_i64(text) {
            Some(v) => ScanView {
                tags: TagsView { bpm: TagOption::Present(v), ..scan.tags },
                ..scan
            },
            None => scan,
        },
        FrameKind::Compilation => ScanView {
            tags: TagsView { is_compilation: TagOption::Present(text == "1"@), ..scan.tags },
            ..scan
        },
        FrameKind::Comment => ScanView {
            tags: TagsView { comment: TagOption::Present(text), ..scan.tags },
            ..scan
        },
        _ => scan,
    }
}

/// The scan after a comment frame: one without a comment changes nothing.
pub open spec fn with_comment(scan: ScanView, text: Option<Seq<char>>) -> ScanView {
    match text {
        Some(s) => with_text(scan, FrameKind::Comment, s),
        None => scan,
    }
}

/// The scan after a picture frame that gave `image` with the picture type
/// `kind`: a front cover (type 3) always becomes the cover; anything else,
/// also no image at all, only while no front cover was found.
pub open spec fn with_picture(scan: ScanView, image: ImageView, kind: u8) -> ScanView {
    if kind == 0x03 || !scan.found_best_cover {
        ScanView {
            tags: TagsView { front_cover: TagOption::Present(image), ..scan.tags },
            found_best_cover: kind == 0x03,
            ..scan
        }
    } else {
        scan
    }
}

/// Puts the text of a frame into the field that the frame stands for.
fn set_text(scan: &mut Scan, kind: FrameKind, text: String)
    ensures
        final(scan)@ == with_text(old(scan)@, kind, text@),
{
    match kind {
        FrameKind::Title => {
            scan.tags.title = TagOption::Present(text);
        },
        FrameKind::Album => {
            scan.tags.album = TagOption::Present(text);
        },
        FrameKind::Artist => {
            scan.tags.artist = TagOption::Present(text);
        },
        FrameKind::AlbumArtist => {
            scan.tags.album_artist = TagOption::Present(text);
        },
        FrameKind::Composer => {
            scan.tags.composer = TagOption::Present(text);
        },
        FrameKind::Grouping => {
            scan.tags.grouping = TagOption::Present(text);
        },
        FrameKind::Genre => {
            scan.tags.genre = TagOption::Present(text);
        },
        FrameKind::SortTitle => {
            scan.tags.sort_title = TagOption::Present(text);
        },
        FrameKind::SortAlbum => {
            scan.tags.sort_album = TagOption::Present(text);
        },
        FrameKind::SortArtist => {
            scan.tags.sort_artist = TagOption::Present(text);
        },
        FrameKind::SortAlbumArtist => {
            scan.tags.sort_album_artist = TagOption::Present(text);
        },
        FrameKind::SortComposer => {
            scan.tags.sort_composer = TagOption::Present(text);
        },
        FrameKind::Date => {
            scan.date = text;
        },
        FrameKind::DayMonth => {
            scan.tdat = text;
        },
        FrameKind::Time => {
            scan.time = text;
        },
        FrameKind::Track => {
            scan.trck = text;
        },
        FrameKind::Disc => {
            scan.tpos = text;
        },
        FrameKind::Bpm => {
            if let Some(v) = parse_i64_str(text.as_str()) {
                scan.tags.bpm = TagOption::Present(v);
            }
        },
        FrameKind::Compilation => {
            scan.tags.is_compilation = TagOption::Present(str_eq(text.as_str(), "1"));
        },
        FrameKind::Comment => {
            scan.tags.comment = TagOption::Present(text);
        },
        _ => {},
    }
}

/// Puts the text of a comment frame into the scan, if it has one.
fn set_comment(scan: &mut Scan, text: Option<String>)
    ensures
        final(scan)@ == with_comment(
            old(scan)@,
            match text {
                Some(s) => Some(s@),
                None => None,
            },
        ),
{
    if let Some(s) = text {
        set_text(scan, FrameKind::Comment, s);
    }
}

/// Puts the picture of a frame into the scan: a front cover always, anything
/// else only while no front cover was found.
fn set_picture(scan: &mut Scan, image: Image, kind: u8)
    ensures
        final(scan)@ == with_picture(old(scan)@, image@, kind),
{
    if kind == 0x03 || !scan.found_best_cover {
        scan.tags.front_cover = TagOption::Present(image);
        scan.found_best_cover = kind == 0x03;
    }
}

/// The part of a frame of `size` bytes at `pos` that was unsynchronized on
/// its own, as version 4 does it: behind four bytes of size, with the
/// unsynchronization undone.
pub open spec fn payload_at(data: Seq<u8>, pos: int, size: u32) -> Seq<u8> {
    unsynch_removed(read_filled(data, pos + 4, size - 4, 0))
}

/// The scan after a frame of the given kind whose content, taken out of
/// its unsynchronization, is `payload`.
pub open spec fn payload_applied(scan: ScanView, kind: FrameKind, payload: Seq<u8>) -> ScanView {
    match kind {
        FrameKind::Picture => {
            let r = image_at(payload, 0, payload.len() as u32).0;
            with_picture(scan, r.0, r.1)
        },
        FrameKind::PictureV2 => scan,
        FrameKind::Comment => with_comment(scan, comment_at(payload, 0, payload.len() as u32).0),
        FrameKind::Other => scan,
        _ => with_text(scan, kind, frame_text(payload)),
    }
}

/// The scan after the frame of `size` bytes and of the given kind whose
/// content starts at `pos`, and where the cursor stands after it. A frame
/// of another kind is passed over. With `unsync` the frame was
/// unsynchronized on its own; one too short for that is passed over.
pub open spec fn frame_read(
    data: Seq<u8>,
    pos: int,
    scan: ScanView,
    size: u32,
    kind: FrameKind,
    unsync: bool,
) -> (ScanView, int) {
    if kind is Other {
        (scan, pos + size)
    } else if unsync {
        if size < 4 {
            (scan, pos + size)
        } else {
            (
                payload_applied(scan, kind, payload_at(data, pos, size)),
                pos + 4 + avail(data.len() as int, pos + 4, size - 4),
            )
        }
    } else {
        match kind {
            FrameKind::Picture => {
                let r = image_at(data, pos, size);
                (with_picture(scan, r.0.0, r.0.1), r.1)
            },
            FrameKind::PictureV2 => {
                let r = image_v2_at(data, pos, size);
                (with_picture(scan, r.0.0, r.0.1), r.1)
            },
            FrameKind::Comment => {
                let r = comment_at(data, pos, size);
                (with_comment(scan, r.0), r.1)
            },
            _ => (
                with_text(scan, kind, frame_text(read_filled(data, pos, size as int, 0))),
                pos + avail(data.len() as int, pos, size as int),
            ),
        }
    }
}

/// The scan after the frames from `pos` on, and where the cursor stands
/// then. Frames are read while the cursor is at `limit` or before it; a
/// malformed header ends the scan: it is taken for padding. So does a frame
/// that leaves the cursor where it was.
pub open spec fn frames_scanned(
    data: Seq<u8>,
    pos: int,
    limit: int,
    version: u8,
    strict: bool,
    scan: ScanView,
) -> (ScanView, int)
    decreases
            (if pos <= limit {
                limit - pos + 1
            } else {
                0
            }),
{
    if pos > limit {
        (scan, pos)
    } else {
        let pos1 = pos + avail(data.len() as int, pos, frame_header_len(version));
        match frame_header_at(data, pos, version) {
            None => (scan, pos1),
            Some(f) => {
                let next = frame_read(
                    data,
                    pos1,
                    scan,
                    f.size,
                    frame_kind_of(f.name, strict),
                    strict && f.is_unsynchronized,
                );
                if next.1 <= pos {
                    next
                } else {
                    frames_scanned(data, next.1, limit, version, strict, next.0)
                }
            },
        }
    }
}

/// The text of the date of a scan: in the versions before 4, a day and
/// month of four characters `DDMM` are put behind the year as `-MM-DD`,
/// and then an hour and minute of four characters `HHMM` as `THH:MM`.
pub open spec fn date_text(scan: ScanView, version: u8) -> Seq<char> {
    if version < 4 && scan.tdat.len() == 4 {
        scan.date + seq!['-'] + scan.tdat.subrange(2, 4) + seq!['-'] + scan.tdat.subrange(0, 2)
            + (if scan.time.len() == 4 {
            seq!['T'] + scan.time.subrange(0, 2) + seq![':'] + scan.time.subrange(2, 4)
        } else {
            Seq::empty()
        })
    } else {
        scan.date
    }
}

/// A number field as the text `s` gives it: a text that is no number
/// leaves the field as it is.
pub open spec fn with_number(field: TagOption<i64>, s: Seq<char>) -> TagOption<i64> {
    match parse_i64(s) {
        Some(v) => TagOption::Present(v),
        None => field,
    }
}

/// The tags of a finished scan: the date is what the collected text
/// starts with, and no date if that is none; track and disc come from their
/// frames' texts.
pub open spec fn finished(scan: ScanView, version: u8) -> TagsView {
    TagsView {
        date: from_option(iso_8601_date(date_text(scan, version))),
        track_number: with_number(scan.tags.track_number, track_parts(scan.trck).0),
        track_total: with_number(scan.tags.track_total, track_parts(scan.trck).1),
        disc_number: with_number(scan.tags.disc_number, track_parts(scan.tpos).0),
        disc_total: with_number(scan.tags.disc_total, track_parts(scan.tpos).1),
        ..scan.tags
    }
}

/// The tags of the frames from `pos` on in a tag with the given header,
/// and where the cursor stands after them.
pub open spec fn tags_at(data: Seq<u8>, pos: int, header: Header, strict: bool) -> (
    TagsView,
    int,
) {
    let scanned = frames_scanned(
        data,
        pos,
        header.size + 4,
        header.version,
        strict,
        ScanView::start(),
    );
    (finished(scanned.0, header.version), scanned.1)
}

/// Reads the text of a frame of version 4: one that was unsynchronized on
/// its own holds four bytes of size before the text.
fn read_string_shim_v4(input: &mut Store, length: u32, is_unsynchronized: bool) -> (r: String)
    requires
        old(input).pos <= 0x2_0000_0000,
        !is_unsynchronized || length >= 4,
    ensures
        final(input).data == old(input).data,
        r@ == (if is_unsynchronized {
            frame_text(payload_at(old(input).data@, old(input).pos as int, length))
        } else {
            frame_text(read_filled(old(input).data@, old(input).pos as int, length as int, 0))
        }),
        final(input).pos == (if is_unsynchronized {
            old(input).pos + 4 + avail(
                old(input).data@.len() as int,
                old(input).pos + 4,
                length - 4,
            )
        } else {
            old(input).pos + avail(
                old(input).data@.len() as int,
                old(input).pos as int,
                length as int,
            )
        }),
{
    if is_unsynchronized {
        let vec = read_payload(input, length);
        let s = string_from_slice(vec.as_slice());
        replace_nul_in(s.as_str())
    } else {
        string(input, length)
    }
}

/// Reads the content of a frame that was unsynchronized on its own.
fn read_payload(input: &mut Store, length: u32) -> (vec: Vec<u8>)
    requires
        old(input).pos <= 0x2_0000_0000,
        length >= 4,
    ensures
        final(input).data == old(input).data,
        vec@ == payload_at(old(input).data@, old(input).pos as int, length),
        vec@.len() <= length - 4,
        final(input).pos == old(input).pos + 4 + avail(
            old(input).data@.len() as int,
            old(input).pos + 4,
            length - 4,
        ),
{
    input.skip(4);
    let mut vec = input.read_filled(length as usize - 4, 0);
    proof {
        lemma_unsynch_shrinks(vec@);
    }
    undo_unsynch(&mut vec);
    vec
}

/// Undoing unsynchronization makes nothing longer.
pub proof fn lemma_unsynch_shrinks(s: Seq<u8>)
    ensures
        unsynch_removed(s).len() <= s.len(),
    decreases s.len(),
{
    if s.len() >= 2 {
        if s[0] == 0xFF && s[1] == 0x00 {
            lemma_unsynch_shrinks(s.skip(2));
        } else {
            lemma_unsynch_shrinks(s.skip(1));
        }
    }
}

/// Reads the content of one frame into the scan.
fn read_frame(input: &mut Store, scan: &mut Scan, size: u32, kind: FrameKind, unsync: bool)
    requires
        old(input).pos <= 0x2_0000_0000,
    ensures
        final(input).data == old(input).data,
        (final(scan)@, final(input).pos as int) == frame_read(
            old(input).data@,
            old(input).pos as int,
            old(scan)@,
            size,
            kind,
            unsync,
        ),
{
    match kind {
        FrameKind::Other => {
            input.skip(size as i64);
        },
        FrameKind::Picture => {
            if !unsync {
                let (img, apic_type) = image(input, size);
                set_picture(scan, img, apic_type);
            } else if size < 4 {
                input.skip(size as i64);
            } else {
                let vec = read_payload(input, size);
                let l: u32 = vec.len() as u32;
                let mut inner = Store::new(vec);
                let (img, apic_type) = image(&mut inner, l);
                set_picture(scan, img, apic_type);
            }
        },
        FrameKind::PictureV2 => {
            if !unsync {
                let (img, apic_type) = image_v2(input, size);
                set_picture(scan, img, apic_type);
            } else if size < 4 {
                input.skip(size as i64);
            } else {
                read_payload(input, size);
            }
        },
        FrameKind::Comment => {
            if !unsync {
                let text = comment(input, size);
                set_comment(scan, text);
            } else if size < 4 {
                input.skip(size as i64);
            } else {
                let vec = read_payload(input, size);
                let l: u32 = vec.len() as u32;
                let mut inner = Store::new(vec);
                let text = comment(&mut inner, l);
                set_comment(scan, text);
            }
        },
        _ => {
            if unsync && size < 4 {
                input.skip(size as i64);
            } else {
                let text = read_string_shim_v4(input, size, unsync);
                set_text(scan, kind, text);
            }
        },
    }
}

/// Reads frames into the scan while the cursor is at `limit` or before it.
fn scan_frames(input: &mut Store, limit: u64, version: u8, strict: bool, scan: &mut Scan)
    requires
        limit <= 0x1_0000_0004,
    ensures
        final(input).data == old(input).data,
        (final(scan)@, final(input).pos as int) == frames_scanned(
            old(input).data@,
            old(input).pos as int,
            limit as int,
            version,
            strict,
            old(scan)@,
        ),
{
    let ghost target = frames_scanned(
        input.data@,
        input.pos as int,
        limit as int,
        version,
        strict,
        scan@,
    );
    let mut done: bool = false;
    while !done && input.pos <= limit
        invariant
            limit <= 0x1_0000_0004,
            input.data == old(input).data,
            !done ==> frames_scanned(
                input.data@,
                input.pos as int,
                limit as int,
                version,
                strict,
                scan@,
            ) == target,
            done ==> (scan@, input.pos as int) == target,
        decreases
                (if done || input.pos > limit {
                    0
                } else {
                    limit - input.pos + 2
                }),
    {
        let start: u64 = input.pos;
        match frame_header(input, version) {
            Err(_) => {
                done = true;
            },
            Ok(f) => {
                let kind = frame_kind(f.name.as_str(), strict);
                read_frame(input, scan, f.size, kind, strict && f.is_unsynchronized);
                if input.pos <= start {
                    done = true;
                }
            },
        }
    }
}

/// Appends `chars[from..to]` to `s`.
fn push_range(s: &mut String, chars: &Vec<char>, from: usize, to: usize)
    requires
        from <= to <= chars@.len(),
    ensures
        final(s)@ == old(s)@ + chars@.subrange(from as int, to as int),
{
    let part = string_of_range(chars, from, to);
    s.append(part.as_str());
}

/// Turns what was collected into tags.
fn finish(scan: Scan, version: u8) -> (r: Tags)
    ensures
        r@ == finished(scan@, version),
{
    let Scan { tags, date, tdat, time, trck, tpos, found_best_cover } = scan;
    let mut t = tags;
    let mut date = date;
    proof {
        reveal_strlit("-");
        reveal_strlit("T");
        reveal_strlit(":");
        assert("-"@ =~= seq!['-']);
        assert("T"@ =~= seq!['T']);
        assert(":"@ =~= seq![':']);
    }
    let day_month = chars_of(tdat.as_str());
    if version < 4 && day_month.len() == 4 {
        date.append("-");
        push_range(&mut date, &day_month, 2, 4);
        date.append("-");
        push_range(&mut date, &day_month, 0, 2);
        let hour_minute = chars_of(time.as_str());
        if hour_minute.len() == 4 {
            date.append("T");
            push_range(&mut date, &hour_minute, 0, 2);
            date.append(":");
            push_range(&mut date, &hour_minute, 2, 4);
        }
        proof {
            assert(date@ =~= date_text(scan@, version));
        }
    }
    t.date = TagOption::from(DateTime::from_iso_8601(date.as_str()));
    let track = get_track_number(trck.as_str());
    if let Some(x) = parse_i64_str(track.0.as_str()) {
        t.track_number = TagOption::Present(x);
    }
    if let Some(x) = parse_i64_str(track.1.as_str()) {
        t.track_total = TagOption::Present(x);
    }
    let disc = get_track_number(tpos.as_str());
    if let Some(x) = parse_i64_str(disc.0.as_str()) {
        t.disc_number = TagOption::Present(x);
    }
    if let Some(x) = parse_i64_str(disc.1.as_str()) {
        t.disc_total = TagOption::Present(x);
    }
    t
}

/// The scan before the first frame.
fn new_scan() -> (scan: Scan)
    ensures
        scan@ == ScanView::start(),
{
    Scan {
        tags: Tags::none(),
        date: String::new(),
        tdat: String::new(),
        time: String::new(),
        trck: String::new(),
        tpos: String::new(),
        found_best_cover: false,
    }
}

/// Reads the frames of a tag into tags, from the cursor on. Every id of the
/// versions 2.2 to 2.4 is known.
pub fn tags(input: &mut Store, header: &Header) -> (r: Result<Tags, Error>)
    ensures
        r is Ok,
        r->Ok_0@ == tags_at(old(input).data@, old(input).pos as int, *header, false).0,
        final(input).pos == tags_at(old(input).data@, old(input).pos as int, *header, false).1,
        final(input).data == old(input).data,
{
    let mut scan = new_scan();
    scan_frames(input, header.size as u64 + 4, header.version, false, &mut scan);
    Ok(finish(scan, header.version))
}

/// What reading a tag of version 4 with unsynchronized frames gives.
pub open spec fn tags_unsynch_v4_at(data: Seq<u8>, pos: int, header: Header) -> Result<
    TagsView,
    ErrorView,
> {
    if header.version != 0x04 || !header.is_unsynchronized {
        Err(
            ErrorView::TagError(
                "Tried to parse a synchronized or a non-ID3v2.4 tag with tags_unsynch_v4"@,
            ),
        )
    } else {
        Ok(tags_at(data, pos, header, true).0)
    }
}

/// Reads the frames of an unsynchronized tag of version 4 into tags: each
/// frame says whether it was unsynchronized.
pub fn tags_unsynch_v4(input: &mut Store, header: &Header) -> (r: Result<Tags, Error>)
    ensures
        crate::view_result(r) == tags_unsynch_v4_at(
            old(input).data@,
            old(input).pos as int,
            *header,
        ),
        final(input).data == old(input).data,
        final(input).pos == (if r is Ok {
            tags_at(old(input).data@, old(input).pos as int, *header, true).1
        } else {
            old(input).pos as int
        }),
{
    if header.version != 0x04 || !header.is_unsynchronized {
        return Err(
            tag_error("Tried to parse a synchronized or a non-ID3v2.4 tag with tags_unsynch_v4"),
        );
    }
    let mut scan = new_scan();
    scan_frames(input, header.size as u64 + 4, 0x04, true, &mut scan);
    Ok(finish(scan, 0x04))
}

} // verus!
