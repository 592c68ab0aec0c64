use neguse_taglib::id3v2;
use neguse_taglib::id3v2::read;
use neguse_taglib::id3v2::track::get_track_number;
use neguse_taglib::store::Store;
use neguse_taglib::DateTime;
use neguse_taglib::Error;
use neguse_taglib::Image;
use neguse_taglib::TagOption;
use neguse_taglib::Tags;

fn text(s: &str) -> TagOption<String> {
    TagOption::Present(s.to_string())
}

fn synchsafe(n: u32) -> Vec<u8> {
    vec![
        ((n >> 21) & 0x7F) as u8,
        ((n >> 14) & 0x7F) as u8,
        ((n >> 7) & 0x7F) as u8,
        (n & 0x7F) as u8,
    ]
}

fn frame_v4(id: &str, payload: &[u8]) -> Vec<u8> {
    let mut v = id.as_bytes().to_vec();
    v.extend_from_slice(&synchsafe(payload.len() as u32));
    v.extend_from_slice(&[0, 0]);
    v.extend_from_slice(payload);
    v
}

fn frame_v3(id: &str, payload: &[u8]) -> Vec<u8> {
    let mut v = id.as_bytes().to_vec();
    v.extend_from_slice(&(payload.len() as u32).to_be_bytes());
    v.extend_from_slice(&[0, 0]);
    v.extend_from_slice(payload);
    v
}

fn frame_v2(id: &str, payload: &[u8]) -> Vec<u8> {
    let mut v = id.as_bytes().to_vec();
    v.extend_from_slice(&(payload.len() as u32).to_be_bytes()[1..]);
    v.extend_from_slice(payload);
    v
}

fn tag(version: u8, flags: u8, frames: &[u8], padding: usize) -> Vec<u8> {
    let mut v = b"ID3".to_vec();
    v.push(version);
    v.push(0);
    v.push(flags);
    v.extend_from_slice(&synchsafe((frames.len() + padding) as u32));
    v.extend_from_slice(frames);
    v.extend(std::iter::repeat(0).take(padding));
    v
}

fn latin1(s: &str) -> Vec<u8> {
    let mut v = vec![0u8];
    v.extend_from_slice(s.as_bytes());
    v
}

fn utf8(s: &str) -> Vec<u8> {
    let mut v = vec![3u8];
    v.extend_from_slice(s.as_bytes());
    v
}

fn utf16le(s: &str) -> Vec<u8> {
    let mut v = vec![1u8, 0xFF, 0xFE];
    for u in s.encode_utf16() {
        v.extend_from_slice(&u.to_le_bytes());
    }
    v
}

fn jpeg() -> Vec<u8> {
    vec![
        0xFF, 0xD8, 0xFF, 0xE0, 0x00, 0x04, 0x4A, 0x46, 0xFF, 0xC0, 0x00, 0x0B, 0x08, 0x00, 0x20,
        0x00, 0x10, 0x03, 0x01, 0x11, 0x00, 0xFF, 0xD9,
    ]
}

fn png() -> Vec<u8> {
    let mut v = vec![0x89, 0x50, 0x4E, 0x47, 0x0D, 0x0A, 0x1A, 0x0A];
    v.extend_from_slice(&[0, 0, 0, 13]);
    v.extend_from_slice(b"IHDR");
    v.extend_from_slice(&[0, 0, 0, 5]);
    v.extend_from_slice(&[0, 0, 0, 7]);
    v.extend_from_slice(&[8, 6, 0, 0, 0]);
    v.extend_from_slice(&[1, 2, 3, 4]);
    v
}

fn audio() -> Vec<u8> {
    let mut v = vec![0xFF, 0xFB, 0x90, 0x00];
    v.extend((0..200u32).map(|i| (i * 7 % 251) as u8));
    v
}

#[test]
fn header_is_read() {
    let mut file = tag(4, 0x80, &[], 20);
    file.extend_from_slice(&audio());
    let mut input = Store::new(file);
    input.seek_start(5);
    let h = read::header(&mut input).unwrap();
    assert_eq!(h.version, 4);
    assert_eq!(h.size, 20);
    assert!(h.is_unsynchronized);
    assert!(!h.is_experimental);
    assert!(!h.has_footer);
    assert!(h.extended_header.is_none());
    assert_eq!(input.position(), 10);

    let h = read::header(&mut Store::new(tag(3, 0x30, &[], 0x81))).unwrap();
    assert_eq!(h.version, 3);
    assert_eq!(h.size, 0x81);
    assert!(!h.is_unsynchronized);
    assert!(h.is_experimental);
    assert!(h.has_footer);
}

fn header_error(data: Vec<u8>) -> String {
    match read::header(&mut Store::new(data)) {
        Err(Error::TagError(m)) => m,
        other => panic!("unexpected {:?}", other),
    }
}

#[test]
fn header_errors() {
    assert_eq!(header_error(audio()), "ID3v2 header not found");
    assert_eq!(header_error(vec![]), "ID3v2 header not found");
    assert_eq!(header_error(b"ID3".to_vec()), "ID3v2.0 is not supported");
    assert_eq!(header_error(tag(0xFF, 0, &[], 0)), "Invalid ID3v2 version");
    assert_eq!(header_error(tag(5, 0, &[], 0)), "ID3v2.5 is not supported");
    assert_eq!(header_error(tag(1, 0, &[], 0)), "ID3v2.1 is not supported");
    assert_eq!(header_error(tag(200, 0, &[], 0)), "ID3v2.200 is not supported");
    assert_eq!(
        header_error(tag(4, 0x01, &[], 0)),
        "Unsupported flags found in ID3 header"
    );
    assert_eq!(
        header_error(tag(4, 0x48, &[], 0)),
        "Unsupported flags found in ID3 header"
    );
    assert_eq!(
        header_error(tag(4, 0x40, &[], 0)),
        "Extended ID3 headers are currently not supported"
    );
    let mut bad = tag(4, 0, &[], 0);
    bad[8] = 0x80;
    assert_eq!(header_error(bad), "Invalid synch-safe byte at position 2");
}

#[test]
fn frame_headers_are_read() {
    let mut input = Store::new(frame_v2("TT2", &[0; 0x010203]));
    let f = read::frame_header(&mut input, 2).unwrap();
    assert_eq!(f.name, "TT2");
    assert_eq!(f.size, 0x010203);
    assert_eq!(input.position(), 6);

    let mut raw = b"TIT2".to_vec();
    raw.extend_from_slice(&[0x00, 0x00, 0x01, 0x80, 0x60, 0x0A]);
    let f = read::frame_header(&mut Store::new(raw.clone()), 3).unwrap();
    assert_eq!(f.name, "TIT2");
    assert_eq!(f.size, 0x180);
    assert!(f.drop_after_tag_alteration);
    assert!(f.drop_after_file_alteration);
    assert!(f.is_unsynchronized);
    assert!(f.is_compressed);
    assert!(read::frame_header(&mut Store::new(raw.clone()), 4).is_err());
    assert!(read::frame_header(&mut Store::new(raw.clone()), 5).is_err());
    raw[7] = 0x7F;
    raw[8] = 0;
    raw[9] = 0;
    let f = read::frame_header(&mut Store::new(raw), 4).unwrap();
    assert_eq!(f.size, 0xFF);
    assert!(!f.drop_after_tag_alteration && !f.is_unsynchronized && !f.is_compressed);

    let mut input = Store::new(vec![0; 20]);
    assert!(read::frame_header(&mut input, 4).is_err());
    assert_eq!(input.position(), 10);
    let mut input = Store::new(b"TIT".to_vec());
    assert!(read::frame_header(&mut input, 4).is_err());
    assert_eq!(input.position(), 3);
}

#[test]
fn text_frames_are_read() {
    assert_eq!(read::string(&mut Store::new(latin1("caf\u{e9}")), 6), "caf\u{c3}\u{a9}");
    assert_eq!(read::string(&mut Store::new(vec![0, 0x63, 0xE9, 0, 0]), 5), "c\u{e9}");
    assert_eq!(read::string(&mut Store::new(utf8("a\0b\0")), 5), "a / b");
    assert_eq!(read::string(&mut Store::new(utf16le("\u{6708}x")), 7), "\u{6708}x");
    assert_eq!(read::string(&mut Store::new(vec![]), 0), "");
    assert_eq!(read::string(&mut Store::new(vec![1]), 1), "");
    assert_eq!(read::string(&mut Store::new(utf8("abc")), 2), "a");
    let mut input = Store::new(utf8("abc"));
    assert_eq!(read::string(&mut input, 10), "abc");
    assert_eq!(input.position(), 4);
    assert_eq!(read::string_from_slice(&[2, 0x00, 0x41]), "A");
    assert_eq!(read::string_from_slice(&[7, 0x41]), "A");
}

#[test]
fn comments_are_read() {
    let mut body = vec![3u8];
    body.extend_from_slice(b"eng\0Test Comments\0");
    let mut input = Store::new(body.clone());
    assert_eq!(
        read::comment(&mut input, body.len() as u32),
        Some("Test Comments".to_string())
    );
    assert_eq!(input.position(), body.len() as u64);

    let mut described = vec![3u8];
    described.extend_from_slice(b"engdesc\0text\0");
    let mut input = Store::new(described.clone());
    assert_eq!(read::comment(&mut input, described.len() as u32), None);
    assert_eq!(input.position(), described.len() as u64);

    let mut input = Store::new(vec![3, b'e', b'n', b'g']);
    assert_eq!(read::comment(&mut input, 4), None);
    assert_eq!(input.position(), 4);
    assert_eq!(
        read::comment(&mut Store::new(vec![0, b'e', b'n', b'g', 0]), 5),
        Some("".to_string())
    );
}

fn apic(mime: &str, kind: u8, description: &[u8], image: &[u8]) -> Vec<u8> {
    let mut v = vec![0u8];
    v.extend_from_slice(mime.as_bytes());
    v.push(0);
    v.push(kind);
    v.extend_from_slice(description);
    v.push(0);
    v.extend_from_slice(image);
    v
}

#[test]
fn pictures_are_read() {
    for kind in [0u8, 3] {
        let body = apic("image/jpeg", kind, b"", &jpeg());
        let mut input = Store::new(body.clone());
        assert_eq!(
            read::image(&mut input, body.len() as u32),
            (Image::JPEG(jpeg()), kind)
        );
        assert_eq!(input.position(), body.len() as u64);
        let body = apic("image/png", kind, b"", &png());
        assert_eq!(
            read::image(&mut Store::new(body.clone()), body.len() as u32),
            (Image::PNG(png()), kind)
        );
        let body = apic("image/jpg", kind, b"", &jpeg());
        assert_eq!(
            read::image(&mut Store::new(body.clone()), body.len() as u32),
            (Image::JPEG(jpeg()), kind)
        );
    }
    let body = apic("image/png", 3, b"front", &png());
    assert_eq!(
        read::image(&mut Store::new(body.clone()), body.len() as u32),
        (Image::PNG(png()), 3)
    );
    let body = apic("image/jpeg", 0, b"a longer description", &jpeg());
    assert_eq!(
        read::image(&mut Store::new(body.clone()), body.len() as u32),
        (Image::JPEG(jpeg()), 0)
    );
    let body = apic("png", 3, b"", &png());
    assert_eq!(
        read::image(&mut Store::new(body.clone()), body.len() as u32),
        (Image::PNG(png()), 3)
    );
    let body = apic("jpeg", 3, b"x", &jpeg());
    assert_eq!(
        read::image(&mut Store::new(body.clone()), body.len() as u32),
        (Image::JPEG(jpeg()), 3)
    );
    let body = apic("image/png", 4, b"", &png());
    let mut input = Store::new(body.clone());
    assert_eq!(
        read::image(&mut input, body.len() as u32),
        (Image::PNG(png()), 4)
    );
    assert_eq!(input.position(), body.len() as u64);
    let body = apic("image/jpeg", 0x11, b"a bright fish", &jpeg());
    assert_eq!(
        read::image(&mut Store::new(body.clone()), body.len() as u32),
        (Image::JPEG(jpeg()), 0x11)
    );
    let body = apic("image/gif", 3, b"", &png());
    let mut input = Store::new(body.clone());
    assert_eq!(
        read::image(&mut input, body.len() as u32),
        (Image::Empty, 0xFF)
    );
    assert_eq!(input.position(), body.len() as u64);
    let body = apic("image/png", 3, b"no image follows", &[1, 2, 3, 4, 5, 6]);
    assert_eq!(
        read::image(&mut Store::new(body.clone()), body.len() as u32),
        (Image::Empty, 0)
    );
    let mut input = Store::new(vec![0; 13]);
    assert_eq!(read::image(&mut input, 13), (Image::Empty, 0xFF));
    assert_eq!(input.position(), 13);
}

fn pic(format: &str, kind: u8, description: &[u8], image: &[u8]) -> Vec<u8> {
    let mut v = vec![0u8];
    v.extend_from_slice(format.as_bytes());
    v.push(kind);
    v.extend_from_slice(description);
    v.push(0);
    v.extend_from_slice(image);
    v
}

#[test]
fn pictures_of_version_2_are_read() {
    let body = pic("JPG", 3, b"", &jpeg());
    let mut input = Store::new(body.clone());
    assert_eq!(
        read::image_v2(&mut input, body.len() as u32),
        (Image::JPEG(jpeg()), 3)
    );
    assert_eq!(input.position(), body.len() as u64);
    let body = pic("PNG", 0, b"", &png());
    assert_eq!(
        read::image_v2(&mut Store::new(body.clone()), body.len() as u32),
        (Image::PNG(png()), 0)
    );
    let body = pic("PNG", 3, b"cover", &png());
    assert_eq!(
        read::image_v2(&mut Store::new(body.clone()), body.len() as u32),
        (Image::PNG(png()), 3)
    );
    let body = pic("JPG", 3, b"cover", &jpeg());
    assert_eq!(
        read::image_v2(&mut Store::new(body.clone()), body.len() as u32),
        (Image::JPEG(jpeg()), 3)
    );
    let body = pic("GIF", 3, b"", &png());
    assert_eq!(
        read::image_v2(&mut Store::new(body.clone()), body.len() as u32),
        (Image::Empty, 0xFF)
    );
    let body = pic("JPG", 7, b"", &jpeg());
    assert_eq!(
        read::image_v2(&mut Store::new(body.clone()), body.len() as u32),
        (Image::JPEG(jpeg()), 7)
    );
    let body = pic("PNG", 8, b"artist", &png());
    assert_eq!(
        read::image_v2(&mut Store::new(body.clone()), body.len() as u32),
        (Image::PNG(png()), 8)
    );
    assert_eq!(
        read::image_v2(&mut Store::new(vec![0, b'J', b'P', b'G', 3, 1, 2]), 7),
        (Image::Empty, 0)
    );
    let mut input = Store::new(vec![0; 5]);
    assert_eq!(read::image_v2(&mut input, 5), (Image::Empty, 0xFF));
    assert_eq!(input.position(), 5);
}

#[test]
fn track_numbers_are_split() {
    let pair = |a: &str, b: &str| (a.to_string(), b.to_string());
    assert_eq!(get_track_number("7"), pair("7", ""));
    assert_eq!(get_track_number("7/16"), pair("7", "16"));
    assert_eq!(get_track_number("007/016"), pair("7", "16"));
    assert_eq!(get_track_number("0/5"), pair("", "5"));
    assert_eq!(get_track_number("000"), pair("", ""));
    assert_eq!(get_track_number(""), pair("", ""));
    assert_eq!(get_track_number("/5"), pair("", ""));
    assert_eq!(get_track_number("5/"), pair("", ""));
    assert_eq!(get_track_number("5/6/7"), pair("", ""));
    assert_eq!(get_track_number("a"), pair("", ""));
    assert_eq!(get_track_number("5 "), pair("", ""));
    assert_eq!(get_track_number("-5"), pair("", ""));
}

#[test]
fn tag_of_version_4_is_read() {
    let mut frames = Vec::new();
    frames.extend(frame_v4("TIT2", &utf8("EyeCatch")));
    frames.extend(frame_v4("TPE1", &utf8("\u{4f0a}\u{8cc0}\u{62d3}\u{90ce}")));
    frames.extend(frame_v4("TALB", &latin1("Album")));
    frames.extend(frame_v4("TPE2", &utf16le("Band")));
    frames.extend(frame_v4("TCOM", &utf8("Composer\0")));
    frames.extend(frame_v4("TIT1", &utf8("Grouping")));
    frames.extend(frame_v4("TCON", &utf8("Anime")));
    frames.extend(frame_v4("TDRC", &utf8("2017-04-06")));
    frames.extend(frame_v4("TRCK", &utf8("05/12")));
    frames.extend(frame_v4("TPOS", &utf8("1")));
    frames.extend(frame_v4("TBPM", &utf8("96")));
    frames.extend(frame_v4("TCMP", &utf8("1")));
    frames.extend(frame_v4("ZZZZ", &[1, 2, 3]));
    let mut comment = vec![3u8];
    comment.extend_from_slice(b"eng\0Hello\0");
    frames.extend(frame_v4("COMM", &comment));
    frames.extend(frame_v4("TSOT", &utf8("st")));
    frames.extend(frame_v4("TSOA", &utf8("sa")));
    frames.extend(frame_v4("TSOP", &utf8("sp")));
    frames.extend(frame_v4("TSO2", &utf8("s2")));
    frames.extend(frame_v4("TSOC", &utf8("sc")));
    frames.extend(frame_v4("APIC", &apic("image/png", 3, b"", &png())));
    frames.extend(frame_v4("TYER", &utf8("1999")));
    let mut file = tag(4, 0, &frames, 37);
    file.extend_from_slice(&audio());
    let tags = id3v2::get(&mut Store::new(file)).unwrap();
    let ideal = Tags {
        title: text("EyeCatch"),
        artist: text("\u{4f0a}\u{8cc0}\u{62d3}\u{90ce}"),
        album: text("Album"),
        album_artist: text("Band"),
        composer: text("Composer"),
        grouping: text("Grouping"),
        genre: text("Anime"),
        date: TagOption::Present(DateTime {
            year: Some(1999),
            ..Default::default()
        }),
        track_number: TagOption::Present(5),
        track_total: TagOption::Present(12),
        disc_number: TagOption::Present(1),
        bpm: TagOption::Present(96),
        is_compilation: TagOption::Present(true),
        comment: text("Hello"),
        sort_title: text("st"),
        sort_album: text("sa"),
        sort_artist: text("sp"),
        sort_album_artist: text("s2"),
        sort_composer: text("sc"),
        front_cover: TagOption::Present(Image::PNG(png())),
        ..Default::default()
    };
    assert_eq!(tags, ideal);
}

#[test]
fn tag_of_version_3_is_read() {
    let mut frames = Vec::new();
    frames.extend(frame_v3("TIT2", &utf16le("NEXT FLIP FLAPPING\u{ff01}")));
    frames.extend(frame_v3("TYER", &latin1("2017")));
    frames.extend(frame_v3("TDAT", &latin1("0604")));
    frames.extend(frame_v3("TIME", &latin1("1830")));
    frames.extend(frame_v3("TRCK", &latin1("21")));
    frames.extend(frame_v3("TPOS", &latin1("1/2")));
    frames.extend(frame_v3("TBPM", &latin1("fast")));
    frames.extend(frame_v3("TCMP", &latin1("0")));
    frames.extend(frame_v3("APIC", &apic("image/jpeg", 0, b"", &jpeg())));
    frames.extend(frame_v3("APIC", &apic("image/png", 3, b"", &png())));
    frames.extend(frame_v3("APIC", &apic("image/jpeg", 0, b"", &jpeg())));
    let tags = id3v2::get(&mut Store::new(tag(3, 0, &frames, 0))).unwrap();
    let ideal = Tags {
        title: text("NEXT FLIP FLAPPING\u{ff01}"),
        date: TagOption::Present(DateTime {
            year: Some(2017),
            month: Some(4),
            day: Some(6),
            hour: Some(18),
            minute: Some(30),
            second: None,
        }),
        track_number: TagOption::Present(21),
        disc_number: TagOption::Present(1),
        disc_total: TagOption::Present(2),
        is_compilation: TagOption::Present(false),
        front_cover: TagOption::Present(Image::PNG(png())),
        ..Default::default()
    };
    assert_eq!(tags, ideal);
}

#[test]
fn tag_of_version_2_is_read() {
    let mut frames = Vec::new();
    frames.extend(frame_v2("TT2", &utf16le("example song")));
    frames.extend(frame_v2("TP1", &latin1("example artist")));
    frames.extend(frame_v2("TAL", &latin1("example album")));
    frames.extend(frame_v2("TP2", &latin1("example album artist")));
    frames.extend(frame_v2("TYE", &latin1("2001")));
    frames.extend(frame_v2("TIM", &latin1("1830")));
    frames.extend(frame_v2("PIC", &pic("JPG", 0, b"", &jpeg())));
    frames.extend(frame_v2("COM", &[0, b'e', b'n', b'g', 0, b'h', b'i']));
    let tags = id3v2::get(&mut Store::new(tag(2, 0, &frames, 10))).unwrap();
    let ideal = Tags {
        title: text("example song"),
        artist: text("example artist"),
        album: text("example album"),
        album_artist: text("example album artist"),
        date: TagOption::Present(DateTime {
            year: Some(2001),
            ..Default::default()
        }),
        comment: text("hi"),
        front_cover: TagOption::Present(Image::JPEG(jpeg())),
        ..Default::default()
    };
    assert_eq!(tags, ideal);
}

fn unsynchronized(bytes: &[u8]) -> Vec<u8> {
    let mut v = Vec::new();
    for &b in bytes {
        v.push(b);
        if b == 0xFF {
            v.push(0);
        }
    }
    v
}

#[test]
fn unsynchronized_tag_of_version_3_is_read() {
    let mut frames = Vec::new();
    frames.extend(frame_v3("TIT2", &utf16le("My babe just cares for me")));
    frames.extend(frame_v3("TPE1", &latin1("Nina Simone")));
    frames.extend(frame_v3("TRCK", &latin1("3")));
    let stuffed = unsynchronized(&frames);
    assert!(stuffed.len() > frames.len());
    let tags = id3v2::get(&mut Store::new(tag(3, 0x80, &stuffed, 0))).unwrap();
    let ideal = Tags {
        title: text("My babe just cares for me"),
        artist: text("Nina Simone"),
        track_number: TagOption::Present(3),
        ..Default::default()
    };
    assert_eq!(tags, ideal);
}

fn unsynchronized_frame(id: &str, payload: &[u8]) -> Vec<u8> {
    let stuffed = unsynchronized(payload);
    let mut v = id.as_bytes().to_vec();
    v.extend_from_slice(&synchsafe(stuffed.len() as u32 + 4));
    v.extend_from_slice(&[0, 2]);
    v.extend_from_slice(&synchsafe(payload.len() as u32));
    v.extend_from_slice(&stuffed);
    v
}

#[test]
fn unsynchronized_tag_of_version_4_is_read() {
    let mut frames = Vec::new();
    frames.extend(unsynchronized_frame("TIT2", &utf16le("Test Name")));
    frames.extend(frame_v4("TPE1", &utf8("Test Artist")));
    frames.extend(unsynchronized_frame("TRCK", &utf8("7/16")));
    frames.extend(frame_v4("TIME", &utf8("1830")));
    frames.extend(frame_v4("TYER", &utf8("1999")));
    frames.extend(frame_v4("TDRC", &utf8("2008-12-29")));
    let mut comment = vec![3u8];
    comment.extend_from_slice(b"eng\0Test \xFF Comments\0");
    frames.extend(unsynchronized_frame("COMM", &comment));
    frames.extend(unsynchronized_frame(
        "APIC",
        &apic("image/jpeg", 3, b"", &jpeg()),
    ));
    let mut short = b"TALB".to_vec();
    short.extend_from_slice(&[0, 0, 0, 2, 0, 2, 3, b'x']);
    frames.extend(short);
    frames.extend(frame_v4("TCON", &utf8("Classical")));
    let tags = id3v2::get(&mut Store::new(tag(4, 0x80, &frames, 5))).unwrap();
    let ideal = Tags {
        title: text("Test Name"),
        artist: text("Test Artist"),
        genre: text("Classical"),
        date: TagOption::Present(DateTime {
            year: Some(2008),
            month: Some(12),
            day: Some(29),
            ..Default::default()
        }),
        track_number: TagOption::Present(7),
        track_total: TagOption::Present(16),
        comment: text("Test \u{fffd} Comments"),
        front_cover: TagOption::Present(Image::JPEG(jpeg())),
        ..Default::default()
    };
    assert_eq!(tags, ideal);
}

#[test]
fn malformed_frame_ends_the_scan() {
    let mut frames = Vec::new();
    frames.extend(frame_v4("TIT2", &utf8("kept")));
    frames.extend_from_slice(b"tit2\0\0\0\x05\0\0\x03lost");
    frames.extend(frame_v4("TALB", &utf8("lost")));
    let tags = id3v2::get(&mut Store::new(tag(4, 0, &frames, 0))).unwrap();
    let ideal = Tags {
        title: text("kept"),
        ..Default::default()
    };
    assert_eq!(tags, ideal);
}

#[test]
fn end_to_end_on_an_untagged_file() {
    let new = Tags {
        title: text("Test"),
        track_number: TagOption::Present(7),
        track_total: TagOption::Present(16),
        ..Default::default()
    };
    let mut output = Vec::new();
    id3v2::set(&mut Store::new(audio()), &mut output, &new).unwrap();
    assert_eq!(&output[0..6], b"ID3\x04\x00\x00");
    let at = output
        .windows(4)
        .position(|w| w == b"TRCK")
        .expect("a TRCK frame");
    assert_eq!(&output[at + 4..at + 10], &[0, 0, 0, 6, 0, 0]);
    assert_eq!(output[at + 10], 3);
    assert_eq!(&output[at + 11..at + 15], b"7/16");
    assert_eq!(output[at + 15], 0);
    let size = ((output[6] as usize) << 21)
        | ((output[7] as usize) << 14)
        | ((output[8] as usize) << 7)
        | output[9] as usize;
    assert_eq!((size + 10) % 128, 0);
    assert_eq!(&output[size + 10..], &audio()[..]);
    let tags = id3v2::get(&mut Store::new(output)).unwrap();
    assert_eq!(tags, new);
}

fn full_tags() -> Tags {
    Tags {
        title: text("Test Name"),
        artist: text("Test Artist"),
        album: text("Test Album"),
        album_artist: text("Test Album Artist"),
        composer: text("Test Composer"),
        grouping: text("Test Grouping"),
        bpm: TagOption::Present(96),
        is_compilation: TagOption::Present(true),
        date: TagOption::Present(DateTime {
            year: Some(2008),
            month: Some(12),
            day: Some(29),
            ..Default::default()
        }),
        track_number: TagOption::Present(7),
        track_total: TagOption::Present(16),
        disc_number: TagOption::Present(3),
        disc_total: TagOption::Present(4),
        genre: text("Classical"),
        comment: text("Test Comments \u{6708}"),
        sort_title: text("Test Title Sort Order"),
        sort_album: text("Test Album Sort Order"),
        sort_artist: text("Test Artist Sort Order"),
        sort_album_artist: text("Test Alb.Art. Sort Order"),
        sort_composer: text("Test Composer Sort Order"),
        front_cover: TagOption::Present(Image::JPEG(jpeg())),
        ..Default::default()
    }
}

#[test]
fn written_tag_is_read_back() {
    let mut first = Vec::new();
    id3v2::set(&mut Store::new(audio()), &mut first, &full_tags()).unwrap();
    assert_eq!(id3v2::get(&mut Store::new(first.clone())).unwrap(), full_tags());

    let mut second = Vec::new();
    id3v2::set(&mut Store::new(first.clone()), &mut second, &Tags::mixed()).unwrap();
    assert_eq!(second, first);

    let update = Tags {
        title: text("Other"),
        artist: TagOption::Absent,
        track_total: TagOption::Absent,
        front_cover: TagOption::Present(Image::PNG(png())),
        ..Tags::mixed()
    };
    let mut third = Vec::new();
    id3v2::set(&mut Store::new(first), &mut third, &update).unwrap();
    let ideal = Tags {
        title: text("Other"),
        artist: TagOption::Absent,
        track_total: TagOption::Absent,
        front_cover: TagOption::Present(Image::PNG(png())),
        ..full_tags()
    };
    assert_eq!(id3v2::get(&mut Store::new(third.clone())).unwrap(), ideal);
    assert_eq!(&third[third.len() - audio().len()..], &audio()[..]);
}

#[test]
fn total_without_number_is_not_written() {
    let new = Tags {
        track_total: TagOption::Present(16),
        disc_number: TagOption::Present(2),
        ..Default::default()
    };
    let tag = id3v2::write_tag(&new).unwrap();
    assert_eq!(tag.windows(4).position(|w| w == b"TRCK"), None);
    let at = tag.windows(4).position(|w| w == b"TPOS").unwrap();
    assert_eq!(&tag[at + 10..at + 13], &[3, b'2', 0]);
    let kept = Tags {
        disc_number: TagOption::Present(2),
        ..Default::default()
    };
    assert_eq!(id3v2::get(&mut Store::new(tag)).unwrap(), kept);

    let mut output = Vec::new();
    let only_totals = Tags {
        track_total: TagOption::Present(16),
        disc_total: TagOption::Present(3),
        ..Default::default()
    };
    id3v2::set(&mut Store::new(vec![0x55; 200]), &mut output, &only_totals).unwrap();
    assert_eq!(output.windows(4).position(|w| w == b"TRCK"), None);
    assert_eq!(output.windows(4).position(|w| w == b"TPOS"), None);
    assert_eq!(&output[128..], &[0x55; 200][..]);
    assert_eq!(
        id3v2::get(&mut Store::new(output)).unwrap(),
        Tags::none()
    );
}

#[test]
fn number_and_total_are_written_together() {
    let new = Tags {
        track_number: TagOption::Present(7),
        track_total: TagOption::Present(16),
        disc_number: TagOption::Present(1),
        ..Default::default()
    };
    let tag = id3v2::write_tag(&new).unwrap();
    let at = tag.windows(4).position(|w| w == b"TRCK").unwrap();
    assert_eq!(&tag[at + 10..at + 16], &[3, b'7', b'/', b'1', b'6', 0]);
    let at = tag.windows(4).position(|w| w == b"TPOS").unwrap();
    assert_eq!(&tag[at + 10..at + 13], &[3, b'1', 0]);
    assert_eq!(id3v2::get(&mut Store::new(tag)).unwrap(), new);
}

#[test]
fn tag_is_padded_to_128_bytes() {
    let tag = id3v2::write_tag(&Tags::none()).unwrap();
    assert_eq!(tag.len(), 128);
    assert_eq!(&tag[0..10], &[b'I', b'D', b'3', 4, 0, 0, 0, 0, 0, 118]);
    assert!(tag[10..].iter().all(|&b| b == 0));
    let new = Tags {
        title: text(&"x".repeat(105)),
        ..Default::default()
    };
    assert_eq!(id3v2::write_tag(&new).unwrap().len(), 128);
    let new = Tags {
        title: text(&"x".repeat(106)),
        ..Default::default()
    };
    assert_eq!(id3v2::write_tag(&new).unwrap().len(), 256);
}

#[test]
fn tags_of_the_trailer_are_kept_on_writing() {
    let mut file = audio();
    let mut trailer = vec![0u8; 128];
    trailer[0..3].copy_from_slice(b"TAG");
    trailer[3..8].copy_from_slice(b"Title");
    trailer[127] = 32;
    file.extend_from_slice(&trailer);
    let update = Tags {
        artist: text("Artist"),
        ..Tags::mixed()
    };
    let mut output = Vec::new();
    id3v2::set(&mut Store::new(file.clone()), &mut output, &update).unwrap();
    let tags = id3v2::get(&mut Store::new(output.clone())).unwrap();
    assert_eq!(tags.title, text("Title"));
    assert_eq!(tags.artist, text("Artist"));
    assert_eq!(tags.genre, text("Classical"));
    assert_eq!(&output[output.len() - file.len()..], &file[..]);
}

#[test]
fn any_picture_is_the_cover_until_a_front_cover_is_found() {
    let frames = frame_v4("APIC", &apic("image/png", 4, b"", &png()));
    let file = tag(4, 0, &frames, 20);
    let tags = id3v2::get(&mut Store::new(file)).unwrap();
    assert_eq!(tags.front_cover, TagOption::Present(Image::PNG(png())));

    let mut frames = frame_v4("APIC", &apic("image/png", 4, b"", &png()));
    frames.extend(frame_v4("APIC", &apic("image/jpeg", 8, b"", &jpeg())));
    let file = tag(4, 0, &frames, 20);
    let tags = id3v2::get(&mut Store::new(file)).unwrap();
    assert_eq!(tags.front_cover, TagOption::Present(Image::JPEG(jpeg())));

    let mut frames = frame_v4("APIC", &apic("image/png", 4, b"", &png()));
    frames.extend(frame_v4("APIC", &apic("image/jpeg", 3, b"", &jpeg())));
    frames.extend(frame_v4("APIC", &apic("image/png", 6, b"", &png())));
    let file = tag(4, 0, &frames, 20);
    let tags = id3v2::get(&mut Store::new(file)).unwrap();
    assert_eq!(tags.front_cover, TagOption::Present(Image::JPEG(jpeg())));
}
