use neguse_taglib::flac;
use neguse_taglib::store::Store;
use neguse_taglib::vorbis;
use neguse_taglib::DateTime;
use neguse_taglib::Error;
use neguse_taglib::Image;
use neguse_taglib::TagOption;
use neguse_taglib::Tags;

fn text(s: &str) -> TagOption<String> {
    TagOption::Present(s.to_string())
}

fn jpeg() -> Vec<u8> {
    vec![
        0xFF, 0xD8, 0xFF, 0xE0, 0x00, 0x04, 0x4A, 0x46, 0xFF, 0xC0, 0x00, 0x0B, 0x08, 0x00, 0x20,
        0x00, 0x10, 0x03, 0x01, 0x11, 0x00, 0xFF, 0xD9,
    ]
}

fn png() -> Vec<u8> {
    let mut v = vec![0x89, 0x50, 0x4E, 0x47, 0x0D, 0x0A, 0x1A, 0x0A];
    v.extend_from_slice(&[0, 0, 0, 13]);
    v.extend_from_slice(b"IHDR");
    v.extend_from_slice(&[0, 0, 0, 5]);
    v.extend_from_slice(&[0, 0, 0, 7]);
    v.extend_from_slice(&[8, 6, 0, 0, 0]);
    v.extend_from_slice(&[1, 2, 3, 4]);
    v
}

fn block(kind: u8, last: bool, content: &[u8]) -> Vec<u8> {
    let mut v = vec![kind | if last { 0x80 } else { 0 }];
    v.extend_from_slice(&(content.len() as u32).to_be_bytes()[1..]);
    v.extend_from_slice(content);
    v
}

fn comments(vendor: &str, entries: &[&str]) -> Vec<u8> {
    let mut v = (vendor.len() as u32).to_le_bytes().to_vec();
    v.extend_from_slice(vendor.as_bytes());
    v.extend_from_slice(&(entries.len() as u32).to_le_bytes());
    for e in entries {
        v.extend_from_slice(&(e.len() as u32).to_le_bytes());
        v.extend_from_slice(e.as_bytes());
    }
    v
}

fn picture(kind: u32, mime: &str, description: &str, image: &[u8]) -> Vec<u8> {
    let mut v = kind.to_be_bytes().to_vec();
    v.extend_from_slice(&(mime.len() as u32).to_be_bytes());
    v.extend_from_slice(mime.as_bytes());
    v.extend_from_slice(&(description.len() as u32).to_be_bytes());
    v.extend_from_slice(description.as_bytes());
    v.extend_from_slice(&[0, 0, 0, 32, 0, 0, 0, 16, 0, 0, 0, 24, 0, 0, 0, 0]);
    v.extend_from_slice(&(image.len() as u32).to_be_bytes());
    v.extend_from_slice(image);
    v
}

fn stream(blocks: &[Vec<u8>]) -> Vec<u8> {
    let mut v = b"fLaC".to_vec();
    for b in blocks {
        v.extend_from_slice(b);
    }
    v.extend_from_slice(&frames());
    v
}

fn frames() -> Vec<u8> {
    let mut v = vec![0xFF, 0xF8, 0xC9, 0x18];
    v.extend((0..100u32).map(|i| (i * 13 % 250) as u8));
    v
}

fn streaminfo() -> Vec<u8> {
    (0..34).collect()
}

#[test]
fn picture_block_encode() {
    let image = Image::JPEG(jpeg());
    let encoded = flac::get_picture_block(&image).unwrap();
    let (image2, _) =
        flac::read_image(&mut Store::new(encoded.clone()), encoded.len() as u32).unwrap();
    assert_eq!(image, image2);

    let image = Image::PNG(png());
    let encoded = flac::get_picture_block(&image).unwrap();
    let (image2, _) =
        flac::read_image(&mut Store::new(encoded.clone()), encoded.len() as u32).unwrap();
    assert_eq!(image, image2);
}

#[test]
fn picture_block_layout() {
    let encoded = flac::get_picture_block(&Image::JPEG(jpeg())).unwrap();
    let mut ideal = vec![0, 0, 0, 3, 0, 0, 0, 10];
    ideal.extend_from_slice(b"image/jpeg");
    ideal.extend_from_slice(&[0, 0, 0, 0]);
    ideal.extend_from_slice(&[0, 0, 0, 16, 0, 0, 0, 32, 0, 0, 0, 8, 0, 0, 0, 0]);
    ideal.extend_from_slice(&[0, 0, 0, 23]);
    ideal.extend_from_slice(&jpeg());
    assert_eq!(encoded, ideal);
    let encoded = flac::get_picture_block(&Image::PNG(png())).unwrap();
    assert_eq!(&encoded[0..8], &[0, 0, 0, 3, 0, 0, 0, 9]);
    assert_eq!(&encoded[8..17], b"image/png");
    assert_eq!(&encoded[21..33], &[0, 0, 0, 5, 0, 0, 0, 7, 0, 0, 0, 8]);
    assert_eq!(
        flac::get_picture_block(&Image::Empty),
        Err("Not an image".to_string())
    );
    assert_eq!(
        flac::get_picture_block(&Image::PNG(vec![1, 2, 3])),
        Err("Could not determine image dimensions to generate the FLAC picture block (is the image a valid JPG/PNG file?)".to_string())
    );
}

#[test]
fn picture_blocks_are_read() {
    let raw = picture(3, "IMAGE/PNG", "a cover", &png());
    let mut input = Store::new(raw.clone());
    assert_eq!(
        flac::read_image(&mut input, raw.len() as u32).unwrap(),
        (Image::PNG(png()), 3)
    );
    assert_eq!(input.position(), raw.len() as u64);
    let raw = picture(0, "jpg", "", &jpeg());
    assert_eq!(
        flac::read_image(&mut Store::new(raw.clone()), raw.len() as u32).unwrap(),
        (Image::JPEG(jpeg()), 0)
    );
    let raw = picture(4, "image/png", "", &png());
    let mut input = Store::new(raw.clone());
    assert_eq!(
        flac::read_image(&mut input, raw.len() as u32).unwrap(),
        (Image::PNG(png()), 4)
    );
    assert_eq!(input.position(), raw.len() as u64);
    let raw = picture(9, "image/gif", "", &png());
    let mut input = Store::new(raw.clone());
    assert_eq!(
        flac::read_image(&mut input, raw.len() as u32).unwrap(),
        (Image::Empty, 0xFF)
    );
    assert_eq!(input.position(), raw.len() as u64);
    let raw = picture(3, "image/gif", "", &png());
    let mut input = Store::new(raw.clone());
    assert_eq!(
        flac::read_image(&mut input, raw.len() as u32).unwrap(),
        (Image::Empty, 0xFF)
    );
    assert_eq!(input.position(), raw.len() as u64);
    let mut short = picture(3, "image/png", "", &[1, 2, 3, 4]);
    short.truncate(short.len() - 2);
    assert_eq!(
        flac::read_image(&mut Store::new(short), 100).unwrap(),
        (Image::PNG(vec![1, 2, 9, 9]), 3)
    );
    match flac::read_image(&mut Store::new(vec![0, 0, 0, 9]), 0) {
        Err(Error::IOError(_)) => {}
        other => panic!("unexpected {:?}", other),
    }
    match flac::read_image(&mut Store::new(vec![0, 0, 0, 9]), 30) {
        Ok((Image::Empty, 0xFF)) => {}
        other => panic!("unexpected {:?}", other),
    }
    let mut input = Store::new(vec![0, 0, 0]);
    match flac::read_image(&mut input, 0) {
        Err(Error::IOError(_)) => {}
        other => panic!("unexpected {:?}", other),
    }
    assert_eq!(
        flac::read_string(&mut Store::new(b"caf\xC3\xA9\0\0".to_vec()), 7).unwrap(),
        "caf\u{e9}"
    );
}

fn drippy() -> Tags {
    Tags {
        title: text("drippy"),
        artist: text("corsica"),
        album: text("test drips"),
        track_number: TagOption::Present(1),
        track_total: TagOption::Present(4),
        genre: text("recording"),
        front_cover: TagOption::Present(Image::JPEG(jpeg())),
        ..Default::default()
    }
}

fn drippy_comments() -> Vec<u8> {
    comments(
        "reference libFLAC 1.3.1",
        &[
            "title=drippy",
            "ARTIST=corsica",
            "Album=test drips",
            "TRACKNUMBER=1",
            "TRACKTOTAL=4",
            "GENRE=recording",
            "UNKNOWN=ignored",
            "no equals sign",
            "=no key",
        ],
    )
}

#[test]
fn blocks_in_either_order_give_the_same_tags() {
    let cover = picture(3, "image/jpeg", "", &jpeg());
    let first = stream(&[
        block(0, false, &streaminfo()),
        block(4, false, &drippy_comments()),
        block(6, true, &cover),
    ]);
    let second = stream(&[
        block(0, false, &streaminfo()),
        block(6, false, &cover),
        block(4, true, &drippy_comments()),
    ]);
    let a = flac::get(&mut Store::new(first)).unwrap();
    let b = flac::get(&mut Store::new(second)).unwrap();
    assert_eq!(a, drippy());
    assert_eq!(b, drippy());
}

#[test]
fn front_cover_wins() {
    let file = stream(&[
        block(6, false, &picture(0, "image/png", "", &png())),
        block(6, false, &picture(3, "image/jpeg", "", &jpeg())),
        block(6, false, &picture(0, "image/png", "", &png())),
        block(6, true, &picture(9, "image/png", "", &png())),
    ]);
    let tags = flac::get(&mut Store::new(file)).unwrap();
    assert_eq!(tags.front_cover, TagOption::Present(Image::JPEG(jpeg())));
    let file = stream(&[
        block(6, false, &picture(0, "image/png", "", &png())),
        block(6, true, &picture(0, "image/jpeg", "", &jpeg())),
    ]);
    let tags = flac::get(&mut Store::new(file)).unwrap();
    assert_eq!(tags.front_cover, TagOption::Present(Image::JPEG(jpeg())));
    let file = stream(&[block(6, true, &picture(9, "image/png", "", &png()))]);
    let tags = flac::get(&mut Store::new(file)).unwrap();
    assert_eq!(tags.front_cover, TagOption::Present(Image::PNG(png())));
    let file = stream(&[
        block(6, false, &picture(3, "image/png", "", &png())),
        block(6, true, &picture(9, "image/jpeg", "", &jpeg())),
    ]);
    let tags = flac::get(&mut Store::new(file)).unwrap();
    assert_eq!(tags.front_cover, TagOption::Present(Image::PNG(png())));
}

#[test]
fn invalid_blocks() {
    let file = stream(&[block(0, false, &streaminfo()), block(127, true, &[])]);
    match flac::get(&mut Store::new(file.clone())) {
        Err(Error::TagError(m)) => assert_eq!(
            m,
            "Invalid block type (127) detected when parsing FLAC metadata"
        ),
        other => panic!("unexpected {:?}", other),
    }
    let mut output = vec![1, 2, 3];
    match flac::set(&mut Store::new(file), &mut output, &Tags::mixed()) {
        Err(Error::TagError(m)) => assert_eq!(
            m,
            "Invalid block type (127) detected when parsing FLAC metadata"
        ),
        other => panic!("unexpected {:?}", other),
    }
    assert_eq!(output, vec![1, 2, 3]);
    match flac::get(&mut Store::new(b"OggS and more".to_vec())) {
        Err(Error::TagError(m)) => assert_eq!(
            m,
            "FLAC stream marker not found (is this a valid FLAC file?)"
        ),
        other => panic!("unexpected {:?}", other),
    }
    match flac::set(&mut Store::new(vec![]), &mut output, &Tags::mixed()) {
        Err(Error::TagError(m)) => assert_eq!(
            m,
            "FLAC stream marker not found (is this a valid FLAC file?)"
        ),
        other => panic!("unexpected {:?}", other),
    }
    assert_eq!(
        flac::get(&mut Store::new(b"fLaC".to_vec())).unwrap(),
        Tags::none()
    );
    assert_eq!(
        flac::get(&mut Store::new(b"fLaC\x06\0\0\x04".to_vec())).unwrap(),
        Tags {
            front_cover: TagOption::Present(Image::Empty),
            ..Default::default()
        }
    );
}

#[test]
fn stream_is_rewritten() {
    let file = stream(&[
        block(0, false, &streaminfo()),
        block(4, false, &drippy_comments()),
        block(1, false, &[0; 50]),
        block(3, false, &[9; 18]),
        block(6, true, &picture(3, "image/jpeg", "", &jpeg())),
    ]);
    let update = Tags {
        title: text("dry"),
        artist: TagOption::Absent,
        date: TagOption::Present(DateTime {
            year: Some(2020),
            month: Some(2),
            ..Default::default()
        }),
        is_compilation: TagOption::Present(true),
        bpm: TagOption::Present(-3),
        ..Tags::mixed()
    };
    let mut output = vec![0xAA];
    flac::set(&mut Store::new(file), &mut output, &update).unwrap();
    assert_eq!(output[0], 0xAA);
    let output = output[1..].to_vec();

    let mut ideal = b"fLaC".to_vec();
    ideal.extend(block(0, false, &streaminfo()));
    ideal.extend(block(3, false, &[9; 18]));
    ideal.extend(block(
        4,
        false,
        &comments(
            "neguse-taglib 0.1.0",
            &[
                "TITLE=dry",
                "ALBUM=test drips",
                "GENRE=recording",
                "DATE=2020-02",
                "TRACKNUMBER=1",
                "TRACKTOTAL=4",
                "BPM=-3",
                "COMPILATION=1",
            ],
        ),
    ));
    let mut cover = vec![0, 0, 0, 3, 0, 0, 0, 10];
    cover.extend_from_slice(b"image/jpeg");
    cover.extend_from_slice(&[0, 0, 0, 0]);
    cover.extend_from_slice(&[0, 0, 0, 16, 0, 0, 0, 32, 0, 0, 0, 8, 0, 0, 0, 0]);
    cover.extend_from_slice(&[0, 0, 0, 23]);
    cover.extend_from_slice(&jpeg());
    ideal.extend(block(6, false, &cover));
    ideal.extend(block(1, true, &[0, 0]));
    ideal.extend(frames());
    assert_eq!(output, ideal);

    let tags = flac::get(&mut Store::new(output)).unwrap();
    let merged = Tags {
        title: text("dry"),
        artist: TagOption::Absent,
        date: TagOption::Present(DateTime {
            year: Some(2020),
            month: Some(2),
            ..Default::default()
        }),
        is_compilation: TagOption::Present(true),
        bpm: TagOption::Present(-3),
        ..drippy()
    };
    assert_eq!(tags, merged);
}

#[test]
fn last_block_that_is_kept_loses_its_mark() {
    let file = stream(&[block(0, true, &streaminfo())]);
    let mut output = Vec::new();
    flac::set(&mut Store::new(file), &mut output, &Tags::none()).unwrap();
    let mut ideal = b"fLaC".to_vec();
    ideal.extend(block(0, false, &streaminfo()));
    ideal.extend(block(4, false, &comments("neguse-taglib 0.1.0", &[])));
    ideal.extend(block(1, true, &[0, 0]));
    ideal.extend(frames());
    assert_eq!(output, ideal);
}

#[test]
fn cover_that_is_no_image_is_not_written() {
    let file = stream(&[block(0, true, &streaminfo())]);
    let mut output = Vec::new();
    let new = Tags {
        front_cover: TagOption::Present(Image::Empty),
        ..Default::default()
    };
    match flac::set(&mut Store::new(file.clone()), &mut output, &new) {
        Err(Error::TagError(m)) => assert_eq!(m, "Not an image"),
        other => panic!("unexpected {:?}", other),
    }
    let new = Tags {
        front_cover: TagOption::Present(Image::JPEG(vec![1, 2, 3])),
        ..Default::default()
    };
    assert!(flac::set(&mut Store::new(file), &mut output, &new).is_err());
    assert!(output.is_empty());
}

#[test]
fn comments_of_a_stream_are_read() {
    let file = stream(&[block(
        4,
        true,
        &comments(
            "vendor",
            &[
                "DATE=not a date",
                "TRACKNUMBER=x",
                "DISCNUMBER=2",
                "DISCTOTAL=3",
                "BPM=120",
                "COMPILATION=TRUE",
                "COMMENT=a=b",
                "TITLESORT=ts",
                "ALBUMSORT=as",
                "ARTISTSORT=rs",
                "ALBUMARTISTSORT=aas",
                "COMPOSERSORT=cs",
                "ALBUMARTIST=aa",
                "COMPOSER=c",
                "GROUPING=g",
                "TITLE=two\nlines",
            ],
        ),
    )]);
    let tags = flac::get(&mut Store::new(file)).unwrap();
    let ideal = Tags {
        disc_number: TagOption::Present(2),
        disc_total: TagOption::Present(3),
        bpm: TagOption::Present(120),
        is_compilation: TagOption::Present(true),
        comment: text("a=b"),
        sort_title: text("ts"),
        sort_album: text("as"),
        sort_artist: text("rs"),
        sort_album_artist: text("aas"),
        sort_composer: text("cs"),
        album_artist: text("aa"),
        composer: text("c"),
        grouping: text("g"),
        ..Default::default()
    };
    assert_eq!(tags, ideal);
}

#[test]
fn vorbis_comment_encode_test() {
    let tags = Tags {
        title: text("Test Name"),
        artist: text("Test Artist"),
        album: text("Test Album"),
        album_artist: text("Test Album Artist"),
        composer: text("Test Composer"),
        grouping: text("Test Grouping"),
        bpm: TagOption::Present(96),
        is_compilation: TagOption::Present(true),
        date: TagOption::Present(DateTime {
            year: Some(2008),
            month: Some(12),
            day: Some(29),
            ..Default::default()
        }),
        track_number: TagOption::Present(7),
        track_total: TagOption::Present(16),
        disc_number: TagOption::Present(3),
        disc_total: TagOption::Present(4),
        genre: text("Classical"),
        comment: text("Test Comments"),
        sort_title: text("Test Title Sort Order"),
        sort_album: text("Test Album Sort Order"),
        sort_artist: text("Test Artist Sort Order"),
        sort_album_artist: text("Test Alb.Art. Sort Order"),
        front_cover: TagOption::Present(Image::JPEG(jpeg())),
        ..Default::default()
    };

    let vc = vorbis::from_tags(&tags, true);
    let recovered = vorbis::get_tags(&mut Store::new(vc)).unwrap();

    assert_eq!(tags, recovered);
}

#[test]
fn comments_are_written() {
    let tags = Tags {
        title: text("T"),
        album: text(""),
        track_number: TagOption::Present(0),
        is_compilation: TagOption::Present(false),
        date: TagOption::Present(DateTime::default()),
        front_cover: TagOption::Present(Image::PNG(png())),
        ..Tags::mixed()
    };
    assert_eq!(
        vorbis::from_tags(&tags, false),
        comments("neguse-taglib 0.1.0", &["TITLE=T", "TRACKNUMBER=0"])
    );
    let with_image = vorbis::from_tags(&tags, true);
    let start = comments("neguse-taglib 0.1.0", &["TITLE=T", "TRACKNUMBER=0"]);
    assert_eq!(with_image[..23], start[..23]);
    assert_eq!(with_image[23..27], [3, 0, 0, 0]);
    assert_eq!(with_image[27..start.len()], start[27..]);
    let entry = &with_image[start.len() + 4..];
    assert!(entry.starts_with(b"METADATA_BLOCK_PICTURE=AAAAAwAAAAlpbWFnZS9wbmc"));
    let unreadable = Tags {
        front_cover: TagOption::Present(Image::PNG(vec![1, 2, 3])),
        ..Default::default()
    };
    assert_eq!(
        vorbis::from_tags(&unreadable, true),
        comments("neguse-taglib 0.1.0", &[])
    );
}

#[test]
fn entries_are_split() {
    let pair = |a: &str, b: &str| Some((a.to_string(), b.to_string()));
    assert_eq!(vorbis::collect_tag(b"title=drippy"), pair("TITLE", "drippy"));
    assert_eq!(vorbis::collect_tag(b"a b=c=d"), pair("A B", "c=d"));
    assert_eq!(vorbis::collect_tag(b"KEY="), pair("KEY", ""));
    assert_eq!(vorbis::collect_tag(b"k{y}=v"), pair("K{Y}", "v"));
    assert_eq!(vorbis::collect_tag(b"key=\xFFx"), pair("KEY", "\u{fffd}x"));
    assert_eq!(vorbis::collect_tag(b"=v"), None);
    assert_eq!(vorbis::collect_tag(b"key"), None);
    assert_eq!(vorbis::collect_tag(b""), None);
    assert_eq!(vorbis::collect_tag(b"k~y=v"), None);
    assert_eq!(vorbis::collect_tag(b"k\x1Fy=v"), None);
    assert_eq!(vorbis::collect_tag(b"k\xC3\xA9=v"), None);
    assert_eq!(vorbis::collect_tag(b"key=a\nb"), None);
}

#[test]
fn picture_in_the_comments() {
    let file = comments(
        "v",
        &[
            "METADATA_BLOCK_PICTURE=not base64!",
            "metadata_block_picture=AAAAAwAAAAlpbWFnZS9wbmcAAAAAAAAABQAAAAcAAAAIAAAAAAAAAAIBAg==",
        ],
    );
    let tags = vorbis::get_tags(&mut Store::new(file)).unwrap();
    assert_eq!(
        tags,
        Tags {
            front_cover: TagOption::Present(Image::PNG(vec![1, 2])),
            ..Default::default()
        }
    );
}

#[test]
fn any_comments_and_picture_in_either_order() {
    let c = comments(
        "some other encoder",
        &["title=Lower Case", "UNKNOWN=x", "TRACKNUMBER=3", "no separator"],
    );
    let p = picture(3, "image/png", "the front", &png());
    let mut a = b"fLaC".to_vec();
    a.extend(block(4, false, &c));
    a.extend(block(6, true, &p));
    let mut b = b"fLaC".to_vec();
    b.extend(block(6, false, &p));
    b.extend(block(4, true, &c));
    let from_a = flac::get(&mut Store::new(a)).unwrap();
    let from_b = flac::get(&mut Store::new(b)).unwrap();
    assert_eq!(from_a, from_b);
    assert_eq!(from_a.front_cover, TagOption::Present(Image::PNG(png())));
    assert_eq!(from_a.title, TagOption::Present("Lower Case".to_string()));
    assert_eq!(from_a.track_number, TagOption::Present(3));
    assert_eq!(from_a.album, TagOption::Absent);
}
