use neguse_taglib::dispatch;
use neguse_taglib::store::Store;
use neguse_taglib::tools::tags::delta;
use neguse_taglib::DateTime;
use neguse_taglib::Error;
use neguse_taglib::Image;
use neguse_taglib::TagOption;
use neguse_taglib::Tags;

fn text(s: &str) -> TagOption<String> {
    TagOption::Present(s.to_string())
}

#[test]
fn fields() {
    let some: TagOption<i64> = TagOption::Present(3);
    let mixed: TagOption<i64> = TagOption::Mixed;
    let none: TagOption<i64> = TagOption::Absent;
    assert!(some.is_some() && !some.is_none());
    assert!(!mixed.is_some() && !mixed.is_none());
    assert!(!none.is_some() && none.is_none());
    assert_eq!(some.as_ref(), TagOption::Present(&3));
    assert_eq!(mixed.as_ref(), TagOption::Mixed);
    assert_eq!(none.as_ref(), TagOption::Absent);
    assert_eq!(TagOption::Present(3).to_option(), Some(3));
    assert_eq!(TagOption::<i64>::Mixed.to_option(), None);
    assert_eq!(TagOption::<i64>::Absent.to_option(), None);
    assert_eq!(TagOption::Present(3).unwrap_or(4), 3);
    assert_eq!(TagOption::Mixed.unwrap_or(4), 4);
    assert_eq!(TagOption::Absent.unwrap_or(4), 4);
    assert_eq!(TagOption::Present(3).unwrap(), 3);
    assert_eq!(TagOption::from(Some(3)), TagOption::Present(3));
    assert_eq!(TagOption::<i64>::from(None), TagOption::Absent);
    assert_eq!(TagOption::<i64>::default(), TagOption::Absent);
    assert_eq!(Tags::default(), Tags::none());
    assert_eq!(Tags::none().title, TagOption::Absent);
    assert_eq!(Tags::none().rating, TagOption::Absent);
    assert_eq!(Tags::mixed().title, TagOption::Mixed);
    assert_eq!(Tags::mixed().front_cover, TagOption::Mixed);
    assert_eq!(Tags::mixed().rating, TagOption::Mixed);
}

#[test]
fn merge() {
    let old = Tags {
        title: text("old title"),
        album: text("old album"),
        artist: text("old artist"),
        composer: TagOption::Mixed,
        track_number: TagOption::Present(1),
        bpm: TagOption::Present(90),
        date: TagOption::Present(DateTime {
            year: Some(1999),
            ..Default::default()
        }),
        front_cover: TagOption::Present(Image::PNG(vec![1])),
        rating: TagOption::Present(5),
        ..Default::default()
    };
    let new = Tags {
        title: text("new title"),
        album: TagOption::Absent,
        genre: text("new genre"),
        track_number: TagOption::Absent,
        is_compilation: TagOption::Present(false),
        rating: TagOption::Present(3),
        ..Tags::mixed()
    };
    let merged = Tags {
        title: text("new title"),
        artist: text("old artist"),
        genre: text("new genre"),
        bpm: TagOption::Present(90),
        date: TagOption::Present(DateTime {
            year: Some(1999),
            ..Default::default()
        }),
        is_compilation: TagOption::Present(false),
        front_cover: TagOption::Present(Image::PNG(vec![1])),
        ..Default::default()
    };
    assert_eq!(delta(&old, &new), merged);
    assert_eq!(delta(&Tags::none(), &Tags::mixed()), Tags::none());
    assert_eq!(delta(&Tags::mixed(), &Tags::mixed()), Tags::none());
    assert_eq!(delta(&merged, &Tags::mixed()), merged);
    assert_eq!(delta(&old, &merged), merged);
    assert_eq!(delta(&merged, &Tags::none()), Tags::none());
}

#[test]
fn images() {
    let jpeg = Image::JPEG(vec![
        0xFF, 0xD8, 0xFF, 0xE0, 0x00, 0x04, 0x4A, 0x46, 0xFF, 0xC2, 0x00, 0x0B, 0x08, 0x01, 0x20,
        0x02, 0x10, 0x03, 0x01, 0x11, 0x00, 0xFF, 0xD9,
    ]);
    assert_eq!(jpeg.dimensions(), Some((0x210, 0x120, 8)));
    assert_eq!(jpeg.mime(), "image/jpeg");
    assert!(jpeg.is_some() && !jpeg.is_none());
    let mut png = vec![0x89, 0x50, 0x4E, 0x47, 0x0D, 0x0A, 0x1A, 0x0A];
    png.extend_from_slice(&[0, 0, 0, 13]);
    png.extend_from_slice(b"IHDR");
    png.extend_from_slice(&[0, 0, 1, 0, 0, 0, 2, 0, 16]);
    assert_eq!(Image::PNG(png.clone()).dimensions(), Some((256, 512, 16)));
    assert_eq!(Image::PNG(png[..24].to_vec()).dimensions(), None);
    assert_eq!(Image::PNG(vec![]).dimensions(), None);
    assert_eq!(Image::JPEG(png.clone()).dimensions(), None);
    assert_eq!(Image::JPEG(vec![]).dimensions(), None);
    assert_eq!(Image::JPEG(vec![0xFF, 0xD8]).dimensions(), None);
    assert_eq!(
        Image::JPEG(vec![0xFF, 0xD8, 0xFF, 0xE0, 0xFF, 0xFF, 1, 2, 3, 4, 5, 6]).dimensions(),
        None
    );
    assert_eq!(Image::PNG(png.clone()).mime(), "image/png");
    assert_eq!(Image::Empty.mime(), "");
    assert_eq!(Image::Empty.dimensions(), None);
    assert!(Image::Empty.is_none() && !Image::Empty.is_some());
    assert_eq!(Image::PNG(png.clone()).clone(), Image::PNG(png.clone()));
    assert_eq!(Image::PNG(png.clone()).unwrap(), png);
    assert_eq!(Image::JPEG(vec![1, 2]).unwrap(), vec![1, 2]);
    assert_eq!(Image::JPEG(b"123456789".to_vec()).crc32(), Some(0xCBF4_3926));
    assert_eq!(Image::PNG(vec![]).crc32(), Some(0));
    assert_eq!(Image::Empty.crc32(), None);
}

#[test]
fn store() {
    let mut s = Store::new(vec![1, 2, 3, 4, 5]);
    assert_eq!(s.position(), 0);
    let mut buf = vec![9; 3];
    assert_eq!(s.read(&mut buf), 3);
    assert_eq!(buf, vec![1, 2, 3]);
    assert_eq!(s.read_at(&mut buf, 1), 2);
    assert_eq!(buf, vec![1, 4, 5]);
    assert_eq!(s.position(), 5);
    assert_eq!(s.read(&mut buf), 0);
    assert_eq!(s.seek_current(-4).unwrap(), 1);
    assert_eq!(s.read_filled(6, 7), vec![2, 3, 4, 5, 7, 7]);
    assert_eq!(s.seek_end(-2).unwrap(), 3);
    assert!(s.seek_current(-4).is_err());
    assert_eq!(s.position(), 3);
    assert!(s.seek_end(-6).is_err());
    assert!(!s.skip(-4));
    assert!(s.skip(10));
    assert_eq!(s.position(), 13);
    assert_eq!(s.read_filled(2, 0), vec![0, 0]);
    assert_eq!(s.position(), 13);
    let mut out = vec![0];
    s.copy_rest(&mut out);
    assert_eq!(out, vec![0]);
    assert_eq!(s.seek_start(2), 2);
    s.copy_rest(&mut out);
    assert_eq!(out, vec![0, 3, 4, 5]);
    assert_eq!(s.position(), 5);
    assert_eq!(s.seek_start(u64::MAX), u64::MAX);
    assert!(s.seek_current(1).is_err());
}

fn trailer() -> Vec<u8> {
    let mut v = vec![0u8; 128];
    v[0..3].copy_from_slice(b"TAG");
    v[3..8].copy_from_slice(b"Title");
    v[125] = 1;
    v[127] = 200;
    v
}

#[test]
fn front_door() {
    for extension in ["", "ogg", "MP3", "mp3 ", ".mp3"] {
        match dispatch::get_tags(extension, &mut Store::new(trailer())) {
            Err(Error::TagError(m)) => assert_eq!(m, "Unsupported file format"),
            other => panic!("unexpected {:?}", other),
        }
        match dispatch::set_tags(extension, &mut Store::new(trailer()), &Tags::none()) {
            Err(Error::TagError(m)) => assert_eq!(m, "Unsupported file format"),
            other => panic!("unexpected {:?}", other),
        }
        assert!(dispatch::get_front_cover(extension, &mut Store::new(trailer())).is_err());
    }
    let mut file = vec![0xFF, 0xFB, 1, 2, 3, 4, 5, 6, 7, 8, 9, 10];
    file.extend(trailer());
    let old = Tags {
        title: text("Title"),
        artist: text(""),
        album: text(""),
        comment: text(""),
        genre: text(""),
        ..Default::default()
    };
    let mut input = Store::new(file.clone());
    input.seek_start(50);
    assert_eq!(dispatch::get_tags("mp3", &mut input).unwrap(), old);
    assert_eq!(
        neguse_taglib::get_front_cover("mp3", &mut Store::new(file.clone())).unwrap(),
        Image::Empty
    );
    match neguse_taglib::get_tags("mp3", &mut Store::new(vec![1, 2, 3])) {
        Err(Error::IOError(_)) => {}
        other => panic!("unexpected {:?}", other),
    }
    assert!(dispatch::get_tags("flac", &mut Store::new(file.clone())).is_err());
    assert_eq!(
        dispatch::get_tags("m4a", &mut Store::new(vec![])).unwrap(),
        Tags::none()
    );

    let update = Tags {
        artist: text("Artist"),
        front_cover: TagOption::Present(Image::PNG(vec![0x89, 0x50, 0x4E, 0x47, 1, 2])),
        ..Tags::mixed()
    };
    let mut input = Store::new(file.clone());
    input.seek_start(7);
    let written = neguse_taglib::set_tags("mp3", &mut input, &update).unwrap();
    assert_eq!(&written[written.len() - 12..], &file[..12]);
    let merged = Tags {
        artist: text("Artist"),
        front_cover: TagOption::Present(Image::PNG(vec![0x89, 0x50, 0x4E, 0x47, 1, 2])),
        ..old
    };
    assert_eq!(
        dispatch::get_tags("mp3", &mut Store::new(written.clone())).unwrap(),
        merged
    );
    assert_eq!(
        dispatch::get_front_cover("mp3", &mut Store::new(written)).unwrap(),
        Image::PNG(vec![0x89, 0x50, 0x4E, 0x47, 1, 2])
    );
}

#[test]
fn errors_as_text() {
    let e = Error::from("no tag".to_string());
    assert_eq!(e.to_string(), "Error reading tag from file: no tag");
    assert_eq!(e.description(), "no tag");
    assert!(e.cause().is_none());
    let e = Error::from(std::io::Error::new(std::io::ErrorKind::Other, "disk on fire"));
    assert_eq!(e.to_string(), "IO error: disk on fire");
    assert_eq!(e.description(), "disk on fire");
    assert_eq!(e.cause().unwrap().kind(), std::io::ErrorKind::Other);
    match Store::new(vec![]).seek_current(-1) {
        Err(e) => {
            assert!(e.to_string().starts_with("IO error: "));
            assert_eq!(
                e.cause().unwrap().kind(),
                std::io::ErrorKind::InvalidInput
            );
        }
        Ok(_) => panic!("a seek before the start"),
    }
}

#[test]
fn images_in_one_line() {
    let mut png = vec![0x89, 0x50, 0x4E, 0x47, 0x0D, 0x0A, 0x1A, 0x0A];
    png.extend_from_slice(&[0, 0, 0, 13]);
    png.extend_from_slice(b"IHDR");
    png.extend_from_slice(&[0, 0, 1, 0, 0, 0, 2, 0, 16]);
    let sum = Image::PNG(png.clone()).crc32().unwrap();
    assert_eq!(
        Image::PNG(png).describe(),
        format!("PNG 0x{:X?} (25 bytes, 256x512, 16bpp)", sum)
    );
    assert_eq!(
        Image::JPEG(b"123456789".to_vec()).describe(),
        "JPEG 0xCBF43926 (9 bytes, 0x0, 0bpp)"
    );
    assert_eq!(Image::JPEG(vec![]).describe(), "JPEG 0x0 (0 bytes, 0x0, 0bpp)");
    assert_eq!(Image::Empty.describe(), "None");
    assert_eq!(
        DateTime {
            year: Some(2000),
            month: Some(1),
            ..Default::default()
        }
        .to_string(),
        "2000-01"
    );
}
