use neguse_taglib::m4a;
use neguse_taglib::m4a::Atom;
use neguse_taglib::store::Store;
use neguse_taglib::DateTime;
use neguse_taglib::Error;
use neguse_taglib::Image;
use neguse_taglib::TagOption;
use neguse_taglib::Tags;

fn text(s: &str) -> TagOption<String> {
    TagOption::Present(s.to_string())
}

fn atom(name: &[u8], content: &[u8]) -> Vec<u8> {
    let mut v = (content.len() as u32 + 8).to_be_bytes().to_vec();
    v.extend_from_slice(name);
    v.extend_from_slice(content);
    v
}

fn data(kind: u8, content: &[u8]) -> Vec<u8> {
    let mut v = vec![0, 0, 0, kind, 0, 0, 0, 0];
    v.extend_from_slice(content);
    atom(b"data", &v)
}

fn item(name: &[u8], kind: u8, content: &[u8]) -> Vec<u8> {
    atom(name, &data(kind, content))
}

fn join(parts: &[Vec<u8>]) -> Vec<u8> {
    parts.concat()
}

fn jpeg() -> Vec<u8> {
    vec![0xFF, 0xD8, 0xFF, 0xE0, 1, 2, 3, 4, 5, 0xFF, 0xD9]
}

fn png() -> Vec<u8> {
    vec![0x89, 0x50, 0x4E, 0x47, 0x0D, 0x0A, 0x1A, 0x0A, 9, 9, 9]
}

fn stco(offsets: &[u32]) -> Vec<u8> {
    let mut v = vec![0, 0, 0, 0];
    v.extend_from_slice(&(offsets.len() as u32).to_be_bytes());
    for o in offsets {
        v.extend_from_slice(&o.to_be_bytes());
    }
    atom(b"stco", &v)
}

fn tree(ilst: &[u8], offsets: &[u32], media: &[u8]) -> Vec<u8> {
    let stbl = atom(b"stbl", &join(&[atom(b"stsd", &[1, 2, 3, 4]), stco(offsets)]));
    let trak = atom(
        b"trak",
        &join(&[
            atom(b"tkhd", &[7; 12]),
            atom(b"mdia", &atom(b"minf", &stbl)),
        ]),
    );
    let meta = atom(
        b"meta",
        &join(&[
            vec![0, 0, 0, 0],
            atom(b"hdlr", &[5; 10]),
            atom(b"ilst", ilst),
            atom(b"free", &[0; 6]),
        ]),
    );
    let moov = atom(
        b"moov",
        &join(&[atom(b"mvhd", &[3; 20]), trak, atom(b"udta", &meta)]),
    );
    join(&[atom(b"ftyp", b"M4A \0\0\0\0"), moov, atom(b"mdat", media)])
}

fn media() -> Vec<u8> {
    (0..64u32).map(|i| (i * 5 % 256) as u8).collect()
}

fn sample_list() -> Vec<u8> {
    join(&[
        item(b"\xA9nam", 1, b"(Segue) - Nathan Adler, Pt. 2"),
        item(b"\xA9ART", 1, b"David Bowie"),
        item(b"\xA9alb", 1, b"Outside"),
        item(b"aART", 1, b"David Bowie"),
        item(b"gnre", 0, &[0, 18]),
        item(b"\xA9day", 1, b"1995-09-26T08:00:00Z"),
        item(b"trkn", 0, &[0, 0, 0, 18, 0, 20, 0, 0]),
        item(b"disk", 0, &[0, 0, 0, 1, 0, 1]),
        item(b"----", 1, b"com.apple.iTunes"),
        item(b"pgap", 21, &[0]),
        item(b"covr", 13, &jpeg()),
        item(b"covr", 14, &png()),
    ])
}

fn sample_tags() -> Tags {
    Tags {
        title: text("(Segue) - Nathan Adler, Pt. 2"),
        artist: text("David Bowie"),
        album: text("Outside"),
        album_artist: text("David Bowie"),
        genre: text("Rock"),
        date: DateTime::from_iso_8601("1995-09-26T08:00:00").into(),
        track_number: TagOption::Present(18),
        track_total: TagOption::Present(20),
        disc_number: TagOption::Present(1),
        disc_total: TagOption::Present(1),
        front_cover: TagOption::Present(Image::JPEG(jpeg())),
        ..Default::default()
    }
}

#[test]
fn atom_header() {
    let a = Atom::new(&[0, 0, 1, 2, b'm', b'o', b'o', b'v'], 40);
    assert_eq!(a.name, "moov");
    assert_eq!(a.size, 258);
    assert_eq!(a.start, 40);
    assert_eq!(a.end, 298);
    let a = Atom::new(&[0, 0, 0, 8, 0xA9, b'n', b'a', b'm', 1, 2], 0);
    assert_eq!(a.name, "\u{a9}nam");
    assert_eq!(a.end, 8);
}

#[test]
fn tree_is_read() {
    let file = tree(&sample_list(), &[1234], &media());
    assert_eq!(m4a::get(&mut Store::new(file)).unwrap(), sample_tags());
}

#[test]
fn other_atoms_are_read() {
    let list = join(&[
        item(b"\xA9art", 1, b"artist"),
        item(b"\xA9wrt", 1, b"composer"),
        item(b"\xA9grp", 1, b"grouping"),
        item(b"\xA9gen", 1, b"Game Soundtrack"),
        item(b"gnre", 0, &[0, 18]),
        item(b"cpil", 21, &[1]),
        item(b"tmpo", 21, &[0, 96]),
        item(b"\xA9cmt", 1, b"comment"),
        item(b"sonm", 1, b"st"),
        item(b"soal", 1, b"sa"),
        item(b"soar", 1, b"sr"),
        item(b"soaa", 1, b"saa"),
        item(b"soco", 1, b"sc"),
        item(b"trkn", 0, &[0, 0, 1, 44, 0, 0]),
        item(b"covr", 12, &[1, 2, 3]),
        item(b"covr", 14, &png()),
        item(b"\xA9nam", 21, b"not text"),
        atom(b"\xA9alb", &atom(b"name", b"no data atom")),
    ]);
    let ideal = Tags {
        artist: text("artist"),
        composer: text("composer"),
        grouping: text("grouping"),
        genre: text("Game Soundtrack"),
        is_compilation: TagOption::Present(true),
        bpm: TagOption::Present(96),
        comment: text("comment"),
        sort_title: text("st"),
        sort_album: text("sa"),
        sort_artist: text("sr"),
        sort_album_artist: text("saa"),
        sort_composer: text("sc"),
        track_number: TagOption::Present(300),
        front_cover: TagOption::Present(Image::PNG(png())),
        ..Default::default()
    };
    let file = tree(&list, &[1], &media());
    assert_eq!(m4a::get(&mut Store::new(file)).unwrap(), ideal);
    let zero = join(&[
        item(b"cpil", 21, &[0]),
        item(b"tmpo", 21, &[0, 0]),
        item(b"gnre", 0, &[0, 0]),
        item(b"trkn", 0, &[0, 0, 0, 0, 0, 9]),
    ]);
    let ideal = Tags {
        genre: text(""),
        track_total: TagOption::Present(9),
        ..Default::default()
    };
    let file = tree(&zero, &[1], &media());
    assert_eq!(m4a::get(&mut Store::new(file)).unwrap(), ideal);
}

#[test]
fn files_without_tags() {
    assert_eq!(m4a::get(&mut Store::new(vec![])).unwrap(), Tags::none());
    let file = join(&[atom(b"ftyp", b"M4A "), atom(b"mdat", &media())]);
    assert_eq!(m4a::get(&mut Store::new(file)).unwrap(), Tags::none());
    let file = tree(&[], &[1], &media());
    assert_eq!(m4a::get(&mut Store::new(file)).unwrap(), Tags::none());
    for size in [2u8, 7] {
        let file = join(&[atom(b"ftyp", b"M4A "), vec![0, 0, 0, size, b'f', b'r', b'e', b'e']]);
        match m4a::get(&mut Store::new(file)) {
            Err(Error::TagError(m)) => {
                assert_eq!(m, "Found invalid atom while parsing m4a structure")
            }
            other => panic!("unexpected {:?}", other),
        }
    }
    for size in [0u8, 1] {
        let file = join(&[vec![0, 0, 0, size, b'f', b'r', b'e', b'e'], atom(b"ftyp", b"M4A ")]);
        assert!(m4a::get(&mut Store::new(file)).is_err());
    }
}

fn offset_at(file: &[u8]) -> u32 {
    let at = file.windows(4).position(|w| w == b"stco").unwrap();
    u32::from_be_bytes([file[at + 12], file[at + 13], file[at + 14], file[at + 15]])
}

fn size_of(file: &[u8], name: &[u8]) -> u32 {
    let at = file.windows(4).position(|w| w == name).unwrap();
    u32::from_be_bytes([file[at - 4], file[at - 3], file[at - 2], file[at - 1]])
}

#[test]
fn chunk_offset_moves_with_the_list() {
    let list = item(b"\xA9nam", 1, b"old");
    let file = tree(&list, &[0], &media());
    let start = file.len() as u32 - media().len() as u32;
    let file = tree(&list, &[start], &media());
    assert_eq!(&file[start as usize..], &media()[..]);

    let new = Tags {
        title: text("a much longer title than before"),
        ..Default::default()
    };
    let mut output = Vec::new();
    m4a::set(&mut Store::new(file.clone()), &mut output, &new).unwrap();
    let grown = output.len() as i64 - file.len() as i64;
    let old_list = size_of(&file, b"ilst");
    let new_list = size_of(&output, b"ilst");
    assert_eq!(grown, new_list as i64 - old_list as i64);
    assert!(grown > 0);
    assert_eq!(offset_at(&output) as i64, start as i64 + grown);
    assert_eq!(&output[offset_at(&output) as usize..], &media()[..]);
    for name in [&b"moov"[..], b"udta", b"meta"] {
        assert_eq!(
            size_of(&output, name) as i64,
            size_of(&file, name) as i64 + grown
        );
    }
    for name in [&b"trak"[..], b"mdia", b"minf", b"stbl", b"stco", b"mdat", b"ftyp", b"free"] {
        assert_eq!(size_of(&output, name), size_of(&file, name));
    }
    assert_eq!(m4a::get(&mut Store::new(output)).unwrap(), new);

    let mut smaller = Vec::new();
    m4a::set(&mut Store::new(file.clone()), &mut smaller, &Tags::none()).unwrap();
    let shrunk = smaller.len() as i64 - file.len() as i64;
    assert_eq!(offset_at(&smaller) as i64, start as i64 + shrunk);
    assert_eq!(&smaller[offset_at(&smaller) as usize..], &media()[..]);
}

#[test]
fn list_is_written_anew() {
    let file = tree(&sample_list(), &[100, 200, 300], &media());
    let update = Tags {
        title: text("Title"),
        album: text(""),
        genre: TagOption::Absent,
        bpm: TagOption::Present(120),
        is_compilation: TagOption::Present(true),
        comment: text("c"),
        front_cover: TagOption::Present(Image::PNG(png())),
        ..Tags::mixed()
    };
    let mut output = Vec::new();
    m4a::set(&mut Store::new(file.clone()), &mut output, &update).unwrap();
    let ideal_list = join(&[
        item(b"\xA9nam", 1, b"Title"),
        item(b"\xA9art", 1, b"David Bowie"),
        item(b"aART", 1, b"David Bowie"),
        item(b"\xA9day", 1, b"1995-09-26T08:00:00"),
        item(b"trkn", 0, &[0, 0, 0, 18, 0, 20]),
        item(b"disk", 0, &[0, 0, 0, 1, 0, 1]),
        item(b"tmpo", 21, &[0, 120]),
        item(b"cpil", 21, &[1]),
        item(b"\xA9cmt", 1, b"c"),
        item(b"covr", 14, &png()),
    ]);
    let grown = ideal_list.len() as i64 - sample_list().len() as i64;
    let ideal = tree(
        &ideal_list,
        &[
            (100 + grown) as u32,
            (200 + grown) as u32,
            (300 + grown) as u32,
        ],
        &media(),
    );
    assert_eq!(output, ideal);
    let merged = Tags {
        title: text("Title"),
        album: TagOption::Absent,
        genre: TagOption::Absent,
        bpm: TagOption::Present(120),
        is_compilation: TagOption::Present(true),
        comment: text("c"),
        front_cover: TagOption::Present(Image::PNG(png())),
        ..sample_tags()
    };
    assert_eq!(m4a::get(&mut Store::new(output)).unwrap(), merged);
}

fn set_error(file: Vec<u8>) -> String {
    let mut output = vec![5];
    let r = m4a::set(&mut Store::new(file), &mut output, &Tags::mixed());
    assert_eq!(output, vec![5]);
    match r {
        Err(Error::TagError(m)) => m,
        other => panic!("unexpected {:?}", other),
    }
}

#[test]
fn files_that_cannot_be_rewritten() {
    let file = join(&[atom(b"ftyp", b"M4A "), atom(b"mdat", &media())]);
    assert_eq!(set_error(file), "Could not find stco atom");
    let file = join(&[
        atom(b"ftyp", b"M4A "),
        atom(b"mdat", &media()),
        atom(b"moov", &stco(&[1])),
    ]);
    assert_eq!(set_error(file), "Could not find stco atom");
    let file = join(&[atom(b"ftyp", b"M4A "), atom(b"moov", &stco(&[1]))]);
    assert_eq!(set_error(file), "Could not find mdat atom");
    assert_eq!(set_error(vec![]), "Could not find mdat atom");
    let file = join(&[vec![0, 0, 0, 5, b'f', b't', b'y', b'p'], atom(b"mdat", &media())]);
    assert_eq!(set_error(file), "Found invalid atom while parsing m4a structure");
    let file = join(&[vec![0, 0, 0, 0, b'f', b't', b'y', b'p'], atom(b"mdat", &media())]);
    assert_eq!(set_error(file), "Found invalid atom while parsing m4a structure");
}

#[test]
fn offsets_outside_the_table_are_kept() {
    let mut table = stco(&[10, 20]);
    table[15] = 9;
    let file = join(&[
        atom(b"moov", &join(&[table, atom(b"free", &[0, 0, 0, 5])])),
        atom(b"mdat", &media()),
    ]);
    let mut output = Vec::new();
    m4a::set(&mut Store::new(file.clone()), &mut output, &Tags::mixed()).unwrap();
    assert_eq!(output, file);
}

#[test]
fn numbers_are_written_in_16_bits() {
    let file = tree(&[], &[7], &media());
    let new = Tags {
        track_number: TagOption::Present(65536 + 258),
        track_total: TagOption::Present(-1),
        disc_total: TagOption::Present(3),
        bpm: TagOption::Present(-2),
        ..Default::default()
    };
    let mut output = Vec::new();
    m4a::set(&mut Store::new(file), &mut output, &new).unwrap();
    let read = m4a::get(&mut Store::new(output)).unwrap();
    let ideal = Tags {
        track_number: TagOption::Present(258),
        track_total: TagOption::Present(65535),
        disc_total: TagOption::Present(3),
        bpm: TagOption::Present(65534),
        ..Default::default()
    };
    assert_eq!(read, ideal);
}
