use neguse_taglib::id3v1;
use neguse_taglib::store::Store;
use neguse_taglib::DateTime;
use neguse_taglib::Error;
use neguse_taglib::TagOption;
use neguse_taglib::Tags;

fn field(s: &[u8], width: usize) -> Vec<u8> {
    let mut v = s.to_vec();
    v.resize(width, 0);
    v
}

fn trailer(track_marker: u8, track: u8, genre: u8) -> Vec<u8> {
    let mut v = b"TAG".to_vec();
    v.extend(field(b"ID3v1 Test Track", 30));
    v.extend(field(b"Artist Name", 30));
    v.extend(field(b"Album Name", 30));
    v.extend(field(b"2017", 4));
    v.extend(field(b"Comment \xE6\xD6\xC6\xB6\xA6\xE0\xE7\xE0\xF6", 28));
    v.push(track_marker);
    v.push(track);
    v.push(genre);
    assert_eq!(v.len(), 128);
    v
}

#[test]
fn id3v1_tags_test() {
    let mut file = vec![0xFF, 0xFB, 0x90, 0x00, 1, 2, 3];
    file.extend(trailer(0, 1, 32));
    let tag = id3v1::get(&mut Store::new(file)).unwrap();
    let orig = Tags {
        title: TagOption::Present("ID3v1 Test Track".to_string()),
        album: TagOption::Present("Album Name".to_string()),
        artist: TagOption::Present("Artist Name".to_string()),
        genre: TagOption::Present("Classical".to_string()),
        date: TagOption::Present(DateTime {
            year: Some(2017),
            ..Default::default()
        }),
        track_number: TagOption::Present(1),
        comment: TagOption::Present("Comment æÖÆ¶¦àçàö".to_string()),
        ..Default::default()
    };
    assert_eq!(tag, orig);
}

#[test]
fn trailer_fields() {
    let tags = id3v1::get(&mut Store::new(trailer(1, 9, 80))).unwrap();
    assert_eq!(tags.track_number, TagOption::Absent);
    assert_eq!(tags.genre, TagOption::Present("".to_string()));
    let tags = id3v1::get(&mut Store::new(trailer(0, 0, 255))).unwrap();
    assert_eq!(tags.track_number, TagOption::Present(0));
    assert_eq!(tags.genre, TagOption::Present("".to_string()));
    let mut raw = trailer(0, 200, 79);
    raw[93..97].copy_from_slice(b"19\0\0");
    raw[3..33].copy_from_slice(&[b'x'; 30]);
    let tags = id3v1::get(&mut Store::new(raw)).unwrap();
    assert_eq!(tags.track_number, TagOption::Present(200));
    assert_eq!(tags.genre, TagOption::Present("Hard Rock".to_string()));
    assert_eq!(tags.date, TagOption::Absent);
    assert_eq!(tags.title, TagOption::Present("x".repeat(30)));
}

#[test]
fn genres() {
    assert_eq!(id3v1::get_genre(0), "Blues");
    assert_eq!(id3v1::get_genre(17), "Rock");
    assert_eq!(id3v1::get_genre(32), "Classical");
    assert_eq!(id3v1::get_genre(78), "Rock & Roll");
    assert_eq!(id3v1::get_genre(79), "Hard Rock");
    assert_eq!(id3v1::get_genre(80), "");
    assert_eq!(id3v1::get_genre(255), "");
}

#[test]
fn missing_trailer() {
    let mut input = Store::new(vec![0; 127]);
    input.seek_start(3);
    match id3v1::get(&mut input) {
        Err(Error::IOError(_)) => {}
        other => panic!("unexpected {:?}", other),
    }
    assert_eq!(input.position(), 3);
    match id3v1::get(&mut Store::new(vec![0; 128])) {
        Err(Error::TagError(m)) => assert_eq!(m, "ID3 tags not found"),
        other => panic!("unexpected {:?}", other),
    }
    assert!(!id3v1::has_id3v1(&mut Store::new(vec![0; 127])));
    assert!(!id3v1::has_id3v1(&mut Store::new(vec![0; 300])));
    let mut file = vec![7; 300];
    file.extend(trailer(0, 1, 1));
    let mut input = Store::new(file);
    assert!(id3v1::has_id3v1(&mut input));
    assert_eq!(input.position(), 303);
    let mut shifted = trailer(0, 1, 1);
    shifted.push(0);
    assert!(!id3v1::has_id3v1(&mut Store::new(shifted)));
}
