use neguse_taglib::id3v2::tools::decode_frame_id;
use neguse_taglib::id3v2::tools::decode_synch_int;
use neguse_taglib::id3v2::tools::encode_frame_id;
use neguse_taglib::id3v2::tools::encode_synch_int;
use neguse_taglib::id3v2::tools::undo_unsynch;
use neguse_taglib::tools::decode_int_be_u32;
use neguse_taglib::tools::decode_int_le_u32;
use neguse_taglib::tools::encode_int_be_u16;
use neguse_taglib::tools::encode_int_be_u32;
use neguse_taglib::tools::encode_int_le_u32;
use neguse_taglib::tools::encoding::decode_iso_8859_1;
use neguse_taglib::tools::encoding::decode_utf16;
use neguse_taglib::tools::encoding::decode_utf8;
use neguse_taglib::tools::encoding::encode_iso_8859_1;
use neguse_taglib::tools::tag_error;
use neguse_taglib::tools::text::i64_to_string;
use neguse_taglib::tools::text::padded_int_string;
use neguse_taglib::tools::text::parse_i64_str;
use neguse_taglib::tools::text::replace_nul_in;
use neguse_taglib::tools::text::trim_end_nul;
use neguse_taglib::Error;

#[test]
fn synch_int_test() {
    assert_eq!(decode_synch_int(&[0x7F, 0x7F, 0x7F, 0x7F]), Ok(0x0FFFFFFF));
    assert_eq!(decode_synch_int(&[0x01, 0x7F]), Ok(0xFF));
    assert_eq!(
        decode_synch_int(&[0x7F, 0x7F, 0x7F, 0x7F, 0x7F]),
        Ok(0xFFFFFFFF)
    );
    assert!(
        decode_synch_int(&[0xFF]).is_err(),
        "Not a valid synchsafe integer"
    );

    assert_eq!(
        encode_synch_int(0x0FFFFFFF, false),
        Ok(vec![0x7F, 0x7F, 0x7F, 0x7F])
    );
    assert_eq!(
        encode_synch_int(0xFF, false),
        Ok(vec![0x00, 0x00, 0x01, 0x7F])
    );
    assert!(
        encode_synch_int(0xFFFFFFFF, false).is_err(),
        "Not a 28 bit integer"
    );
    assert_eq!(
        encode_synch_int(0xFFFFFFFF, true),
        Ok(vec![0x0F, 0x7F, 0x7F, 0x7F, 0x7F])
    );

    assert_eq!(
        decode_synch_int(&encode_synch_int(0x80FF00, false).unwrap()),
        Ok(0x80FF00)
    );
    assert_eq!(
        decode_synch_int(&encode_synch_int(0x1D80FF00, true).unwrap()),
        Ok(0x1D80FF00)
    );
}

#[test]
fn frame_id_test() {
    assert_eq!(
        decode_frame_id(&[0x54, 0x49, 0x54, 0x32]),
        Ok("TIT2".to_string())
    );
    assert_eq!(
        decode_frame_id(&[0x54, 0x52, 0x43, 0x4B]),
        Ok("TRCK".to_string())
    );
    assert!(
        decode_frame_id(&[0x73, 0x52, 0x47, 0x42]).is_err(),
        "Need to have A-Z and 0-9 characters only"
    );

    assert_eq!(encode_frame_id("TIT2"), Ok(vec![0x54, 0x49, 0x54, 0x32]));
    assert_eq!(encode_frame_id("TRCK"), Ok(vec![0x54, 0x52, 0x43, 0x4B]));
    assert!(
        encode_frame_id("sRGB").is_err(),
        "Need to have A-Z and 0-9 characters only"
    );

    assert_eq!(
        decode_frame_id(&encode_frame_id("TEST1234").unwrap()),
        Ok("TEST1234".to_string())
    );
}

#[test]
fn synch_int_limits() {
    assert_eq!(
        encode_synch_int(0x0FFF_FFFF, false),
        Ok(vec![0x7F, 0x7F, 0x7F, 0x7F])
    );
    assert_eq!(
        encode_synch_int(0x1000_0000, false),
        Err("Input uses more than 28 bits, but use fifth bit option is not enabled.".to_string())
    );
    assert_eq!(
        encode_synch_int(0x1000_0000, true),
        Ok(vec![0x01, 0x00, 0x00, 0x00, 0x00])
    );
    assert_eq!(
        decode_synch_int(&encode_synch_int(0x1000_0000, true).unwrap()),
        Ok(0x1000_0000)
    );
    assert_eq!(decode_synch_int(&[]), Ok(0));
    assert_eq!(
        decode_synch_int(&[0, 0, 0, 0, 0, 0]),
        Err("Synchsafe ints are limited to 32 bits".to_string())
    );
    assert_eq!(
        decode_synch_int(&[0x01, 0x02, 0x80, 0x90]),
        Err("Invalid synch-safe byte at position 2".to_string())
    );
    for n in [0u32, 1, 127, 128, 0x3FFF, 0x4000, 0x0ABC_DEF0, 0x0FFF_FFFF] {
        assert_eq!(decode_synch_int(&encode_synch_int(n, false).unwrap()), Ok(n));
        assert_eq!(decode_synch_int(&encode_synch_int(n, true).unwrap()), Ok(n));
    }
}

#[test]
fn frame_id_rejects_other_characters() {
    assert!(encode_frame_id("TIT\u{141}").is_err());
    assert!(encode_frame_id("tit2").is_err());
    assert!(encode_frame_id("TI 2").is_err());
    assert!(decode_frame_id(&[0x54, 0x49, 0x54, 0x00]).is_err());
    assert!(decode_frame_id(&[0x54, 0x49, 0x54, 0xC1]).is_err());
    assert_eq!(encode_frame_id(""), Ok(vec![]));
    assert_eq!(decode_frame_id(&[]), Ok("".to_string()));
    assert_eq!(encode_frame_id("AZ09"), Ok(vec![0x41, 0x5A, 0x30, 0x39]));
}

#[test]
fn unsynchronization_is_undone() {
    let mut v = vec![0xFF, 0x00, 0x01, 0xFF, 0x00, 0x00, 0xFF];
    undo_unsynch(&mut v);
    assert_eq!(v, vec![0xFF, 0x01, 0xFF, 0x00, 0xFF]);
    let mut v: Vec<u8> = vec![];
    undo_unsynch(&mut v);
    assert_eq!(v, Vec::<u8>::new());
    let mut v = vec![0xFF];
    undo_unsynch(&mut v);
    assert_eq!(v, vec![0xFF]);
    let mut v = vec![0xFF, 0x00];
    undo_unsynch(&mut v);
    assert_eq!(v, vec![0xFF]);
    let mut v = vec![0x00, 0xFF, 0xFF, 0x00, 0xFF, 0x00];
    undo_unsynch(&mut v);
    assert_eq!(v, vec![0x00, 0xFF, 0xFF, 0xFF]);
}

#[test]
fn integers_are_coded() {
    assert_eq!(decode_int_be_u32(&[0x01, 0x02, 0x03, 0x04]), 0x0102_0304);
    assert_eq!(decode_int_be_u32(&[0x01, 0x02, 0x03]), 0x01_0203);
    assert_eq!(decode_int_be_u32(&[]), 0);
    assert_eq!(decode_int_be_u32(&[0xFF, 0xFF, 0xFF, 0xFF]), 0xFFFF_FFFF);
    assert_eq!(decode_int_le_u32(&[0x01, 0x02, 0x03, 0x04]), 0x0403_0201);
    assert_eq!(decode_int_le_u32(&[0x01, 0x02]), 0x0201);
    assert_eq!(encode_int_be_u16(0x1234), vec![0x12, 0x34]);
    assert_eq!(encode_int_be_u32(0x1234_5678), vec![0x12, 0x34, 0x56, 0x78]);
    assert_eq!(encode_int_le_u32(0x1234_5678), vec![0x78, 0x56, 0x34, 0x12]);
    for n in [0u32, 1, 255, 256, 0xDEAD_BEEF, u32::MAX] {
        assert_eq!(decode_int_be_u32(&encode_int_be_u32(n)), n);
        assert_eq!(decode_int_le_u32(&encode_int_le_u32(n)), n);
    }
    assert_eq!(
        neguse_taglib::types::image::decode_int_be_u32(&[0x00, 0x10]),
        16
    );
}

#[test]
fn tag_error_wraps_message() {
    match tag_error("oops") {
        Error::TagError(m) => assert_eq!(m, "oops"),
        other => panic!("unexpected {:?}", other),
    }
}

#[test]
fn text_is_decoded() {
    assert_eq!(decode_iso_8859_1(&[0x41, 0xE6, 0xD6, 0x00, 0x00]), "A\u{e6}\u{d6}");
    assert_eq!(decode_iso_8859_1(&[0x00, 0x41]), "\0A");
    assert_eq!(decode_iso_8859_1(&[]), "");
    assert_eq!(encode_iso_8859_1("\u{a9}nam"), vec![0xA9, 0x6E, 0x61, 0x6D]);
    assert_eq!(encode_iso_8859_1("a\u{141}b"), vec![0x61, 0x3F, 0x62]);
    assert_eq!(decode_utf8("Gr\u{fc}\u{df}e\0".as_bytes()), "Gr\u{fc}\u{df}e");
    assert_eq!(decode_utf8(&[0x41, 0xFF, 0x42]), "A\u{fffd}B");
    assert_eq!(decode_utf16(&[0xFF, 0xFE, 0x41, 0x00, 0x42, 0x00]), "AB");
    assert_eq!(decode_utf16(&[0xFE, 0xFF, 0x00, 0x41, 0x00, 0x42]), "AB");
    assert_eq!(decode_utf16(&[0x00, 0x41, 0x00, 0x42, 0x00, 0x00]), "AB");
    assert_eq!(decode_utf16(&[]), "");
    assert_eq!(decode_utf16(&[0x41]), "\u{fffd}");
}

#[test]
fn text_helpers() {
    assert_eq!(trim_end_nul("abc\0\0"), "abc");
    assert_eq!(trim_end_nul("\0a\0"), "\0a");
    assert_eq!(trim_end_nul("\0\0"), "");
    assert_eq!(replace_nul_in("a\0b\0"), "a / b / ");
    assert_eq!(replace_nul_in("ab"), "ab");
    assert_eq!(i64_to_string(0), "0");
    assert_eq!(i64_to_string(-17), "-17");
    assert_eq!(i64_to_string(i64::MIN), i64::MIN.to_string());
    assert_eq!(i64_to_string(i64::MAX), i64::MAX.to_string());
    assert_eq!(padded_int_string(7, 4), format!("{:04}", 7));
    assert_eq!(padded_int_string(-7, 4), format!("{:04}", -7));
    assert_eq!(padded_int_string(12345, 4), format!("{:04}", 12345));
    assert_eq!(parse_i64_str("42"), Some(42));
    assert_eq!(parse_i64_str("+42"), Some(42));
    assert_eq!(parse_i64_str("-42"), Some(-42));
    assert_eq!(parse_i64_str("0007"), Some(7));
    assert_eq!(parse_i64_str(""), None);
    assert_eq!(parse_i64_str("-"), None);
    assert_eq!(parse_i64_str("4 2"), None);
    assert_eq!(parse_i64_str("9223372036854775807"), Some(i64::MAX));
    assert_eq!(parse_i64_str("9223372036854775808"), None);
    assert_eq!(parse_i64_str("-9223372036854775808"), Some(i64::MIN));
    assert_eq!(parse_i64_str("-9223372036854775809"), None);
    for s in ["12", "-0", "+", "1e3", "99999999999999999999", "٣"] {
        assert_eq!(parse_i64_str(s), s.parse::<i64>().ok());
    }
}

#[test]
fn frame_id_errors_name_the_input() {
    assert_eq!(
        decode_frame_id(&[0x73, 0x52, 0x47, 0x42]),
        Err("Cannot decode [73, 52, 47, 42]: Invalid frame ID (contains characters that are not A-Z or 0-9)".to_string())
    );
    assert_eq!(
        encode_frame_id("sRGB"),
        Err("Cannot encode \"sRGB\": Invalid frame ID (contains characters that are not A-Z or 0-9)".to_string())
    );
}

#[test]
fn frame_id_refusals_say_what_was_refused() {
    assert_eq!(
        decode_frame_id(&[0x73, 0x52, 0x0A, 0x00]),
        Err(
            "Cannot decode [73, 52, A, 0]: Invalid frame ID (contains characters that are not A-Z or 0-9)"
                .to_string()
        )
    );
    assert_eq!(
        decode_frame_id(&[0xFF]),
        Err(
            "Cannot decode [FF]: Invalid frame ID (contains characters that are not A-Z or 0-9)"
                .to_string()
        )
    );
    assert_eq!(
        encode_frame_id("sRGB"),
        Err(
            "Cannot encode \"sRGB\": Invalid frame ID (contains characters that are not A-Z or 0-9)"
                .to_string()
        )
    );
    assert_eq!(
        format!("{:X?}", [0x73u8, 0x52, 0x0A, 0x00]),
        "[73, 52, A, 0]".to_string()
    );
}
