use flacparse::{
    decode_header, is_flac_file, parse_vorbis_comments, read_length, read_n,
    search_comment_block, split_comment, BlockHeader, ByteCursor, FlacParser, MusicData,
    MusicDataParser, MusicMetaData, ParseError, VORBIS_COMMENT,
};

fn field(text: &[u8]) -> Vec<u8> {
    let mut out = (text.len() as u32).to_le_bytes().to_vec();
    out.extend_from_slice(text);
    out
}

fn comment_body(vendor: &[u8], entries: &[&[u8]]) -> Vec<u8> {
    let mut out = field(vendor);
    out.extend_from_slice(&(entries.len() as u32).to_le_bytes());
    for entry in entries {
        out.extend_from_slice(&field(entry));
    }
    out
}

fn owned(key: &str, value: &str) -> Option<(String, String)> {
    Some((key.to_string(), value.to_string()))
}

#[test]
fn marker_is_recognised() {
    let mut cursor = ByteCursor::new(b"fLaC and more");
    assert_eq!(is_flac_file(&mut cursor), Ok(true));
    assert_eq!(cursor.position(), 4);
}

#[test]
fn other_four_bytes_are_no_marker() {
    for bytes in [&b"fLaD...."[..], b"FLaC", b"flac", b"CaLf", b"fLa\0", b"\0LaC", b"f\0aC", b"fL\0C"] {
        let mut cursor = ByteCursor::new(bytes);
        assert_eq!(is_flac_file(&mut cursor), Ok(false));
        assert_eq!(cursor.position(), 4);
    }
}

#[test]
fn marker_needs_four_bytes() {
    for bytes in [&b""[..], b"f", b"fL", b"fLa"] {
        let mut cursor = ByteCursor::new(bytes);
        assert_eq!(is_flac_file(&mut cursor), Err(ParseError::Truncated));
        assert_eq!(cursor.position(), 0);
    }
}

#[test]
fn header_fields_are_taken_apart() {
    assert_eq!(
        decode_header(&[0x84, 0x01, 0x02, 0x03]),
        BlockHeader { is_last: true, block_type: 4, length: 0x010203 }
    );
    assert_eq!(
        decode_header(&[0x04, 0x00, 0x00, 0x28]),
        BlockHeader { is_last: false, block_type: VORBIS_COMMENT, length: 40 }
    );
    assert_eq!(
        decode_header(&[0x00, 0x00, 0x00, 0x22]),
        BlockHeader { is_last: false, block_type: 0, length: 34 }
    );
    assert_eq!(
        decode_header(&[0xff, 0xff, 0xff, 0xff]),
        BlockHeader { is_last: true, block_type: 127, length: 0xff_ffff }
    );
    assert_eq!(
        decode_header(&[0x7f, 0x00, 0x01, 0x00]),
        BlockHeader { is_last: false, block_type: 127, length: 256 }
    );
    assert_eq!(
        decode_header(&[0x80, 0x01, 0x00, 0x00]),
        BlockHeader { is_last: true, block_type: 0, length: 65536 }
    );
    assert_eq!(
        decode_header(&[0x44, 0x00, 0x00, 0x00]),
        BlockHeader { is_last: false, block_type: 68, length: 0 }
    );
}

#[test]
fn lengths_are_little_endian() {
    let mut cursor = ByteCursor::new(&[0x01, 0x02, 0x03, 0x04, 0xff]);
    assert_eq!(read_length(&mut cursor), Ok(0x0403_0201));
    assert_eq!(cursor.position(), 4);
    assert_eq!(read_length(&mut cursor), Err(ParseError::Truncated));
    assert_eq!(cursor.position(), 4);

    let mut cursor = ByteCursor::new(&[0xff, 0xff, 0xff, 0xff]);
    assert_eq!(read_length(&mut cursor), Ok(u32::MAX));
    let mut cursor = ByteCursor::new(&[0x09, 0x00, 0x00, 0x00]);
    assert_eq!(read_length(&mut cursor), Ok(9));
    let mut cursor = ByteCursor::new(&[0x00, 0x00, 0x00, 0x80]);
    assert_eq!(read_length(&mut cursor), Ok(0x8000_0000));
}

#[test]
fn read_n_decodes_the_next_bytes() {
    let bytes = "Für Elise, and more".as_bytes();
    let mut cursor = ByteCursor::new(bytes);
    assert_eq!(read_n(&mut cursor, 10), Ok("Für Elise".to_string()));
    assert_eq!(cursor.position(), 10);
    assert_eq!(read_n(&mut cursor, 0), Ok(String::new()));
    assert_eq!(cursor.position(), 10);
    assert_eq!(read_n(&mut cursor, 2), Ok(", ".to_string()));
    assert_eq!(cursor.position(), 12);
}

#[test]
fn read_n_beyond_the_end_is_truncated() {
    let mut cursor = ByteCursor::new(b"abc");
    assert_eq!(read_n(&mut cursor, 4), Err(ParseError::Truncated));
    assert_eq!(cursor.position(), 0);
    assert_eq!(read_n(&mut cursor, u64::MAX), Err(ParseError::Truncated));
    assert_eq!(cursor.position(), 0);
    assert_eq!(read_n(&mut cursor, 3), Ok("abc".to_string()));

    // Too few bytes, and bad ones: the length is looked at first.
    let mut cursor = ByteCursor::new(&[0xff, 0xff]);
    assert_eq!(read_n(&mut cursor, 3), Err(ParseError::Truncated));
}

#[test]
fn read_n_of_bad_utf8_is_malformed() {
    let mut cursor = ByteCursor::new(&[b'a', 0xff, b'b']);
    assert_eq!(read_n(&mut cursor, 3), Err(ParseError::MalformedData));
    assert_eq!(cursor.position(), 3);

    // A character cut in two.
    let bytes = "ü".as_bytes();
    let mut cursor = ByteCursor::new(bytes);
    assert_eq!(read_n(&mut cursor, 1), Err(ParseError::MalformedData));

    // An overlong form of `/`.
    let mut cursor = ByteCursor::new(&[0xc0, 0xaf]);
    assert_eq!(read_n(&mut cursor, 2), Err(ParseError::MalformedData));
}

#[test]
fn entry_splits_at_its_separator() {
    assert_eq!(split_comment("TITLE=Song"), owned("TITLE", "Song"));
    assert_eq!(split_comment("a=b"), owned("a", "b"));
    assert_eq!(split_comment("=b"), owned("", "b"));
    assert_eq!(split_comment("a="), owned("a", ""));
    assert_eq!(split_comment("="), owned("", ""));
    assert_eq!(split_comment("KÜNSTLER=坂本 龍一"), owned("KÜNSTLER", "坂本 龍一"));
    assert_eq!(split_comment("😀=😀"), owned("😀", "😀"));
}

#[test]
fn entry_needs_exactly_one_separator() {
    assert_eq!(split_comment(""), None);
    assert_eq!(split_comment("BROKEN"), None);
    assert_eq!(split_comment("a=b=c"), None);
    assert_eq!(split_comment("=="), None);
    assert_eq!(split_comment("a=b="), None);
    assert_eq!(split_comment("=a=b"), None);
    assert_eq!(split_comment("a=b=c=d"), None);
}

#[test]
fn comment_block_is_decoded_from_its_body() {
    let mut body = comment_body(b"test-lib\0", &[b"TITLE=Song", b"ARTIST=Band"]);
    let length = body.len();
    body.extend_from_slice(b"what follows");
    let mut cursor = ByteCursor::new(&body);
    let data = parse_vorbis_comments(&mut cursor).unwrap();
    assert_eq!(cursor.position(), length);
    assert_eq!(data.vendor_string(), "test-lib\0");
    assert_eq!(data.title(), Some("Song"));
    assert_eq!(data.artist(), Some("Band"));
    assert_eq!(data.album(), None);
    assert_eq!(data.tracknumber(), None);
    let tags = data.map();
    assert_eq!(tags.len(), 2);
    assert_eq!(tags.keys(), &vec!["TITLE".to_string(), "ARTIST".to_string()]);
}

#[test]
fn comment_block_fails_as_its_first_bad_field_does() {
    let cases: Vec<(Vec<u8>, ParseError)> = vec![
        (vec![], ParseError::Truncated),
        (vec![1, 0, 0], ParseError::Truncated),
        (vec![2, 0, 0, 0, b'v'], ParseError::Truncated),
        (vec![1, 0, 0, 0, 0x80], ParseError::MalformedData),
        (vec![1, 0, 0, 0, 0x80, 9], ParseError::MalformedData),
        (vec![1, 0, 0, 0, b'v'], ParseError::Truncated),
        (vec![1, 0, 0, 0, b'v', 1, 0, 0, 0], ParseError::Truncated),
        (vec![1, 0, 0, 0, b'v', 1, 0, 0, 0, 3, 0, 0, 0, b'a', b'='], ParseError::Truncated),
        (vec![1, 0, 0, 0, b'v', 1, 0, 0, 0, 2, 0, 0, 0, b'a', 0xc3], ParseError::MalformedData),
        (vec![1, 0, 0, 0, b'v', 1, 0, 0, 0, 2, 0, 0, 0, b'a', b'b'], ParseError::MalformedData),
        (vec![1, 0, 0, 0, b'v', 2, 0, 0, 0, 2, 0, 0, 0, b'a', b'='], ParseError::Truncated),
        (vec![1, 0, 0, 0, b'v', 2, 0, 0, 0, 1, 0, 0, 0, b'a', 2, 0, 0, 0], ParseError::MalformedData),
    ];
    for (bytes, expected) in cases {
        let mut cursor = ByteCursor::new(&bytes);
        match parse_vorbis_comments(&mut cursor) {
            Ok(_) => panic!("decoded {:?}", bytes),
            Err(e) => assert_eq!(e, expected, "for {:?}", bytes),
        }
        assert!(cursor.position() <= bytes.len());
    }
}

#[test]
fn search_starts_behind_the_marker() {
    let body = comment_body(b"v", &[b"ALBUM=Record"]);
    let mut bytes = vec![0x00, 0x00, 0x00, 0x02, 0xaa, 0xbb];
    bytes.extend_from_slice(&[0x04, 0x00, 0x00, body.len() as u8]);
    bytes.extend_from_slice(&body);
    let mut cursor = ByteCursor::new(&bytes);
    let data = search_comment_block(&mut cursor).unwrap();
    assert_eq!(data.album(), Some("Record"));
    assert_eq!(data.vendor_string(), "v");
    assert_eq!(cursor.position(), bytes.len());

    let mut cursor = ByteCursor::new(&[0x80, 0x00, 0x00, 0x00]);
    assert!(matches!(search_comment_block(&mut cursor), Err(ParseError::NoCommentBlock)));
    let mut cursor = ByteCursor::new(&[0x00, 0x00, 0x00, 0x01]);
    assert!(matches!(search_comment_block(&mut cursor), Err(ParseError::Truncated)));
    let mut cursor = ByteCursor::new(&[0x00, 0x00, 0x00]);
    assert!(matches!(search_comment_block(&mut cursor), Err(ParseError::Truncated)));
}

#[test]
fn parser_is_made_behind_a_right_marker() {
    let body = comment_body(b"v", &[b"TRACKNUMBER=A3"]);
    let mut bytes = b"fLaC".to_vec();
    bytes.extend_from_slice(&[0x84, 0x00, 0x00, body.len() as u8]);
    bytes.extend_from_slice(&body);
    let mut cursor = ByteCursor::new(&bytes);
    {
        let mut parser = FlacParser::new(&mut cursor).ok().unwrap();
        let data = parser.parse().unwrap();
        assert_eq!(data.tracknumber(), Some("A3"));
        assert_eq!(data.vendor_string(), "v");
        let plain: MusicMetaData = data.into();
        assert_eq!(plain.tracknumber(), Some("A3"));
        assert_eq!(plain.title(), None);
    }
    assert_eq!(cursor.position(), bytes.len());
}

#[test]
fn parser_is_refused_without_a_marker() {
    let mut cursor = ByteCursor::new(b"RIFF....WAVE");
    assert!(matches!(FlacParser::new(&mut cursor), Err(ParseError::NotFlac)));
    assert_eq!(cursor.position(), 4);

    let mut cursor = ByteCursor::new(b"fL");
    assert!(matches!(FlacParser::new(&mut cursor), Err(ParseError::Truncated)));
    assert_eq!(cursor.position(), 0);
}
