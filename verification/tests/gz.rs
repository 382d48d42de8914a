use no_std_io::gz::{GzHeader, GzHeaderError};
use no_std_io::streams::BufferWriter;

#[test]
fn written_header_reads_back() {
    let mut writer = BufferWriter::new(64);
    GzHeader { mtime: 0x1234_5678 }.write(&mut writer).unwrap();
    let mut bytes = writer.as_slice().to_vec();
    assert_eq!(bytes, [0x1F, 0x8B, 0x08, 0x00, 0x78, 0x56, 0x34, 0x12, 0x00, 0x03]);
    bytes.extend_from_slice(b"deflate data");
    let (length, header) = GzHeader::parse(&bytes).unwrap();
    assert_eq!(length, 10);
    assert_eq!(header.mtime, 0x1234_5678);
}

#[test]
fn optional_fields_are_skipped() {
    // FEXTRA with two bytes, FNAME, FCOMMENT and FHCRC.
    let mut bytes = vec![0x1F, 0x8B, 0x08, 0x04 | 0x08 | 0x10 | 0x02, 1, 0, 0, 0, 0, 3];
    bytes.extend_from_slice(&[2, 0, b'x', b'y']);
    bytes.extend_from_slice(b"name\0");
    bytes.extend_from_slice(b"comment\0");
    bytes.extend_from_slice(&[0xAA, 0xBB]);
    let header_length = bytes.len();
    bytes.extend_from_slice(b"rest");
    let (length, header) = GzHeader::parse(&bytes).unwrap();
    assert_eq!(length, header_length);
    assert_eq!(header.mtime, 1);
}

#[test]
fn each_problem_is_reported() {
    assert!(matches!(GzHeader::parse(&[0x1F, 0x8B, 8]), Err(GzHeaderError::BufferTooShort)));
    assert!(matches!(
        GzHeader::parse(&[0x1F, 0x00, 8, 0, 0, 0, 0, 0, 0, 3]),
        Err(GzHeaderError::InvalidMagicNumbers(0x1F, 0x00))
    ));
    assert!(matches!(
        GzHeader::parse(&[0x1F, 0x8B, 7, 0, 0, 0, 0, 0, 0, 3]),
        Err(GzHeaderError::InvalidCompressionMethod(7))
    ));
    assert!(matches!(
        GzHeader::parse(&[0x1F, 0x8B, 8, 0x04, 0, 0, 0, 0, 0, 3, 5]),
        Err(GzHeaderError::OptionalFieldTooShort)
    ));
    assert!(matches!(
        GzHeader::parse(&[0x1F, 0x8B, 8, 0x04, 0, 0, 0, 0, 0, 3, 5, 0, 1]),
        Err(GzHeaderError::OptionalFieldOutOfBounds)
    ));
    assert!(matches!(
        GzHeader::parse(&[0x1F, 0x8B, 8, 0x08, 0, 0, 0, 0, 0, 3, b'a', b'b']),
        Err(GzHeaderError::OptionalFieldOutOfBounds)
    ));
}
