use no_std_io::buffers::FixedSizeBufferError;
use no_std_io::cursor::{Cursor, CursorSeekError, ReadExactError, Seek, SeekFrom};
use no_std_io::io::{Read, Write};

#[test]
fn bi_cursor_test_cursor_reads_correctly() {
    let data = b"abcdef";

    let mut buf = [0u8; 3];

    let mut reader = Cursor::new(data);

    // First read
    let n = reader.read(&mut buf).unwrap();
    assert_eq!(n, 3);
    assert_eq!(&buf, b"abc");

    // Second read
    let n = reader.read(&mut buf).unwrap();
    assert_eq!(n, 3);
    assert_eq!(&buf, b"def");

    // Third read (should be EOF)
    let n = reader.read(&mut buf).unwrap();
    assert_eq!(n, 0);
}

#[test]
fn test_cursor_reads_correctly() {
    let data = b"abcdef";

    let mut buf = [0u8; 3];

    let mut reader = Cursor::new(data);

    // First read
    let n = reader.read(&mut buf).unwrap();
    assert_eq!(n, 3);
    assert_eq!(&buf, b"abc");

    // Second read
    let n = reader.read(&mut buf).unwrap();
    assert_eq!(n, 3);
    assert_eq!(&buf, b"def");

    // Third read (should be EOF)
    let n = reader.read(&mut buf).unwrap();
    assert_eq!(n, 0);
}

#[test]
fn test_cursor_writes_correctly() {
    let mut cursor_mut = Cursor::new([0u8; 6]);

    // First write
    let n = cursor_mut.write(b"abc", false).unwrap();
    assert_eq!(n, 3);
    assert_eq!(&cursor_mut.before(), b"abc");

    // Second write
    let n = cursor_mut.write(b"def", false).unwrap();
    assert_eq!(n, 3);
    assert_eq!(&cursor_mut.before(), b"abcdef");

    // Third write (should not write anything)
    assert_eq!(
        cursor_mut.write(b"oof", false).unwrap_err(),
        FixedSizeBufferError { fixed_buffer_size: 6, requested_size: 9 }
    );
}

#[test]
fn test_cursor_growing() {
    let mut cursor_mut = Cursor::new(Vec::new());
    let n = cursor_mut.write(b"abc", false).unwrap();
    assert_eq!(n, 3);
    assert_eq!(cursor_mut.before(), b"abc");
}

#[test]
fn cursor_reads_back_what_was_written() {
    let mut cursor = Cursor::new(Vec::new());
    cursor.write(b"hello world", false).unwrap();
    cursor.set_position(6);
    let mut buf = [0u8; 5];
    assert_eq!(cursor.read(&mut buf).unwrap(), 5);
    assert_eq!(&buf, b"world");
    assert_eq!(cursor.position(), 11);
}

#[test]
fn cursor_overwrites_in_the_middle() {
    let mut cursor = Cursor::new(Vec::new());
    cursor.write(b"abcdef", false).unwrap();
    cursor.set_position(2);
    cursor.write(b"XY", false).unwrap();
    assert_eq!(cursor.full_buffer(), b"abXYef");
    assert_eq!(cursor.before(), b"abXY");
    assert_eq!(cursor.after(), b"ef");
}

#[test]
fn cursor_exact_reads_and_peeks() {
    let data = [1u8, 2, 3, 4, 5];
    let mut cursor = Cursor::new(&data);
    assert_eq!(cursor.peek_exact(2).unwrap(), &[1, 2]);
    assert_eq!(cursor.read_exact(2).unwrap(), &[1, 2]);
    assert_eq!(cursor.remaining(), 3);
    cursor.skip(1);
    assert_eq!(cursor.read_exact(2).unwrap(), &[4, 5]);
    assert_eq!(
        cursor.read_exact(1).unwrap_err(),
        ReadExactError::UnexpectedEof { min_readable_bytes: 0, bytes_requested: 1 }
    );
}

#[test]
fn cursor_seek_fails_only_outside_the_integer_range() {
    let data = [0u8; 10];
    let mut cursor = Cursor::new(&data);
    assert_eq!(cursor.seek(SeekFrom::Start(4)).unwrap(), 4);
    assert_eq!(cursor.seek(SeekFrom::Current(3)).unwrap(), 7);
    assert_eq!(cursor.seek(SeekFrom::End(-2)).unwrap(), 8);
    assert!(matches!(
        cursor.seek(SeekFrom::Current(-20)),
        Err(CursorSeekError::OutOfBounds { position: 8, length: 10, .. })
    ));
    assert_eq!(cursor.position(), 8);
    // A position past the end is allowed; reads there give nothing.
    assert_eq!(cursor.seek(SeekFrom::Current(5)).unwrap(), 13);
    let mut buf = [0u8; 2];
    assert_eq!(cursor.read(&mut buf).unwrap(), 0);
}
