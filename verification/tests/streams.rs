use no_std_io::cursor::Cursor;
use no_std_io::io::{Read, Write, WriteAll, WriteAllError};
use no_std_io::streams::{
    BufferReader, BufferWriter, BytewiseReader, BytewiseWriter, EmptyStream, IoError, LimitedReader,
    LimitedReaderReadError, LimitedWriter, LimitedWriterWriteError, NullWriter, ReadLimited, SliceReader,
    SliceWriter, WriteLimited,
};

#[test]
fn buffer_reader_reads_correctly() {
    let data = b"abcdef";
    let mut reader = BufferReader::new(data);

    let mut buf = [0u8; 3];

    // First read
    let n = reader.read(&mut buf).unwrap();
    assert_eq!(n, 3);
    assert_eq!(&buf, b"abc");

    // Second read
    let n = reader.read(&mut buf).unwrap();
    assert_eq!(n, 3);
    assert_eq!(&buf, b"def");

    // Third read (should be EOF)
    let n = reader.read(&mut buf).unwrap();
    assert_eq!(n, 0);
}

#[test]
fn buffer_writer_writes_and_limits_buffer() {
    let mut writer = BufferWriter::new(10);

    // Write within limit
    let data1 = b"hello";
    assert_eq!(writer.write(data1, false).unwrap(), 5);
    assert_eq!(writer.as_slice(), b"hello");

    // Write more within remaining space
    let data2 = b"123";
    assert_eq!(writer.write(data2, false).unwrap(), 3);
    assert_eq!(writer.as_slice(), b"hello123");

    // Attempt to exceed limit
    let data3 = b"abcd"; // would exceed 10 bytes
    let result = writer.write(data3, false);
    assert!(matches!(result, Err(IoError::MemoryLimitExceeded)));
}

#[test]
fn test_limited_reader() {
    let data = b"Rust programming language";
    let mut slice_reader = Cursor::new(data);
    let mut reader = LimitedReader::new(&mut slice_reader, 5);

    let mut buf = [0u8; 20];

    // First read
    let n = reader.read(&mut buf).unwrap();
    assert_eq!(n, 5);
    assert_eq!(&buf[..n], b"Rust ");

    // Second read should exceed the limit
    assert!(reader.read(&mut buf).is_err());
}

#[test]
fn test_empty_write() {
    let mut writer = EmptyStream::new();
    let data = b"Hello, World!";
    writer.write_all(data, false).unwrap();
    assert_eq!(writer.flush(), Ok(()));
}

#[test]
fn test_empty_read() {
    let mut reader = EmptyStream::new();
    let mut buffer = [0u8; 10];
    let bytes_read = reader.read(&mut buffer).unwrap();
    assert_eq!(bytes_read, 0);
    assert_eq!(&buffer, &[0; 10]);
}

#[test]
fn test_limited_writer() {
    let data = b"HelloWorld!";
    let mut buffer_writer = Cursor::new([0; 100]);
    let mut limited_writer = LimitedWriter::new(&mut buffer_writer, 10);

    let write_result = limited_writer.write_all(data, false);
    assert!(matches!(
        write_result,
        Err(WriteAllError::Io(LimitedWriterWriteError::WriteLimitExceeded(10)))
    ));
    let written_data = buffer_writer.before();
    assert_eq!(written_data, b"HelloWorld");
}

#[test]
fn test_bytewise_writer_writes_correctly() {
    let mut buffer_writer = BufferWriter::new(usize::MAX);
    let mut writer = BytewiseWriter::new(&mut buffer_writer);

    // Input data to write
    let input = b"Rust";

    // Write the full buffer with sync_hint = true
    let bytes_written = writer.write(input, true).unwrap();
    assert_eq!(bytes_written, 4);

    // Flush should succeed
    assert!(writer.flush().is_ok());

    // Ensure all bytes were written correctly
    assert_eq!(buffer_writer.as_slice(), b"Rust");
}

#[test]
fn test_bytewise_writer_empty_input() {
    let mut buffer_writer = BufferWriter::new(usize::MAX);
    let mut writer = BytewiseWriter::new(&mut buffer_writer);

    // Write empty buffer
    let bytes_written = writer.write(&[], true).unwrap();
    assert_eq!(bytes_written, 0);

    // Ensure nothing was written
    assert!(buffer_writer.as_slice().is_empty());
}

#[test]
fn test_null_writer() {
    let mut writer = NullWriter::new();
    let data = b"Hello, World!";
    writer.write_all(data, false).unwrap();
    assert_eq!(writer.flush(), Ok(()));
}

#[test]
fn test_slice_writer_writes_correctly() {
    let mut data = [0u8; 6];
    let mut writer = SliceWriter::new(&mut data);

    // First write
    let n = writer.write(b"abc", false).unwrap();
    assert_eq!(n, 3);
    assert_eq!(&writer.as_slice()[..n], b"abc");

    // Second write
    let n = writer.write(b"def", false).unwrap();
    assert_eq!(n, 3);
    assert_eq!(&writer.as_slice(), b"abcdef");

    // Third write (should not write anything)
    let n = writer.write(b"oof", false).unwrap();
    assert_eq!(n, 0);
}

#[test]
fn bytewise_reader_reads_correctly() {
    let data = b"Rust";
    let mut reader = BytewiseReader::new(SliceReader::new(data));

    // Create a buffer that is larger than 1 to prove it only reads a single byte.
    let mut buf = [0u8; 5];

    // First read
    let n = reader.read(&mut buf).unwrap();
    assert_eq!(n, 1);
    assert_eq!(buf[0], b'R');

    // Second read
    let n = reader.read(&mut buf).unwrap();
    assert_eq!(n, 1);
    assert_eq!(buf[0], b'u');

    // Third read
    let n = reader.read(&mut buf).unwrap();
    assert_eq!(n, 1);
    assert_eq!(buf[0], b's');

    // Fourth read
    let n = reader.read(&mut buf).unwrap();
    assert_eq!(n, 1);
    assert_eq!(buf[0], b't');

    // Fifth read (should be EOF)
    let n = reader.read(&mut buf).unwrap();
    assert_eq!(n, 0);

    // Subsequent reads should also be EOF
    let n = reader.read(&mut buf).unwrap();
    assert_eq!(n, 0);
}

#[test]
fn test_slice_reader_reads_correctly() {
    let data = b"abcdef";
    let mut reader = SliceReader::new(data);

    let mut buf = [0u8; 3];

    // First read
    let n = reader.read(&mut buf).unwrap();
    assert_eq!(n, 3);
    assert_eq!(&buf, b"abc");

    // Second read
    let n = reader.read(&mut buf).unwrap();
    assert_eq!(n, 3);
    assert_eq!(&buf, b"def");

    // Third read (should be EOF)
    let n = reader.read(&mut buf).unwrap();
    assert_eq!(n, 0);
}

#[test]
fn limited_reader_never_hands_out_more_than_its_limit() {
    let data = b"0123456789";
    let mut source = SliceReader::new(data);
    let mut reader = source.take(4);
    let mut buf = [0u8; 3];
    assert_eq!(reader.read(&mut buf).unwrap(), 3);
    assert_eq!(&buf, b"012");
    assert_eq!(reader.read(&mut buf).unwrap(), 1);
    assert_eq!(buf[0], b'3');
    assert_eq!(reader.bytes_read(), 4);
    assert_eq!(reader.read(&mut buf), Err(LimitedReaderReadError::ReadLimitExceeded(4)));
}

#[test]
fn limited_writer_passes_on_up_to_its_limit() {
    let mut target = BufferWriter::new(100);
    {
        let mut writer = target.put(3);
        assert_eq!(writer.write(b"abcdef", false).unwrap(), 3);
        assert_eq!(writer.bytes_written(), 3);
        assert_eq!(
            writer.write(b"g", false),
            Err(LimitedWriterWriteError::WriteLimitExceeded(3))
        );
    }
    assert_eq!(target.as_slice(), b"abc");
}

#[test]
fn buffer_writer_rejects_a_write_past_its_size_and_keeps_the_data() {
    let mut writer = BufferWriter::new(3);
    assert_eq!(writer.write(b"ab", false).unwrap(), 2);
    assert!(matches!(writer.write(b"cd", false), Err(IoError::MemoryLimitExceeded)));
    assert_eq!(writer.as_slice(), b"ab");
    assert_eq!(writer.write(b"c", false).unwrap(), 1);
    assert_eq!(writer.as_slice(), b"abc");
}

#[test]
fn slice_writer_fills_up_to_the_end_of_its_slice() {
    let mut data = [0u8; 4];
    let mut writer = SliceWriter::new(&mut data);
    assert_eq!(writer.remaining_capacity(), 4);
    assert_eq!(writer.write(b"abcdef", false).unwrap(), 4);
    assert_eq!(writer.remaining_capacity(), 0);
    writer.as_mut_slice()[0] = b'x';
    assert_eq!(writer.as_slice(), b"xbcd");
}

#[test]
fn slice_writes_in_pieces_end_as_one_whole_write() {
    let mut pieces = [0u8; 5];
    let mut whole = [0u8; 5];
    {
        let mut writer = SliceWriter::new(&mut pieces);
        assert_eq!(writer.write(b"abc", false).unwrap(), 3);
        assert_eq!(writer.write(b"defg", false).unwrap(), 2);
    }
    {
        let mut writer = SliceWriter::new(&mut whole);
        assert_eq!(writer.write(b"abcdefg", false).unwrap(), 5);
    }
    assert_eq!(pieces, whole);
    assert_eq!(&pieces, b"abcde");
}
