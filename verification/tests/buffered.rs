use no_std_io::buffered::{BufferedReader, BufferedWriter};
use no_std_io::buffers::LimitedBackingBuffer;
use no_std_io::cursor::{Cursor, ReadExactError};
use no_std_io::io::{Read, Write, WriteAll};
use no_std_io::streams::{BytewiseReader, BytewiseWriter, SliceReader};

#[test]
fn reader_buffered_test_buffered_reader_exact_correct() {
    let source_data = [0, 1, 2, 3, 4, 5, 6, 7, 8, 9];
    let mut slice_reader = Cursor::new(&source_data);
    const MAX_BUFFER_SIZE: usize = 4;
    let mut backing_buffer = [0; MAX_BUFFER_SIZE];
    let mut reader = BufferedReader::new(&mut slice_reader, &mut backing_buffer, 1);

    // Read the first 3 bytes
    assert_eq!(reader.peek_exact(3).unwrap(), &[0, 1, 2]);
    assert_eq!(reader.read_exact(3).unwrap(), &[0, 1, 2]);

    // Read the next 4 bytes. The buffer should handle the internal offset.
    assert_eq!(reader.peek_exact(4).unwrap(), &[3, 4, 5, 6]);
    assert_eq!(reader.read_exact(4).unwrap(), &[3, 4, 5, 6]);

    // The remaining data in the source should be copied and returned.
    // don't peek here to test that too
    assert_eq!(reader.read_exact(3).unwrap(), &[7, 8, 9]);

    // Test MemoryLimitExceeded error
    assert_eq!(
        reader.read_exact(5).unwrap_err(),
        ReadExactError::MemoryLimitExceeded(MAX_BUFFER_SIZE)
    );

    // Test UnexpectedEof error
    assert_eq!(
        reader.read_exact(1).unwrap_err(),
        ReadExactError::UnexpectedEof { bytes_requested: 1, min_readable_bytes: 0 }
    );
}

#[test]
fn reader_buffered_test_buffered_reader_exact_correct_bytewise() {
    let source_data = b"Hello, world!";
    let mut slice_reader = Cursor::new(source_data);
    let mut bytewise_reader = BytewiseReader::new(&mut slice_reader);
    const MAX_BUFFER_SIZE: usize = 10;
    let mut backing_buffer = [0; MAX_BUFFER_SIZE];
    let mut buffered_reader = BufferedReader::new(&mut bytewise_reader, &mut backing_buffer, 1);
    // Read 5 bytes
    let bytes_read = buffered_reader.peek_exact(5).unwrap();
    assert_eq!(bytes_read, b"Hello");
    let bytes_read = buffered_reader.read_exact(5).unwrap();
    assert_eq!(bytes_read, b"Hello");
    // Read another 5 bytes
    let bytes_read = buffered_reader.read_exact(5).unwrap();
    assert_eq!(bytes_read, b", wor");
    // Read the remaining bytes
    let bytes_read = buffered_reader.read_exact(3).unwrap();
    assert_eq!(bytes_read, b"ld!");

    // Check that eof is handled correctly
    assert!(matches!(
        buffered_reader.read_exact(1).unwrap_err(),
        ReadExactError::UnexpectedEof { bytes_requested: 1, min_readable_bytes: 0 }
    ));
}

#[test]
fn reader_buffered_test_buffered_reader_as_reader() {
    let source_data = b"Hello, world!";
    let mut slice_reader = Cursor::new(source_data);
    const MAX_BUFFER_SIZE: usize = 10;
    let mut backing_buffer = [0; MAX_BUFFER_SIZE];
    let mut buffered_reader = BufferedReader::new(&mut slice_reader, &mut backing_buffer, 1);

    let mut output_buffer = [0; 100];

    let read_buffer = &mut output_buffer[..5];
    let bytes_read = buffered_reader.read(read_buffer).unwrap();
    assert_eq!(&read_buffer, b"Hello");
    assert_eq!(bytes_read, 5);

    // Test peeking
    let peek = buffered_reader.peek_exact(8).unwrap();
    assert_eq!(peek, b", world!");

    // Read the next 8 bytes
    let read_buffer = &mut output_buffer[..8];
    let bytes_read = buffered_reader.read(read_buffer).unwrap();
    assert_eq!(&read_buffer, b", world!");
    assert_eq!(bytes_read, 8);
}

#[test]
fn test_forked_buffered_reader() {
    let source_data = b"Hello, world!";
    let mut slice_reader = Cursor::new(source_data);
    const MAX_BUFFER_SIZE: usize = 12;
    let mut backing_buffer = [0; MAX_BUFFER_SIZE];
    let mut buffered_reader = BufferedReader::new(&mut slice_reader, &mut backing_buffer, 1);

    let mut forked_reader = buffered_reader.fork_reader();

    // Read the first 5 bytes
    assert_eq!(forked_reader.read_exact(5).unwrap(), b"Hello");

    let mut forked_forked_reader = forked_reader.fork_reader();
    // Peek the next 7 bytes without consuming them
    assert_eq!(forked_forked_reader.peek_exact(7).unwrap(), b", world");

    // Check that a forked reader works as a regular reader
    let mut output_buffer = [0; 7];
    let bytes_read = forked_forked_reader.read(&mut output_buffer).unwrap();
    assert_eq!(&output_buffer[..bytes_read], b", world");
    assert_eq!(bytes_read, 7);

    // Peek the next 7 bytes without consuming them
    assert_eq!(forked_reader.peek_exact(7).unwrap(), b", world");

    // Read the next 7 bytes
    assert_eq!(forked_reader.read_exact(7).unwrap(), b", world");

    // Check that out of memory error is handled correctly
    assert_eq!(
        forked_reader.read_exact(1).unwrap_err(),
        ReadExactError::MemoryLimitExceeded(MAX_BUFFER_SIZE)
    );

    // Check that we can still read from the parent buffered reader
    assert_eq!(buffered_reader.read_exact(2).unwrap(), b"He");
}

#[test]
fn test_buffered_writer_chunks_correctly_always_chunk() {
    let input_data = b"Hello, world! This is a test of the BufferedWriter.";
    let mut buffer_writer = Cursor::new([0; 128]);
    let mut bytewise_writer = BytewiseWriter::new(&mut buffer_writer);
    let mut buffered_writer = BufferedWriter::new(&mut bytewise_writer, 20, true);
    buffered_writer
        .write_all(input_data, false)
        .unwrap_or_else(|e| panic!("Failed to write data: {:?}", e));
    buffered_writer.flush().expect("Failed to flush buffered writer");
    let written_data = buffer_writer.before();
    assert_eq!(written_data, input_data);
}

#[test]
fn test_buffered_writer_chunks_correctly_chunk_when_necessary() {
    let input_data = b"Hello, world! This is a test of the BufferedWriter.";
    let mut buffer_writer = Cursor::new([0; 128]);
    let mut buffered_writer = BufferedWriter::new(&mut buffer_writer, 20, false);
    buffered_writer
        .write_all(&input_data[..30], false)
        .unwrap_or_else(|e| panic!("Failed to write data: {:?}", e));
    buffered_writer
        .write_all(&input_data[30..], false)
        .unwrap_or_else(|e| panic!("Failed to write data: {:?}", e));
    buffered_writer.flush().expect("Failed to flush buffered writer");
    let written_data = buffer_writer.before();
    assert_eq!(written_data, input_data);
}

#[test]
fn buffered_reader_reads_correctly() {
    let source_data = [0, 1, 2, 3, 4, 5, 6, 7, 8, 9];
    let mut mock_reader = SliceReader::new(&source_data);
    let mut storage: Vec<u8> = Vec::new();
    let mut limited = LimitedBackingBuffer::new(&mut storage, 4);
    let mut reader = BufferedReader::new(&mut mock_reader, &mut limited, 1);

    // Read the first 3 bytes
    assert_eq!(reader.read_exact(3).unwrap(), &[0, 1, 2]);

    // Read the next 4 bytes. The buffer should handle the internal offset.
    assert_eq!(reader.read_exact(4).unwrap(), &[3, 4, 5, 6]);

    // The remaining data in the source should be copied and returned.
    assert_eq!(reader.read_exact(3).unwrap(), &[7, 8, 9]);

    // Test MemoryLimitExceeded error
    assert!(matches!(reader.read_exact(5).unwrap_err(), ReadExactError::MemoryLimitExceeded(_)));

    // Test UnexpectedEof error
    assert!(matches!(reader.read_exact(1).unwrap_err(), ReadExactError::UnexpectedEof { .. }));
}

#[test]
fn buffered_reader_reads_correctly_bytewise() {
    let source_data = b"Hello, world!";
    let buffer_reader = SliceReader::new(source_data);
    let mut bytewise_reader = BytewiseReader::new(buffer_reader);
    let mut storage: Vec<u8> = Vec::new();
    let mut limited = LimitedBackingBuffer::new(&mut storage, 10);
    let mut buffered_reader = BufferedReader::new(&mut bytewise_reader, &mut limited, 1);
    // Read 5 bytes
    let bytes_read = buffered_reader.read_exact(5).unwrap();
    assert_eq!(bytes_read, b"Hello");
    // Read another 5 bytes
    let bytes_read = buffered_reader.read_exact(5).unwrap();
    assert_eq!(bytes_read, b", wor");
    // Read the remaining bytes
    let bytes_read = buffered_reader.read_exact(3).unwrap();
    assert_eq!(bytes_read, b"ld!");
}

#[test]
fn peeked_bytes_are_the_next_ones_read() {
    let source_data = b"abcdefgh";
    let mut source = BytewiseReader::new(SliceReader::new(source_data));
    let mut storage: Vec<u8> = Vec::new();
    let mut reader = BufferedReader::new(&mut source, &mut storage, 3);
    let peeked = reader.peek_exact(4).unwrap().to_vec();
    assert_eq!(reader.read_exact(2).unwrap(), &peeked[..2]);
    assert_eq!(reader.read_exact(2).unwrap(), &peeked[2..]);
    reader.skip(1).unwrap();
    assert_eq!(reader.read_exact(3).unwrap(), b"fgh");
}

#[test]
fn growing_buffer_grows_by_whole_chunks() {
    let source_data = [7u8; 20];
    let mut source = SliceReader::new(&source_data);
    let mut storage: Vec<u8> = Vec::new();
    {
        let mut reader = BufferedReader::new(&mut source, &mut storage, 8);
        assert_eq!(reader.read_exact(5).unwrap(), &[7u8; 5]);
        assert_eq!(reader.buffer_size_hint(), 8);
        assert_eq!(reader.buffered_len(), 3);
    }
    assert_eq!(storage.len(), 8);
}

#[test]
fn buffered_writer_hands_on_everything_after_flush() {
    let mut target = Cursor::new(Vec::new());
    {
        let mut writer = BufferedWriter::new(&mut target, 4, true);
        writer.write_all(b"abcdefghij", false).unwrap();
        writer.flush().unwrap();
    }
    assert_eq!(target.before(), b"abcdefghij");
}

#[test]
fn test_buffered_reader_exact_correct() {
    let source_data = [0, 1, 2, 3, 4, 5, 6, 7, 8, 9];
    let mut slice_reader = SliceReader::new(&source_data);
    let max_buffer_size = 4;
    let mut storage: Vec<u8> = Vec::new();
    let mut limited = LimitedBackingBuffer::new(&mut storage, max_buffer_size);
    let mut reader = BufferedReader::new(&mut slice_reader, &mut limited, 1);

    // Read the first 3 bytes
    assert_eq!(reader.peek_exact(3).unwrap(), &[0, 1, 2]);
    assert_eq!(reader.read_exact(3).unwrap(), &[0, 1, 2]);

    // Read the next 4 bytes. The buffer should handle the internal offset.
    assert_eq!(reader.peek_exact(4).unwrap(), &[3, 4, 5, 6]);
    assert_eq!(reader.read_exact(4).unwrap(), &[3, 4, 5, 6]);

    // The remaining data in the source should be copied and returned.
    // don't peek here to test that too
    assert_eq!(reader.read_exact(3).unwrap(), &[7, 8, 9]);

    // Test MemoryLimitExceeded error
    assert!(matches!(reader.read_exact(5).unwrap_err(), ReadExactError::MemoryLimitExceeded(m) if m == max_buffer_size));

    // Test UnexpectedEof error
    assert!(matches!(reader.read_exact(1).unwrap_err(), ReadExactError::UnexpectedEof { .. }));
}

#[test]
fn test_buffered_reader_exact_correct_bytewise() {
    let source_data = b"Hello, world!";
    let mut slice_reader = SliceReader::new(source_data);
    let mut bytewise_reader = BytewiseReader::new(&mut slice_reader);
    let mut storage: Vec<u8> = Vec::new();
    let mut limited = LimitedBackingBuffer::new(&mut storage, 10);
    let mut buffered_reader = BufferedReader::new(&mut bytewise_reader, &mut limited, 1);
    // Read 5 bytes
    let bytes_read = buffered_reader.peek_exact(5).unwrap();
    assert_eq!(bytes_read, b"Hello");
    let bytes_read = buffered_reader.read_exact(5).unwrap();
    assert_eq!(bytes_read, b"Hello");
    // Read another 5 bytes
    let bytes_read = buffered_reader.read_exact(5).unwrap();
    assert_eq!(bytes_read, b", wor");
    // Read the remaining bytes
    let bytes_read = buffered_reader.read_exact(3).unwrap();
    assert_eq!(bytes_read, b"ld!");

    // Check that eof is handled correctly
    assert!(matches!(buffered_reader.read_exact(1).unwrap_err(), ReadExactError::UnexpectedEof { .. }));
}

#[test]
fn test_buffered_reader_as_reader() {
    let source_data = b"Hello, world!";
    let mut slice_reader = SliceReader::new(source_data);
    let mut storage: Vec<u8> = Vec::new();
    let mut limited = LimitedBackingBuffer::new(&mut storage, 10);
    let mut buffered_reader = BufferedReader::new(&mut slice_reader, &mut limited, 1);

    let mut output_buffer = [0; 100];

    let read_buffer = &mut output_buffer[..5];
    let bytes_read = buffered_reader.read(read_buffer).unwrap();
    assert_eq!(&read_buffer, b"Hello");
    assert_eq!(bytes_read, 5);

    // Test peeking
    let peek = buffered_reader.peek_exact(8).unwrap();
    assert_eq!(peek, b", world!");

    // Read the next 8 bytes
    let read_buffer = &mut output_buffer[..8];
    let bytes_read = buffered_reader.read(read_buffer).unwrap();
    assert_eq!(&read_buffer, b", world!");
    assert_eq!(bytes_read, 8);
}
