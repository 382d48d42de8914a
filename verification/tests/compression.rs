use no_std_io::buffered::BufferedReader;
use no_std_io::buffers::LimitedBackingBuffer;
use no_std_io::compression::{CompressedReadError, CompressedReader, CompressedWriteError, CompressedWriter};
use no_std_io::cursor::Cursor;
use no_std_io::io::{copy, Read, Write, WriteAll};
use no_std_io::streams::{BytewiseReader, BytewiseWriter, SliceReader};

#[test]
fn test_compressed_writer_buffer_size_dynamic_questionmark() {
    let input_string = "Hello, world! This is a test of the BufferedWriter.".repeat(50);
    let uncompressed_data = input_string.as_bytes();

    let _reference_compressed_data = miniz_oxide::deflate::compress_to_vec_zlib(uncompressed_data, 6);

    let mut buffer_writer = Cursor::new([0; 128]);
    // A buffered writer can counteract the overhead of bytewise writing
    let mut bytewise_writer_after = BytewiseWriter::new(&mut buffer_writer);
    let mut compressed_writer = CompressedWriter::new(&mut bytewise_writer_after, 6, true, 1);
    let mut bytewise_writer_before = BytewiseWriter::new(&mut compressed_writer);
    bytewise_writer_before
        .write_all(uncompressed_data, false)
        .expect("Failed to write uncompressed data to compressed writer");
    bytewise_writer_before.flush().expect("Failed to flush compressed data");
    compressed_writer.finish().expect("Failed to finish compressed writer");
    let compressed_data = buffer_writer.before();
    let decompressed_data =
        miniz_oxide::inflate::decompress_to_vec_zlib(compressed_data).expect("Failed to decompress data");
    assert_eq!(decompressed_data, uncompressed_data);
}

fn test_compressed_writer(use_zlib: bool) {
    let uncompressed_data = b"Hello, world! This is a test of the CompressedWriter.";

    let _reference_compressed_data = if use_zlib {
        miniz_oxide::deflate::compress_to_vec_zlib(uncompressed_data, 6)
    } else {
        miniz_oxide::deflate::compress_to_vec(uncompressed_data, 6)
    };

    let mut buffer_writer = Cursor::new([0; 128]);
    let mut compressed_writer = CompressedWriter::new(&mut buffer_writer, 6, use_zlib, 128);
    compressed_writer
        .write_all(uncompressed_data, false)
        .expect("Failed to write uncompressed data to compressed writer");
    // check if it can survive a flush
    compressed_writer.flush().expect("Failed to flush compressed data");
    compressed_writer.finish().expect("Failed to finish compressed writer");
    let compressed_data = buffer_writer.before();
    let decompressed_data = if use_zlib {
        miniz_oxide::inflate::decompress_to_vec_zlib(compressed_data)
    } else {
        miniz_oxide::inflate::decompress_to_vec(compressed_data)
    }
    .expect("Failed to decompress data");
    assert_eq!(decompressed_data, uncompressed_data);
}

#[test]
fn test_compressed_writer_writes_correctly_raw() {
    test_compressed_writer(false);
}

#[test]
fn test_compressed_writer_writes_correctly_zlib() {
    test_compressed_writer(true);
}

#[test]
fn test_compressed_writer_writes_correctly_bytewise() {
    let uncompressed_data = b"Hello, world! This is a test of the CompressedWriter.";

    let _reference_compressed_data = miniz_oxide::deflate::compress_to_vec_zlib(uncompressed_data, 6);

    let mut buffer_writer = Cursor::new([0; 4096]);
    let mut bytewise_writer = BytewiseWriter::new(&mut buffer_writer);
    let mut compressed_writer = CompressedWriter::new(&mut bytewise_writer, 6, true, 128);
    compressed_writer
        .write_all(uncompressed_data, false)
        .expect("Failed to write uncompressed data to compressed writer");
    // check if it can survive a flush
    compressed_writer
        .flush()
        .unwrap_or_else(|e| panic!("Failed to flush compressed data: {:?}", e));
    compressed_writer.finish().expect("Failed to finish compressed writer");
    let compressed_data = buffer_writer.before();
    let decompressed_data =
        miniz_oxide::inflate::decompress_to_vec_zlib(compressed_data).expect("Failed to decompress data");
    assert_eq!(decompressed_data, uncompressed_data);
}

#[test]
fn a_finished_writer_refuses_more_data() {
    let mut target = Cursor::new(Vec::new());
    let mut compressed_writer = CompressedWriter::new(&mut target, 6, false, 64);
    compressed_writer.write_all(b"some data", false).unwrap();
    compressed_writer.finish().unwrap();
    assert!(compressed_writer.is_finished());
    assert!(matches!(compressed_writer.write(b"more", false), Err(CompressedWriteError::Finished)));
    assert!(matches!(compressed_writer.flush(), Err(CompressedWriteError::Finished)));
}

fn compressed_reader_simple_read(use_zlib: bool) {
    let uncompressed_data = b"Hello, world! This is a test of the CompressedReader.";
    let compressed_data = if use_zlib {
        miniz_oxide::deflate::compress_to_vec_zlib(uncompressed_data, 6)
    } else {
        miniz_oxide::deflate::compress_to_vec(uncompressed_data, 6)
    };

    let output_buffer = SliceReader::new(&compressed_data);
    let mut compressed_reader = CompressedReader::new(output_buffer, use_zlib, 4096);
    let mut storage: Vec<u8> = Vec::new();
    let mut limited = LimitedBackingBuffer::new(&mut storage, 1024);
    let mut buffered_reader = BufferedReader::new(&mut compressed_reader, &mut limited, 1);
    let bytes_read = buffered_reader.read_exact(uncompressed_data.len()).expect("Failed to read");
    assert_eq!(bytes_read, uncompressed_data);
}

#[test]
fn compressed_reader_reads_raw_correctly() {
    compressed_reader_simple_read(false);
}

#[test]
fn compressed_reader_reads_zlib_correctly() {
    compressed_reader_simple_read(true);
}

#[test]
fn compressed_reader_reads_correctly_bytewise() {
    let uncompressed_data = b"Hello, world! This is a test of the CompressedReader.";
    let compressed_data = miniz_oxide::deflate::compress_to_vec(uncompressed_data, 6);

    let output_buffer = BytewiseReader::new(SliceReader::new(&compressed_data));
    let mut compressed_reader = CompressedReader::new(output_buffer, false, 4096);
    let mut storage: Vec<u8> = Vec::new();
    let mut limited = LimitedBackingBuffer::new(&mut storage, 1024);
    let mut buffered_reader = BufferedReader::new(&mut compressed_reader, &mut limited, 1);
    let bytes_read = buffered_reader
        .read_exact(uncompressed_data.len())
        .unwrap_or_else(|e| panic!("Failed to read: {:?}", e));
    assert_eq!(bytes_read, uncompressed_data);
}

#[test]
fn a_cut_stream_is_an_unexpected_eof() {
    let uncompressed_data = b"Hello, world! This is a test of the CompressedReader.".repeat(20);
    let compressed_data = miniz_oxide::deflate::compress_to_vec(&uncompressed_data, 6);
    let cut = &compressed_data[..compressed_data.len() / 2];
    let mut compressed_reader = CompressedReader::new(SliceReader::new(cut), false, 16);
    let mut out = vec![0u8; 4096];
    let mut total = 0;
    let error = loop {
        match compressed_reader.read(&mut out[total..]) {
            Ok(0) => panic!("the stream ended without an error"),
            Ok(n) => total += n,
            Err(e) => break e,
        }
    };
    assert!(matches!(error, CompressedReadError::UnexpectedEof));
    assert!(total < uncompressed_data.len());
}

#[test]
fn compress_then_decompress_round_trips_through_copy() {
    let data = b"round trip through the compressed streams ".repeat(30);
    let mut compressed = Cursor::new(Vec::new());
    {
        let mut writer = CompressedWriter::new(&mut compressed, 9, true, 32);
        let mut source = SliceReader::new(&data);
        let mut transfer = [0u8; 100];
        assert_eq!(copy(&mut source, &mut writer, &mut transfer, false).unwrap(), data.len());
        writer.finish().unwrap();
    }
    let compressed_bytes = compressed.before().to_vec();
    let mut reader = CompressedReader::new(SliceReader::new(&compressed_bytes), true, 64);
    let mut restored = Cursor::new(Vec::new());
    let mut transfer = [0u8; 50];
    assert_eq!(copy(&mut reader, &mut restored, &mut transfer, false).unwrap(), data.len());
    assert_eq!(restored.before(), &data[..]);
}

#[test]
fn copy_with_an_empty_buffer_copies_nothing() {
    let mut source = SliceReader::new(b"abc");
    let mut target = Cursor::new(Vec::new());
    let mut transfer = [0u8; 0];
    assert_eq!(copy(&mut source, &mut target, &mut transfer, false).unwrap(), 0);
    assert_eq!(target.before(), b"");
}

#[test]
fn a_writer_with_no_room_for_output_takes_nothing_and_finishes_empty() {
    let mut target = Cursor::new(Vec::new());
    let mut compressed_writer = CompressedWriter::new(&mut target, 6, false, 0);
    assert!(matches!(
        compressed_writer.write(b"data", false),
        Err(CompressedWriteError::CompressorDidNotConsumeInput { bytes_input: 4, bytes_consumed: 0 })
    ));
    assert_eq!(compressed_writer.write(b"", false).unwrap(), 0);
    assert!(compressed_writer.finish().is_ok());
    assert!(compressed_writer.is_finished());
}
