use no_std_io::buffers::{BackingBufferMut, LimitedBackingBuffer};
use no_std_io::io::Write;
use no_std_io::streams::{BufferWriter, IoError, LimitedWriter, LimitedWriterWriteError, SliceWriter};
use no_std_io::tar::text::{parse_uint, IntErrorKind};
use miniz_oxide::MZError;
use no_std_io::compression::{
    deflate_outcome_step, flush_mode_for, inflate_outcome_step, CompressedReadError, CompressedWriteError, FlushMode,
    StreamOutcome, StreamStatus,
};
use no_std_io::tar::maps::StringMap;
use no_std_io::tar::pax::PaxParser;
use no_std_io::tar::sparse_format::SparseFormat;
use no_std_io::tar::violations::{StrictTarViolationHandler, VHW};

fn outcome(bytes_consumed: usize, bytes_written: usize, status: StreamStatus) -> StreamOutcome {
    StreamOutcome { bytes_consumed, bytes_written, status }
}

#[test]
fn a_sync_hint_asks_for_a_sync_flush() {
    assert_eq!(flush_mode_for(true), FlushMode::Sync);
    assert_eq!(flush_mode_for(false), FlushMode::NoFlush);
}

#[test]
fn a_deflate_step_hands_on_what_the_compressor_wrote() {
    assert_eq!(deflate_outcome_step::<u8, u8>(outcome(7, 3, StreamStatus::Progress), 7), Ok((3, false)));
    assert_eq!(deflate_outcome_step::<u8, u8>(outcome(7, 0, StreamStatus::BufError), 7), Ok((0, false)));
    assert_eq!(deflate_outcome_step::<u8, u8>(outcome(0, 9, StreamStatus::StreamEnd), 0), Ok((9, true)));
}

#[test]
fn a_deflate_step_that_leaves_input_is_refused() {
    assert_eq!(
        deflate_outcome_step::<u8, u8>(outcome(4, 3, StreamStatus::Progress), 7),
        Err(CompressedWriteError::CompressorDidNotConsumeInput { bytes_input: 7, bytes_consumed: 4 })
    );
}

#[test]
fn a_failed_deflate_step_gives_the_compressor_error() {
    assert_eq!(
        deflate_outcome_step::<u8, u8>(outcome(2, 0, StreamStatus::Failed(MZError::Data)), 2),
        Err(CompressedWriteError::MZError(MZError::Data))
    );
}

#[test]
fn an_inflate_step_hands_out_what_the_decompressor_wrote() {
    assert!(matches!(inflate_outcome_step::<u8>(outcome(5, 12, StreamStatus::Progress), 5), Ok(Some(12))));
    assert!(matches!(inflate_outcome_step::<u8>(outcome(5, 0, StreamStatus::Progress), 5), Ok(None)));
    assert!(matches!(inflate_outcome_step::<u8>(outcome(3, 0, StreamStatus::StreamEnd), 3), Ok(Some(0))));
    assert!(matches!(inflate_outcome_step::<u8>(outcome(3, 4, StreamStatus::NeedDict), 3), Ok(None)));
    assert!(matches!(inflate_outcome_step::<u8>(outcome(3, 0, StreamStatus::BufError), 3), Ok(None)));
}

#[test]
fn an_inflate_step_with_nothing_read_and_no_progress_is_an_unexpected_eof() {
    assert!(matches!(
        inflate_outcome_step::<u8>(outcome(0, 0, StreamStatus::BufError), 0),
        Err(CompressedReadError::UnexpectedEof)
    ));
}

#[test]
fn an_inflate_step_that_leaves_input_or_fails_is_an_error() {
    assert!(matches!(
        inflate_outcome_step::<u8>(outcome(1, 0, StreamStatus::Progress), 6),
        Err(CompressedReadError::DecompressorDidNotConsumeInput { bytes_input: 6, bytes_consumed: 1 })
    ));
    assert!(matches!(
        inflate_outcome_step::<u8>(outcome(6, 0, StreamStatus::Failed(MZError::Data)), 6),
        Err(CompressedReadError::MZError(MZError::Data))
    ));
}

fn strict_parser() -> PaxParser {
    PaxParser::try_new(
        &mut VHW(&mut StrictTarViolationHandler::default()),
        StringMap::new(),
        usize::MAX,
        usize::MAX,
        usize::MAX,
        usize::MAX,
        usize::MAX,
    )
    .expect("Failed to create PaxParser")
}

#[test]
fn gnu_sparse_major_and_minor_name_the_sparse_format() {
    let mut vh = StrictTarViolationHandler::default();
    let mut parser = strict_parser();
    assert_eq!(parser.get_sparse_format(), None);
    parser.parse(&mut VHW(&mut vh), b"22 GNU.sparse.major=1\n22 GNU.sparse.minor=0\n").unwrap();
    assert_eq!(parser.get_sparse_format(), Some(SparseFormat::Gnu1_0));

    let mut parser = strict_parser();
    parser.parse(&mut VHW(&mut vh), b"22 GNU.sparse.major=0\n22 GNU.sparse.minor=1\n").unwrap();
    assert_eq!(parser.get_sparse_format(), Some(SparseFormat::Gnu0_1));
}

#[test]
fn recovering_forgets_the_local_attributes() {
    let mut vh = StrictTarViolationHandler::default();
    let mut parser = strict_parser();
    parser
        .parse(
            &mut VHW(&mut vh),
            b"20 atime=1749803808\n20 ctime=1749803809\n22 GNU.sparse.major=1\n18 path=some/file\n",
        )
        .unwrap();
    assert!(parser.atime().get().is_some());
    parser.recover();
    assert_eq!(parser.atime().get(), None);
    assert_eq!(parser.ctime().get(), None);
    assert_eq!(parser.path().get(), None);
    assert_eq!(parser.get_sparse_format(), None);
    assert!(parser.is_at_record_start());
}

#[test]
fn a_buffer_writer_keeps_the_writes_that_fit() {
    let mut w = BufferWriter::new(5);
    assert_eq!(w.write(b"abc", false), Ok(3));
    assert_eq!(w.write(b"def", false), Err(IoError::MemoryLimitExceeded));
    assert_eq!(w.as_slice(), b"abc");
    assert_eq!(w.write(b"de", false), Ok(2));
    assert_eq!(w.as_slice(), b"abcde");
    assert_eq!(w.write(b"", false), Ok(0));
    assert_eq!(w.write(b"f", false), Err(IoError::MemoryLimitExceeded));
    assert_eq!(w.as_slice(), b"abcde");
}

#[test]
fn a_slice_writer_takes_what_fits_and_leaves_the_rest() {
    let mut target = [b'.'; 6];
    let mut w = SliceWriter::new(&mut target);
    assert_eq!(w.write(b"abc", false), Ok(3));
    assert_eq!(w.remaining_capacity(), 3);
    assert_eq!(w.write(b"de", false), Ok(2));
    assert_eq!(w.as_slice(), b"abcde.");
    assert_eq!(w.write(b"fgh", false), Ok(1));
    assert_eq!(w.remaining_capacity(), 0);
    assert_eq!(w.write(b"ij", false), Ok(0));
    assert_eq!(w.as_slice(), b"abcdef");
}

#[test]
fn a_limited_writer_counts_what_it_passes_on() {
    let mut w = LimitedWriter::new(BufferWriter::new(100), 5);
    assert_eq!(w.write(b"abc", false), Ok(3));
    assert_eq!(w.write(b"defg", false), Ok(2));
    assert_eq!(w.bytes_written(), 5);
    assert_eq!(w.write(b"h", false), Err(LimitedWriterWriteError::WriteLimitExceeded(5)));
    assert_eq!(w.bytes_written(), 5);
}

#[test]
fn numbers_are_parsed_in_any_radix_up_to_thirty_six() {
    assert_eq!(parse_uint(b"ff", 16, u64::MAX), Ok(255));
    assert_eq!(parse_uint(b"FF", 16, u64::MAX), Ok(255));
    assert_eq!(parse_uint(b"+z", 36, u64::MAX), Ok(35));
    assert_eq!(parse_uint(b"777", 8, u64::MAX), Ok(511));
    assert_eq!(parse_uint(b"8", 8, u64::MAX).map_err(|e| e.kind), Err(IntErrorKind::InvalidDigit));
    assert_eq!(parse_uint(b"g", 16, u64::MAX).map_err(|e| e.kind), Err(IntErrorKind::InvalidDigit));
    assert_eq!(parse_uint(b"100", 16, 255).map_err(|e| e.kind), Err(IntErrorKind::PosOverflow));
    assert_eq!(parse_uint(b"", 10, u64::MAX).map_err(|e| e.kind), Err(IntErrorKind::Empty));
}

#[test]
fn a_limited_backing_buffer_lends_out_its_buffer() {
    let mut storage: Vec<u8> = vec![1, 2];
    let mut limited = LimitedBackingBuffer::new(&mut storage, 4);
    limited.backing_buffer_mut().push(3);
    assert_eq!(limited.backing_buffer(), &vec![1, 2, 3]);
    assert!(matches!(limited.try_resize(5), Err(_)));
    assert_eq!(limited.backing_buffer().len(), 3);
}
