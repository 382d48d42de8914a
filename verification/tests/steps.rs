use no_std_io::io::{copy_read_step, copy_write_step, write_all_step, CopyError, WriteAllError};
use no_std_io::streams::{
    bytewise_hint, clip, limited_read_result, limited_write_result, LimitedReader, LimitedReaderReadError,
    LimitedWriter, LimitedWriterWriteError, SliceReader,
};
use no_std_io::io::{Read, Write};
use no_std_io::cursor::Cursor;
use no_std_io::tar::errors::{ErrorSeverity, LimitExceededContext, TarParserErrorKind};
use no_std_io::tar::inode::{FilePermissions, Permission};
use no_std_io::tar::violations::{IgnoreTarViolationHandler, VHW};

#[test]
fn clip_gives_what_is_left_under_the_limit() {
    assert_eq!(clip(20, 0, 5), 5);
    assert_eq!(clip(3, 0, 5), 3);
    assert_eq!(clip(20, 4, 5), 1);
    assert_eq!(clip(0, 2, 5), 0);
}

#[test]
fn limited_results_pass_the_inner_result_on() {
    assert_eq!(limited_read_result::<u8>(2, 10, Ok(3)), (Ok(3), 5));
    assert_eq!(limited_read_result::<u8>(2, 10, Err(7)), (Err(LimitedReaderReadError::UnderlyingReadError(7)), 2));
    assert_eq!(limited_write_result::<u8>(0, 10, Ok(10)), (Ok(10), 10));
    assert_eq!(limited_write_result::<u8>(4, 10, Err(1)), (Err(LimitedWriterWriteError::UnderlyingWriteError(1)), 4));
}

#[test]
fn a_limited_reader_reads_nothing_into_an_empty_buffer_even_at_its_limit() {
    let mut reader = LimitedReader::new(SliceReader::new(b"ab"), 0);
    assert_eq!(reader.read(&mut []), Ok(0));
    let mut buf = [0u8; 2];
    assert_eq!(reader.read(&mut buf), Err(LimitedReaderReadError::ReadLimitExceeded(0)));
}

#[test]
fn a_limited_reader_reads_at_most_its_limit() {
    let mut src = Cursor::new(b"Rust programming language");
    let mut reader = LimitedReader::new(&mut src, 5);
    let mut buf = [0u8; 20];
    assert_eq!(reader.read(&mut buf), Ok(5));
    assert_eq!(&buf[..5], b"Rust ");
    assert!(reader.read(&mut buf).is_err());
}

#[test]
fn a_limited_writer_writes_nothing_for_an_empty_input_even_at_its_limit() {
    let mut target = Cursor::new([0u8; 4]);
    let mut writer = LimitedWriter::new(&mut target, 0);
    assert_eq!(writer.write(b"", false), Ok(0));
    assert_eq!(writer.write(b"x", false), Err(LimitedWriterWriteError::WriteLimitExceeded(0)));
}

#[test]
fn write_all_steps_on_or_stops() {
    assert_eq!(write_all_step::<u8>(2, 10, Ok(3)), Ok(5));
    assert_eq!(write_all_step::<u8>(2, 10, Ok(0)), Err(WriteAllError::ZeroWrite { bytes_written: 2 }));
    assert_eq!(write_all_step::<u8>(2, 10, Err(9)), Err(WriteAllError::Io(9)));
}

#[test]
fn copy_steps_on_or_stops() {
    assert_eq!(copy_read_step::<u8, u8>(Ok(4)), Ok(Some(4)));
    assert_eq!(copy_read_step::<u8, u8>(Ok(0)), Ok(None));
    assert_eq!(copy_read_step::<u8, u8>(Err(1)), Err(CopyError::Read(1)));
    assert_eq!(copy_write_step::<u8, u8>(Ok(())), Ok(()));
    assert_eq!(copy_write_step::<u8, u8>(Err(WriteAllError::ZeroWrite { bytes_written: 3 })), Err(CopyError::Write(WriteAllError::ZeroWrite { bytes_written: 3 })));
}

#[test]
fn only_the_last_byte_carries_the_hint() {
    assert!(bytewise_hint(2, 3, true));
    assert!(!bytewise_hint(1, 3, true));
    assert!(!bytewise_hint(2, 3, false));
}

#[test]
fn a_nul_terminated_mode_field_parses() {
    let rwx = Permission { read: true, write: true, execute: true };
    let rx = Permission { read: true, write: false, execute: true };
    assert_eq!(
        FilePermissions::parse_octal_ascii_unix_mode(b"0000755\0"),
        Some(FilePermissions { owner: rwx, group: rx, other: rx, set_uid: false, set_gid: false, sticky: false })
    );
    assert_eq!(FilePermissions::parse_octal_ascii_unix_mode(b" 4755 \0junk").map(|p| p.set_uid), Some(true));
    assert_eq!(FilePermissions::parse_octal_ascii_unix_mode(b"9\0"), None);
}

#[test]
fn fatal_violations_are_fatal() {
    let mut handler = IgnoreTarViolationHandler;
    let mut vh = VHW(&mut handler);
    let e = vh.hfve::<()>(TarParserErrorKind::LimitExceeded { limit: 1, context: LimitExceededContext::PaxKvKeyTooLong }).unwrap_err();
    assert!(matches!(e.severity, ErrorSeverity::Fatal));
    let e2 = vh.hfvr::<u8>(Err(TarParserErrorKind::LimitExceeded { limit: 1, context: LimitExceededContext::PaxKvKeyTooLong })).unwrap_err();
    assert!(e2.is_fatal());
    assert_eq!(vh.hfvr::<u8>(Ok(3)).unwrap(), 3);
}
