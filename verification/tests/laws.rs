use no_std_io::buffered::{BufferedReader, BufferedWriter};
use no_std_io::io::{copy, read_all, write_all, Read, ReadAllError, Write, WriteAllError};
use no_std_io::streams::{BufferReader, BufferWriter, BytewiseReader, SliceReader, SliceWriter};
use no_std_io::tar::confident::{ConfidentValue, PaxConfidence, PaxConfidentValue, TarConfidence};
use no_std_io::tar::header::TarTypeFlag;
use no_std_io::tar::inode::GetOrInsertWithMaybe;
use no_std_io::tar::sparse_format::SparseFormat;

#[test]
fn type_flags_round_trip_through_their_byte() {
    for value in 0u8..=255 {
        let flag = TarTypeFlag::from(value);
        let byte = u8::from(flag);
        assert_eq!(TarTypeFlag::from(byte), flag);
        if value != b'0' {
            assert_eq!(byte, value);
        }
    }
    assert_eq!(TarTypeFlag::from(b'0'), TarTypeFlag::RegularFile);
    assert_eq!(TarTypeFlag::from(0u8), TarTypeFlag::RegularFile);
    assert_eq!(TarTypeFlag::from(b'x'), TarTypeFlag::PaxExtendedHeader);
    assert_eq!(TarTypeFlag::from(b'Q'), TarTypeFlag::UnknownTypeFlag(b'Q'));
}

#[test]
fn sparse_formats_round_trip_through_their_version() {
    for format in [
        SparseFormat::Gnu0_0,
        SparseFormat::Gnu0_1,
        SparseFormat::Gnu1_0,
        SparseFormat::GnuUnknownSparseFormat { major: 2, minor: 7 },
    ] {
        let (major, minor) = format.get_major_minor();
        assert_eq!(SparseFormat::try_from_gnu_version(Some(major), Some(minor)), Some(format));
    }
    // The old format shares its version with 0.0.
    assert_eq!(SparseFormat::try_from_gnu_version(Some(0), Some(0)), Some(SparseFormat::Gnu0_0));
    assert_eq!(SparseFormat::try_from_gnu_version(None, None), None);
    assert_eq!(SparseFormat::GnuUnknownSparseFormat { major: 12, minor: 3 }.to_version_string(), "gnu_12.3");
}

#[test]
fn a_more_trusted_value_is_never_replaced_by_a_less_trusted_one() {
    let mut value = ConfidentValue::new();
    value.set(TarConfidence::Gnu, 5u32);
    let mut weaker = ConfidentValue::new();
    weaker.set(TarConfidence::V7, 1u32);
    assert_eq!(value.update_with(weaker), Some(&5));
    assert_eq!(value.get_with_confidence(), Some((&TarConfidence::Gnu, &5)));
    let mut stronger = ConfidentValue::new();
    stronger.set(TarConfidence::PaxLocal, 9u32);
    assert_eq!(value.update_with(stronger), Some(&9));
    assert!(value.has_superior_confidence(TarConfidence::PaxGlobal));
    assert!(!value.has_superior_confidence(TarConfidence::PaxLocal));
}

#[test]
fn a_local_value_shadows_the_global_one() {
    let mut value = PaxConfidentValue::new();
    value.insert_with_confidence(PaxConfidence::GLOBAL, 1u32);
    assert_eq!(value.get(), Some(&1));
    value.insert_with_confidence(PaxConfidence::LOCAL, 2u32);
    assert_eq!(value.get_with_confidence(), Some((PaxConfidence::LOCAL, &2)));
    value.reset_local();
    assert_eq!(value.get_with_confidence(), Some((PaxConfidence::GLOBAL, &1)));
}

#[test]
fn copy_hands_the_writer_every_byte_read_in_order() {
    let data: Vec<u8> = (0u8..=200).collect();
    let mut reader = BytewiseReader::new(SliceReader::new(&data));
    let mut writer = BufferWriter::new(usize::MAX);
    let mut transfer = [0u8; 7];
    let total = copy(&mut reader, &mut writer, &mut transfer, false).unwrap();
    assert_eq!(total, data.len());
    assert_eq!(writer.as_slice(), &data[..]);
}

#[test]
fn write_all_stops_with_the_prefix_the_writer_took() {
    let mut target = [0u8; 5];
    let mut writer = SliceWriter::new(&mut target);
    assert_eq!(
        write_all(&mut writer, b"abcdefgh", false),
        Err(WriteAllError::ZeroWrite { bytes_written: 5 })
    );
    assert_eq!(writer.as_slice(), b"abcde");
}

#[test]
fn read_all_fills_the_buffer_from_the_front_of_the_stream() {
    let data = b"0123456789";
    let mut reader = BufferReader::new(data);
    let mut out = [0u8; 4];
    read_all(&mut reader, &mut out).unwrap();
    assert_eq!(&out, b"0123");
    read_all(&mut reader, &mut out).unwrap();
    assert_eq!(&out, b"4567");
    let mut rest = [9u8; 4];
    assert_eq!(
        read_all(&mut reader, &mut rest),
        Err(ReadAllError::UnexpectedEof { bytes_requested: 4, bytes_read: 2 })
    );
    assert_eq!(&rest[..2], b"89");
}

#[test]
fn a_flushed_buffered_writer_has_handed_on_everything_written() {
    let mut target = BufferWriter::new(usize::MAX);
    {
        let mut writer = BufferedWriter::new(&mut target, 4, true);
        for piece in [&b"ab"[..], b"cde", b"", b"fghij"] {
            let mut rest = piece;
            while !rest.is_empty() {
                let n = writer.write(rest, false).unwrap();
                rest = &rest[n..];
            }
        }
        writer.flush().unwrap();
    }
    assert_eq!(target.as_slice(), b"abcdefghij");
}

#[test]
fn a_buffered_reader_hands_out_its_source_in_order() {
    let data: Vec<u8> = (0u8..100).collect();
    let mut source = BytewiseReader::new(SliceReader::new(&data));
    let mut backing = vec![0u8; 8];
    let mut reader = BufferedReader::new(&mut source, &mut backing, 3);
    let mut seen: Vec<u8> = Vec::new();
    seen.extend_from_slice(reader.read_exact(5).unwrap());
    let peeked = reader.peek_exact(4).unwrap().to_vec();
    let mut out = [0u8; 6];
    let n = reader.read(&mut out).unwrap();
    assert_eq!(&out[..4], &peeked[..]);
    seen.extend_from_slice(&out[..n]);
    reader.skip(2).unwrap();
    seen.extend_from_slice(&data[seen.len()..seen.len() + 2]);
    loop {
        let mut chunk = [0u8; 20];
        let n = reader.read(&mut chunk).unwrap();
        if n == 0 {
            break;
        }
        seen.extend_from_slice(&chunk[..n]);
    }
    assert_eq!(seen, data);
}

#[test]
fn the_value_that_counts_can_be_changed_in_place() {
    let mut v: PaxConfidentValue<u32> = PaxConfidentValue::new();
    assert!(v.get_mut().is_none());
    v.insert_with_confidence(PaxConfidence::GLOBAL, 3);
    *v.get_mut().unwrap() = 7;
    assert_eq!(v.get(), Some(&7));
    v.insert_with_confidence(PaxConfidence::LOCAL, 1);
    *v.get_mut().unwrap() = 2;
    assert_eq!(v.get(), Some(&2));
    v.reset_local();
    assert_eq!(v.get(), Some(&7));
}

#[test]
fn an_empty_value_is_filled_only_when_the_closure_has_one() {
    let mut a: Option<u32> = None;
    *a.get_or_insert_with_maybe(|| Some(5)).unwrap() += 1;
    assert_eq!(a, Some(6));
    let mut b: Option<u32> = None;
    assert!(b.get_or_insert_with_maybe(|| None).is_none());
    assert_eq!(b, None);
    let mut c = Some(1u32);
    assert_eq!(*c.get_or_insert_with_maybe(|| Some(9)).unwrap(), 1);
    assert_eq!(c, Some(1));
}
