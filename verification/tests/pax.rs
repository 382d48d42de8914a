use no_std_io::tar::confident::PaxConfidence;
use no_std_io::tar::errors::{
    CorruptFieldContext, GeneralParseError, PaxParserError, TarParserError, TarParserErrorKind,
};
use no_std_io::tar::header::BLOCK_SIZE;
use no_std_io::tar::inode::{SparseFileInstruction, TimeStamp};
use no_std_io::tar::limited::LimitedVec;
use no_std_io::tar::maps::StringMap;
use no_std_io::tar::pax::PaxParser;
use no_std_io::tar::sparse1::GnuSparse1_0Parser;
use no_std_io::tar::violations::{
    IgnoreTarViolationHandler, StrictTarViolationHandler, TarViolationHandler, VHW,
};

fn new_strict_parser() -> PaxParser {
    PaxParser::try_new(
        &mut VHW(&mut StrictTarViolationHandler::default()),
        StringMap::new(),
        usize::MAX,
        usize::MAX,
        usize::MAX,
        usize::MAX,
        usize::MAX,
    )
    .expect("Failed to create PaxParser")
}

fn drive_parser<VH: TarViolationHandler + Default>(
    parser: &mut PaxParser,
    input: &[u8],
    bytewise: bool,
) -> Result<(), TarParserError> {
    let mut vh = VH::default();
    let vh = &mut VHW(&mut vh);
    if bytewise {
        // If bytewise parsing is requested, we will parse one byte at a time.
        for &byte in input.iter() {
            let byte = [byte];
            parser.parse(vh, byte.as_slice())?;
        }
        return Ok(());
    }
    parser.parse(vh, input)?;
    Ok(())
}

#[test]
fn test_new_with_initial_global_attributes() {
    let mut globals = StringMap::new();
    globals.insert("gname".to_string(), "wheel".to_string());
    globals.insert("uid".to_string(), "0".to_string());

    let mut vh = IgnoreTarViolationHandler::default();
    let vh = &mut VHW(&mut vh);
    let parser = PaxParser::try_new(vh, globals, usize::MAX, usize::MAX, usize::MAX, usize::MAX, usize::MAX)
        .expect("Failed to create PaxParser with initial global attributes");

    assert_eq!(
        parser.gname().get_with_confidence(),
        Some((PaxConfidence::GLOBAL, &"wheel".to_string()))
    );
    assert_eq!(parser.uid().get_with_confidence(), Some((PaxConfidence::GLOBAL, &0)));
    assert_eq!(parser.unparsed_global_attributes().len(), 0); // Parsed globals are not in the unparsed map.
}

#[test]
fn test_simple_kv_parsing() {
    let mut parser = new_strict_parser();
    let data = b"18 path=some/file\n";
    drive_parser::<StrictTarViolationHandler>(&mut parser, data, false).unwrap();

    assert_eq!(parser.path().get(), Some(&"some/file".to_string()));
    assert!(parser.is_at_record_start());
}

#[test]
fn test_multiple_kv_parsing() {
    let mut parser = new_strict_parser();
    let data = b"18 path=some/file\n12 size=123\n12 uid=1000\n";
    drive_parser::<StrictTarViolationHandler>(&mut parser, data, false).unwrap();

    assert_eq!(parser.path().get(), Some(&"some/file".to_string()));
    assert!(parser.is_at_record_start());
}

#[test]
fn test_multiple_kv_parsing_from_archive() {
    let mut parser = new_strict_parser();
    let data = b"30 mtime=1749954382.774290089\n20 atime=1749803808\n30 ctime=1749954382.774290089\n";
    drive_parser::<StrictTarViolationHandler>(&mut parser, data, true).unwrap();

    assert_eq!(
        parser.mtime().get(),
        Some(&TimeStamp { seconds_since_epoch: 1749954382, nanoseconds: 774290089 })
    );
    assert_eq!(
        parser.atime().get(),
        Some(&TimeStamp { seconds_since_epoch: 1749803808, nanoseconds: 0 })
    );
    assert_eq!(
        parser.ctime().get(),
        Some(&TimeStamp { seconds_since_epoch: 1749954382, nanoseconds: 774290089 })
    );
    assert!(parser.is_at_record_start());
}

#[test]
fn test_gnu_sparse_map_0_1() {
    let mut parser = new_strict_parser();
    let data = b"45 GNU.sparse.map=1024,512,8192,2048,16384,0\n";
    drive_parser::<StrictTarViolationHandler>(&mut parser, data, false).unwrap();

    let expected = LimitedVec::from_vec(
        usize::MAX,
        vec![
            SparseFileInstruction { offset_before: 1024, data_size: 512 },
            SparseFileInstruction { offset_before: 8192, data_size: 2048 },
            SparseFileInstruction { offset_before: 16384, data_size: 0 },
        ],
    );
    assert_eq!(parser.gnu_sparse_map_local(), &expected);
}

#[test]
fn test_unparsed_attributes_and_drain() {
    let mut parser = new_strict_parser();
    let data = b"21 SCHILY.fflags=bar\n12 uid=1000\n";
    drive_parser::<StrictTarViolationHandler>(&mut parser, data, false).unwrap();

    assert_eq!(parser.unparsed_local_attributes().len(), 1);
    assert_eq!(
        parser.unparsed_local_attributes().get("SCHILY.fflags"),
        Some(&"bar".to_string())
    );

    let drained = parser.drain_local_unparsed_attributes();

    assert_eq!(drained.len(), 1);
    assert_eq!(drained.get("SCHILY.fflags"), Some(&"bar".to_string()));
    assert!(parser.unparsed_local_attributes().is_empty());
}

#[test]
fn test_parser_error_bad_length() {
    let mut parser = new_strict_parser();
    let data = b"abc path=foo\n";
    let result = drive_parser::<StrictTarViolationHandler>(&mut parser, data, false);
    assert!(matches!(
        result,
        Err(TarParserError {
            kind: TarParserErrorKind::CorruptField {
                field: CorruptFieldContext::PaxKvLength,
                error: GeneralParseError::InvalidInteger(_),
            },
            ..
        })
    ));
}

#[test]
fn test_parser_error_bad_value() {
    let mut parser = new_strict_parser();
    let data = b"12 path=foo ";
    let result = drive_parser::<StrictTarViolationHandler>(&mut parser, data, false);
    assert_eq!(
        result.map_err(|e| e.kind),
        Err(TarParserErrorKind::PaxParserError(PaxParserError::KeyValuePairMissingNewline))
    );
}

fn drive_sparse_parser(
    parser: &mut GnuSparse1_0Parser,
    input: &[u8],
) -> Result<LimitedVec<SparseFileInstruction>, TarParserError> {
    // Pad the input to a multiple of 512 bytes
    let padding_length = (input.len() + 511) & !511;
    let mut input_padded = vec![0; padding_length];
    input_padded[..input.len()].copy_from_slice(input);
    let mut pos = 0;
    let mut sparse_file_instructions = LimitedVec::new(usize::MAX);
    let mut vh = IgnoreTarViolationHandler::default();
    while !parser.parse(&mut VHW(&mut vh), &input_padded, &mut pos, &mut sparse_file_instructions)? {}
    Ok(sparse_file_instructions)
}

#[test]
fn test_gnu_sparse_1_0_parser() {
    let mut parser = GnuSparse1_0Parser::new();
    let input = b"2\n0\n100\n200\n300\n".as_slice();
    let result = drive_sparse_parser(&mut parser, input).expect("Failed to parse input");
    assert_eq!(
        result.as_slice(),
        [
            SparseFileInstruction { offset_before: 0, data_size: 100 },
            SparseFileInstruction { offset_before: 200, data_size: 300 },
        ]
    );
    assert_eq!(parser.bytes_read(), BLOCK_SIZE);
}

#[test]
fn records_split_anywhere_parse_the_same() {
    let data = b"18 path=some/file\n12 uid=1000\n30 mtime=1749954382.774290089\n";
    let mut whole = new_strict_parser();
    drive_parser::<StrictTarViolationHandler>(&mut whole, data, false).unwrap();
    let mut bytewise = new_strict_parser();
    drive_parser::<StrictTarViolationHandler>(&mut bytewise, data, true).unwrap();
    assert_eq!(whole.path().get(), bytewise.path().get());
    assert_eq!(whole.uid().get(), Some(&1000));
    assert_eq!(whole.uid().get(), bytewise.uid().get());
    assert_eq!(whole.mtime().get(), bytewise.mtime().get());
    assert!(bytewise.is_at_record_start());
}

#[test]
fn local_value_shadows_global_until_recovery() {
    let mut parser = new_strict_parser();
    let mut vh = StrictTarViolationHandler::default();
    parser.set_current_pax_mode(PaxConfidence::GLOBAL);
    parser.parse(&mut VHW(&mut vh), b"12 uid=1000\n").unwrap();
    parser.set_current_pax_mode(PaxConfidence::LOCAL);
    parser.parse(&mut VHW(&mut vh), b"10 uid=42\n").unwrap();
    assert_eq!(parser.uid().get_with_confidence(), Some((PaxConfidence::LOCAL, &42)));
    parser.recover();
    assert_eq!(parser.uid().get_with_confidence(), Some((PaxConfidence::GLOBAL, &1000)));
}

#[test]
fn a_local_only_key_in_a_global_header_is_a_violation() {
    let mut parser = new_strict_parser();
    let mut vh = StrictTarViolationHandler::default();
    parser.set_current_pax_mode(PaxConfidence::GLOBAL);
    let result = parser.parse(&mut VHW(&mut vh), b"24 GNU.sparse.name=abcd\n");
    assert!(matches!(
        result,
        Err(TarParserError {
            kind: TarParserErrorKind::PaxParserError(
                PaxParserError::WellKnownKeyAppearedInWrongPaxContext { .. }
            ),
            ..
        })
    ));
}
