use no_std_io::io::{Write, WriteAll};
use no_std_io::streams::BytewiseWriter;
use no_std_io::tar::inode::{expand_sparse_files, FileData, FileEntry, RegularFileEntry, TarInode};
use no_std_io::tar::parser::{TarParser, TarParserOptions};
use no_std_io::tar::errors::{ErrorSeverity, TarHeaderParserError, TarParserErrorKind};
use no_std_io::tar::header::TarTypeFlag;
use no_std_io::tar::violations::{IgnoreTarViolationHandler, StrictTarViolationHandler};

// The archives are put together here, block by block, in each of the formats the parser reads.

const LOREM: &[u8] = b"Lorem ipsum dolor sit amet, consectetur adipiscing elit, sed do eiusmod tempor \
incididunt ut labore et dolore magna aliqua. Ut enim ad minim veniam, quis nostrud exercitation \
ullamco laboris nisi ut aliquip ex ea commodo consequat. Duis aute irure dolor in reprehenderit in \
voluptate velit esse cillum dolore eu fugiat nulla pariatur. Excepteur sint occaecat cupidatat non \
proident, sunt in culpa qui officia deserunt mollit anim id est laborum. Sed ut perspiciatis unde \
omnis iste natus error sit voluptatem accusantium doloremque laudantium, totam rem aperiam, eaque \
ipsa quae ab illo inventore veritatis et quasi architecto beatae vitae dicta sunt explicabo.\n";

const SPARSE_PATH: &str = "test-archive/sparse_test_file.txt";
const SPARSE_SIZE: usize = 4096;
/// The runs of data of the sparse file: offset and bytes.
const SPARSE_RUNS: &[(usize, &[u8])] = &[(1024, b"sparse data\n"), (3072, b"end\n"), (4096, b"")];

struct SimpleFile {
    file_path: &'static str,
    data: Vec<u8>,
}

fn sparse_contents() -> Vec<u8> {
    let mut v = vec![0u8; SPARSE_SIZE];
    for (offset, data) in SPARSE_RUNS {
        v[*offset..*offset + data.len()].copy_from_slice(data);
    }
    v
}

fn sparse_stored_data() -> Vec<u8> {
    SPARSE_RUNS.iter().flat_map(|(_, d)| d.iter().copied()).collect()
}

fn simple_files() -> Vec<SimpleFile> {
    vec![
        SimpleFile { file_path: "test-archive/subfolder/my_file.txt", data: b"my file\n".to_vec() },
        SimpleFile { file_path: "test-archive/lorem.txt", data: LOREM.to_vec() },
        SimpleFile { file_path: "test-archive/test_file.txt", data: b"test file contents\n".to_vec() },
        SimpleFile { file_path: SPARSE_PATH, data: sparse_contents() },
    ]
}

#[derive(Clone, Copy, PartialEq)]
enum Format {
    V7,
    Ustar,
    Gnu,
}

fn put_octal(block: &mut [u8], at: usize, len: usize, value: u64) {
    let text = format!("{:0width$o}", value, width = len - 1);
    block[at..at + len - 1].copy_from_slice(text.as_bytes());
    block[at + len - 1] = 0;
}

fn put_str(block: &mut [u8], at: usize, text: &str) {
    block[at..at + text.len()].copy_from_slice(text.as_bytes());
}

fn header(name: &str, size: u64, typeflag: u8, format: Format) -> [u8; 512] {
    let mut block = [0u8; 512];
    put_str(&mut block, 0, name);
    put_octal(&mut block, 100, 8, 0o644);
    put_octal(&mut block, 108, 8, 1000);
    put_octal(&mut block, 116, 8, 1000);
    put_octal(&mut block, 124, 12, size);
    put_octal(&mut block, 136, 12, 1_700_000_000);
    block[156] = typeflag;
    match format {
        Format::V7 => {},
        Format::Ustar => {
            put_str(&mut block, 257, "ustar\0");
            put_str(&mut block, 263, "00");
        },
        Format::Gnu => put_str(&mut block, 257, "ustar  \0"),
    }
    if format != Format::V7 {
        put_str(&mut block, 265, "user");
        put_str(&mut block, 297, "group");
        put_octal(&mut block, 329, 8, 0);
        put_octal(&mut block, 337, 8, 0);
    }
    if format == Format::Gnu {
        put_octal(&mut block, 345, 12, 1_700_000_000);
        put_octal(&mut block, 357, 12, 1_700_000_000);
        put_octal(&mut block, 483, 12, 0);
    }
    block
}

fn seal(mut block: [u8; 512]) -> [u8; 512] {
    block[148..156].copy_from_slice(b"        ");
    let sum: u32 = block.iter().map(|&b| b as u32).sum();
    let text = format!("{:06o}\0 ", sum);
    block[148..156].copy_from_slice(text.as_bytes());
    block
}

fn push_data(archive: &mut Vec<u8>, data: &[u8]) {
    archive.extend_from_slice(data);
    let padding = (512 - data.len() % 512) % 512;
    archive.extend(std::iter::repeat(0u8).take(padding));
}

fn push_entry(archive: &mut Vec<u8>, block: [u8; 512], data: &[u8]) {
    archive.extend_from_slice(&seal(block));
    push_data(archive, data);
}

fn end_archive(archive: &mut Vec<u8>) {
    archive.extend(std::iter::repeat(0u8).take(1024));
}

fn pax_record(key: &str, value: &str) -> Vec<u8> {
    let body = format!(" {}={}\n", key, value);
    let mut length = body.len() + 1;
    while format!("{}", length).len() + body.len() != length {
        length += 1;
    }
    format!("{}{}", length, body).into_bytes()
}

fn pax_header(archive: &mut Vec<u8>, typeflag: u8, records: &[(&str, String)]) {
    let data: Vec<u8> = records.iter().flat_map(|(k, v)| pax_record(k, v)).collect();
    push_entry(archive, header("PaxHeaders/entry", data.len() as u64, typeflag, Format::Ustar), &data);
}

fn plain_archive(format: Format) -> Vec<u8> {
    let mut archive = Vec::new();
    push_entry(&mut archive, header("test-archive/", 0, b'5', format), &[]);
    push_entry(&mut archive, header("test-archive/subfolder/", 0, b'5', format), &[]);
    for file in simple_files() {
        let mut block = header(file.file_path, file.data.len() as u64, b'0', format);
        if format == Format::Ustar && file.file_path == "test-archive/lorem.txt" {
            // The name split over the prefix and name fields.
            block[0..100].fill(0);
            put_str(&mut block, 0, "lorem.txt");
            put_str(&mut block, 345, "test-archive");
        }
        push_entry(&mut archive, block, &file.data);
    }
    end_archive(&mut archive);
    archive
}

fn pax_archive() -> Vec<u8> {
    let mut archive = Vec::new();
    pax_header(&mut archive, b'g', &[("comment", "made by hand".to_string())]);
    for file in simple_files() {
        pax_header(
            &mut archive,
            b'x',
            &[("path", file.file_path.to_string()), ("mtime", "1700000000.5".to_string())],
        );
        push_entry(&mut archive, header("placeholder", file.data.len() as u64, b'0', Format::Ustar), &file.data);
    }
    end_archive(&mut archive);
    archive
}

fn gnu_long_name_archive() -> Vec<u8> {
    let mut archive = Vec::new();
    for file in simple_files() {
        let mut name = file.file_path.as_bytes().to_vec();
        name.push(0);
        push_entry(&mut archive, header("././@LongLink", name.len() as u64, b'L', Format::Gnu), &name);
        push_entry(&mut archive, header("short", file.data.len() as u64, b'0', Format::Gnu), &file.data);
    }
    end_archive(&mut archive);
    archive
}

/// The files that are not sparse, stored plainly.
fn push_plain_files(archive: &mut Vec<u8>, format: Format) {
    for file in simple_files() {
        if file.file_path != SPARSE_PATH {
            push_entry(archive, header(file.file_path, file.data.len() as u64, b'0', format), &file.data);
        }
    }
}

fn put_sparse_entry(block: &mut [u8], at: usize, offset: usize, size: usize) {
    put_octal(block, at, 12, offset as u64);
    put_octal(block, at + 12, 12, size as u64);
}

fn gnu_old_sparse_archive() -> Vec<u8> {
    let mut archive = Vec::new();
    push_plain_files(&mut archive, Format::Gnu);
    let stored = sparse_stored_data();
    let mut block = header(SPARSE_PATH, stored.len() as u64, b'S', Format::Gnu);
    // Two entries in the header, the last one in an extension block.
    put_sparse_entry(&mut block, 386, SPARSE_RUNS[0].0, SPARSE_RUNS[0].1.len());
    put_sparse_entry(&mut block, 410, SPARSE_RUNS[1].0, SPARSE_RUNS[1].1.len());
    block[482] = 1;
    put_octal(&mut block, 483, 12, SPARSE_SIZE as u64);
    archive.extend_from_slice(&seal(block));
    let mut extension = [0u8; 512];
    put_sparse_entry(&mut extension, 0, SPARSE_RUNS[2].0, SPARSE_RUNS[2].1.len());
    archive.extend_from_slice(&extension);
    push_data(&mut archive, &stored);
    end_archive(&mut archive);
    archive
}

fn gnu_sparse_pax_archive(minor_major: (u32, u32)) -> Vec<u8> {
    let mut archive = Vec::new();
    push_plain_files(&mut archive, Format::Ustar);
    let stored = sparse_stored_data();
    let mut records: Vec<(&str, String)> = Vec::new();
    let mut data = Vec::new();
    match minor_major {
        (0, 0) => {
            records.push(("GNU.sparse.size", SPARSE_SIZE.to_string()));
            records.push(("GNU.sparse.numblocks", SPARSE_RUNS.len().to_string()));
            for (offset, run) in SPARSE_RUNS {
                records.push(("GNU.sparse.offset", offset.to_string()));
                records.push(("GNU.sparse.numbytes", run.len().to_string()));
            }
            records.push(("path", SPARSE_PATH.to_string()));
            data.extend_from_slice(&stored);
        },
        (0, 1) => {
            records.push(("GNU.sparse.size", SPARSE_SIZE.to_string()));
            records.push(("GNU.sparse.numblocks", SPARSE_RUNS.len().to_string()));
            let map: Vec<String> =
                SPARSE_RUNS.iter().flat_map(|(o, r)| vec![o.to_string(), r.len().to_string()]).collect();
            records.push(("GNU.sparse.map", map.join(",")));
            records.push(("GNU.sparse.name", SPARSE_PATH.to_string()));
            data.extend_from_slice(&stored);
        },
        _ => {
            records.push(("GNU.sparse.major", "1".to_string()));
            records.push(("GNU.sparse.minor", "0".to_string()));
            records.push(("GNU.sparse.name", SPARSE_PATH.to_string()));
            records.push(("GNU.sparse.realsize", SPARSE_SIZE.to_string()));
            let mut map = format!("{}\n", SPARSE_RUNS.len());
            for (offset, run) in SPARSE_RUNS {
                map.push_str(&format!("{}\n{}\n", offset, run.len()));
            }
            data.extend_from_slice(map.as_bytes());
            data.resize(512, 0);
            data.extend_from_slice(&stored);
        },
    }
    pax_header(&mut archive, b'x', &records);
    push_entry(
        &mut archive,
        header("./GNUSparseFile.0/sparse_test_file.txt", data.len() as u64, b'0', Format::Ustar),
        &data,
    );
    end_archive(&mut archive);
    archive
}

fn tar_archives() -> Vec<(&'static str, Vec<u8>)> {
    vec![
        ("test-v7.tar", plain_archive(Format::V7)),
        ("test-ustar.tar", plain_archive(Format::Ustar)),
        ("test-pax.tar", pax_archive()),
        ("test-gnu-longname.tar", gnu_long_name_archive()),
        ("test-gnu-oldsparse.tar", gnu_old_sparse_archive()),
        ("test-gnu-sparse-0.0.tar", gnu_sparse_pax_archive((0, 0))),
        ("test-gnu-sparse-0.1.tar", gnu_sparse_pax_archive((0, 1))),
        ("test-gnu-sparse-1.0.tar", gnu_sparse_pax_archive((1, 0))),
    ]
}

fn first_diff_index(a: &[u8], b: &[u8]) -> Option<usize> {
    a.iter().zip(b.iter()).position(|(x, y)| x != y).or_else(|| {
        if a.len() != b.len() {
            Some(a.len().min(b.len()))
        } else {
            None
        }
    })
}

impl SimpleFile {
    fn assert_exists_and_data_matches(&self, files: &[TarInode], archive_name: &str) {
        let file = files.iter().find(|f| f.path.as_str() == self.file_path);
        assert!(file.is_some(), "{archive_name}: File {} not found in archive", self.file_path);
        let file = file.unwrap();
        match &file.entry {
            FileEntry::RegularFile(RegularFileEntry { data: FileData::Regular(data), .. }) => {
                if let Some(index) = first_diff_index(data, &self.data) {
                    panic!(
                        "{archive_name}: Data for file {} does not match at index {}: expected len {}, found len {}",
                        self.file_path,
                        index,
                        self.data.len(),
                        data.len()
                    );
                }
            },
            _ => panic!("Expected RegularFileEntry for file {}", self.file_path),
        }
    }
}

fn assert_test_archive_simple_files(files: &[TarInode], archive_name: &str) {
    for file in simple_files() {
        file.assert_exists_and_data_matches(files, archive_name);
    }
}

fn assert_parse_archive(archive_name: &str, data: &[u8], bytewise: bool) {
    let mut tar_parser = TarParser::<IgnoreTarViolationHandler>::default();
    let parser_result = match bytewise {
        true => BytewiseWriter::new(&mut tar_parser).write_all(data, false),
        false => tar_parser.write_all(data, false),
    };
    assert!(parser_result.is_ok(), "Failed to parse {}: {:?}", archive_name, parser_result.unwrap_err());
    let mut files = tar_parser.get_extracted_files().to_vec();
    expand_sparse_files(&mut files);
    assert_test_archive_simple_files(&files, archive_name);
}

#[test]
fn test_tar_extract_uncompressed_bytewise() {
    for (name, archive) in tar_archives() {
        assert_parse_archive(name, &archive, true);
    }
}

#[test]
fn test_tar_extract_uncompressed() {
    for (name, archive) in tar_archives() {
        assert_parse_archive(name, &archive, false);
    }
}

#[test]
fn only_the_last_version_of_a_path_is_kept_in_its_first_place() {
    let mut archive = Vec::new();
    push_entry(&mut archive, header("a.txt", 3, b'0', Format::Ustar), b"one");
    push_entry(&mut archive, header("b.txt", 3, b'0', Format::Ustar), b"two");
    push_entry(&mut archive, header("a.txt", 5, b'0', Format::Ustar), b"three");
    end_archive(&mut archive);

    let mut parser = TarParser::<IgnoreTarViolationHandler>::default();
    parser.write_all(&archive, false).unwrap();
    let files = parser.get_extracted_files();
    assert_eq!(files.len(), 2);
    assert_eq!(files[0].path.as_str(), "a.txt");
    assert!(matches!(
        &files[0].entry,
        FileEntry::RegularFile(RegularFileEntry { data: FileData::Regular(d), .. }) if d == b"three"
    ));
    assert_eq!(files[1].path.as_str(), "b.txt");
}

#[test]
fn every_version_is_kept_when_asked() {
    let mut archive = Vec::new();
    push_entry(&mut archive, header("a.txt", 3, b'0', Format::Ustar), b"one");
    push_entry(&mut archive, header("a.txt", 3, b'0', Format::Ustar), b"two");
    end_archive(&mut archive);

    let mut options = TarParserOptions::default();
    options.keep_only_last = false;
    let mut parser = TarParser::new(options, IgnoreTarViolationHandler::default()).unwrap();
    parser.write_all(&archive, false).unwrap();
    let files = parser.get_extracted_files();
    assert_eq!(files.len(), 2);
    assert_eq!(files[0].path.as_str(), "a.txt");
    assert_eq!(files[1].path.as_str(), "a.txt");
}

#[test]
fn links_devices_and_directories_are_recorded() {
    let mut archive = Vec::new();
    let mut link = header("link", 0, b'2', Format::Ustar);
    put_str(&mut link, 157, "target.txt");
    push_entry(&mut archive, link, &[]);
    let mut device = header("dev", 0, b'3', Format::Ustar);
    put_octal(&mut device, 329, 8, 4);
    put_octal(&mut device, 337, 8, 64);
    push_entry(&mut archive, device, &[]);
    push_entry(&mut archive, header("dir/", 0, b'5', Format::Ustar), &[]);
    end_archive(&mut archive);

    let mut parser = TarParser::<IgnoreTarViolationHandler>::default();
    parser.write_all(&archive, false).unwrap();
    let files = parser.get_extracted_files();
    assert_eq!(files.len(), 3);
    assert!(matches!(&files[0].entry, FileEntry::SymbolicLink(l) if l.link_target.as_str() == "target.txt"));
    assert!(matches!(&files[1].entry, FileEntry::CharacterDevice(d) if d.major == 4 && d.minor == 64));
    assert!(matches!(&files[2].entry, FileEntry::Directory));
    assert_eq!(files[0].uname, "user");
    assert_eq!(files[0].uid, 1000);
}

#[test]
fn a_corrupt_checksum_stops_a_strict_parser() {

    let mut archive = Vec::new();
    let mut block = seal(header("a.txt", 0, b'0', Format::Ustar));
    block[0] = b'b';
    archive.extend_from_slice(&block);
    let mut parser = TarParser::<StrictTarViolationHandler>::default();
    let result = parser.write(&archive, false);
    assert!(matches!(
        result,
        Err(e) if matches!(e.kind, TarParserErrorKind::HeaderParserError(TarHeaderParserError::CorruptHeaderChecksum(_)))
    ));
}

#[test]
fn an_unknown_magic_is_fatal() {

    let mut block = header("a.txt", 0, b'0', Format::V7);
    put_str(&mut block, 257, "weird!xy");
    let mut parser = TarParser::<IgnoreTarViolationHandler>::default();
    let result = parser.write(&seal(block), false);
    match result {
        Err(e) => {
            assert_eq!(e.severity, ErrorSeverity::Fatal);
            assert_eq!(
                e.kind,
                TarParserErrorKind::HeaderParserError(TarHeaderParserError::UnknownHeaderMagicVersion {
                    magic: *b"weird!",
                    version: *b"xy",
                })
            );
        },
        Ok(_) => panic!("an unknown magic was accepted"),
    }
}

#[test]
fn found_type_flags_are_counted() {
    let archive = plain_archive(Format::Ustar);
    let mut parser = TarParser::<IgnoreTarViolationHandler>::default();
    parser.write_all(&archive, false).unwrap();
    assert_eq!(parser.found_type_flag_count(TarTypeFlag::Directory), 2);
    assert_eq!(parser.found_type_flag_count(TarTypeFlag::RegularFile), 4);
    assert_eq!(parser.found_type_flag_count(TarTypeFlag::Fifo), 0);
}

#[test]
fn one_v7_directory_block_gives_one_directory_named_by_it() {
    let block = seal(header("docs", 0, b'5', Format::V7));
    let mut parser = TarParser::<IgnoreTarViolationHandler>::default();
    assert_eq!(parser.write(&block, false).unwrap(), 512);
    let files = parser.get_extracted_files();
    assert_eq!(files.len(), 1);
    assert_eq!(files[0].path.as_str(), "docs");
    assert!(matches!(&files[0].entry, FileEntry::Directory));

    // A size in the header makes the parser skip that much data afterwards; the block alone is
    // still taken whole.
    let block = seal(header("more", 100, b'5', Format::V7));
    let mut parser = TarParser::<IgnoreTarViolationHandler>::default();
    assert_eq!(parser.write(&block, false).unwrap(), 512);
    assert_eq!(parser.get_extracted_files().len(), 1);
    assert_eq!(parser.get_extracted_files()[0].path.as_str(), "more");
}

#[test]
fn whole_v7_file_entries_give_one_file_each_with_its_data() {
    let mut first = Vec::new();
    push_entry(&mut first, header("notes.txt", 13, b'0', Format::V7), b"hello, world\n");
    let mut second = Vec::new();
    push_entry(&mut second, header("empty", 0, 0, Format::V7), b"");
    let mut parser = TarParser::<IgnoreTarViolationHandler>::default();
    assert_eq!(parser.write(&first, false).unwrap(), 1024);
    assert_eq!(parser.write(&second, false).unwrap(), 512);
    let files = parser.get_extracted_files();
    assert_eq!(files.len(), 2);
    assert_eq!(files[0].path.as_str(), "notes.txt");
    match &files[0].entry {
        FileEntry::RegularFile(RegularFileEntry { data: FileData::Regular(d), .. }) => assert_eq!(&d[..], b"hello, world\n"),
        _ => panic!("not a regular file"),
    }
    assert_eq!(files[1].path.as_str(), "empty");
    assert!(matches!(&files[1].entry, FileEntry::RegularFile(RegularFileEntry { data: FileData::Regular(d), .. }) if d.is_empty()));
}

#[test]
fn one_whole_ustar_file_entry_gives_its_prefixed_path_and_data() {
    let mut block = header("file.txt", 5, b'0', Format::Ustar);
    put_str(&mut block, 345, "some/dir");
    let mut entry = Vec::new();
    push_entry(&mut entry, block, b"12345");
    let mut parser = TarParser::<IgnoreTarViolationHandler>::default();
    assert_eq!(parser.write(&entry, false).unwrap(), 1024);
    let files = parser.get_extracted_files();
    assert_eq!(files.len(), 1);
    assert_eq!(files[0].path.as_str(), "some/dir/file.txt");
    assert!(matches!(&files[0].entry, FileEntry::RegularFile(RegularFileEntry { data: FileData::Regular(d), .. }) if &d[..] == b"12345"));
}

#[test]
fn zero_blocks_end_the_archive_without_an_entry() {
    let mut parser = TarParser::<IgnoreTarViolationHandler>::default();
    assert_eq!(parser.write(&[0u8; 1024], false).unwrap(), 1024);
    assert!(parser.get_extracted_files().is_empty());
    // The parser still takes a header after them.
    let mut entry = Vec::new();
    push_entry(&mut entry, header("after", 1, b'0', Format::V7), b"x");
    assert_eq!(parser.write(&entry, false).unwrap(), 1024);
    assert_eq!(parser.get_extracted_files().len(), 1);
}

#[test]
fn a_file_entry_fed_in_pieces_of_any_size_gives_the_same_file() {
    let data: Vec<u8> = (0..700u32).map(|i| (i * 7 % 251) as u8).collect();
    for format in [Format::V7, Format::Ustar, Format::Gnu] {
    let mut entry = Vec::new();
    push_entry(&mut entry, header("piece.bin", 700, b'0', format), &data);
    for cut in [1usize, 7, 100, 511, 512, 513, 1000, 1536] {
        let mut parser = TarParser::<IgnoreTarViolationHandler>::default();
        for chunk in entry.chunks(cut) {
            assert_eq!(parser.write(chunk, false).unwrap(), chunk.len());
        }
        let files = parser.get_extracted_files();
        assert_eq!(files.len(), 1);
        assert_eq!(files[0].path.as_str(), "piece.bin");
        assert!(matches!(&files[0].entry, FileEntry::RegularFile(RegularFileEntry { data: FileData::Regular(d), .. }) if d[..] == data[..]));
    }
    }
}

#[test]
fn file_entries_fed_in_pieces_of_any_size_give_each_file_in_turn() {
    let data: Vec<u8> = (0..700u32).map(|i| (i * 7 % 251) as u8).collect();
    let mut archive = Vec::new();
    push_entry(&mut archive, header("first.bin", 700, b'0', Format::V7), &data);
    push_entry(&mut archive, header("empty", 0, 0, Format::Gnu), b"");
    let mut block = header("third.txt", 5, b'0', Format::Ustar);
    put_str(&mut block, 345, "dir");
    push_entry(&mut archive, block, b"12345");
    for cut in [1usize, 100, 512, 700, 1024, 2048, 4096] {
        let mut parser = TarParser::<IgnoreTarViolationHandler>::default();
        for chunk in archive.chunks(cut) {
            let mut taken = 0;
            while taken < chunk.len() {
                let n = parser.write(&chunk[taken..], false).unwrap();
                assert!(n > 0 && n <= chunk.len() - taken);
                taken += n;
            }
        }
        let files = parser.get_extracted_files();
        assert_eq!(files.len(), 3);
        assert_eq!(files[0].path.as_str(), "first.bin");
        assert!(matches!(&files[0].entry, FileEntry::RegularFile(RegularFileEntry { data: FileData::Regular(d), .. }) if d[..] == data[..]));
        assert_eq!(files[1].path.as_str(), "empty");
        assert!(matches!(&files[1].entry, FileEntry::RegularFile(RegularFileEntry { data: FileData::Regular(d), .. }) if d.is_empty()));
        assert_eq!(files[2].path.as_str(), "dir/third.txt");
        assert!(matches!(&files[2].entry, FileEntry::RegularFile(RegularFileEntry { data: FileData::Regular(d), .. }) if &d[..] == b"12345"));
    }
}

#[test]
fn a_strict_parser_takes_well_formed_v7_entries_and_zero_blocks() {
    let mut parser = TarParser::<StrictTarViolationHandler>::default();
    let dir = seal(header("dir", 0, b'5', Format::V7));
    assert_eq!(parser.write(&dir, false).unwrap(), 512);
    let mut entry = Vec::new();
    push_entry(&mut entry, header("dir/file", 3, b'0', Format::V7), b"abc");
    assert_eq!(parser.write(&entry, false).unwrap(), 1024);
    assert_eq!(parser.write(&[0u8; 1024], false).unwrap(), 1024);
    let files = parser.get_extracted_files();
    assert_eq!(files.len(), 2);
    assert!(matches!(&files[0].entry, FileEntry::Directory));
    assert_eq!(files[1].path.as_str(), "dir/file");
}

#[test]
fn a_strict_parser_stops_at_a_wrong_checksum_but_not_at_zero_blocks() {
    let mut parser = TarParser::<StrictTarViolationHandler>::default();
    let mut entry = Vec::new();
    push_entry(&mut entry, header("file", 3, b'0', Format::V7), b"abc");
    entry[0] = b'g';
    assert!(parser.write(&entry, false).is_err());
    let mut fresh = TarParser::<StrictTarViolationHandler>::default();
    assert_eq!(fresh.write(&[0u8; 512], false).unwrap(), 512);
}

#[test]
fn a_v7_file_entry_gives_its_owner_time_and_mode() {
    let mut entry = Vec::new();
    let mut block = header("owned.txt", 2, b'0', Format::V7);
    put_octal(&mut block, 108, 8, 1234);
    put_octal(&mut block, 116, 8, 567);
    put_octal(&mut block, 100, 8, 0o4755);
    push_entry(&mut entry, block, b"hi");
    let mut parser = TarParser::<StrictTarViolationHandler>::default();
    assert_eq!(parser.write(&entry, false).unwrap(), 1024);
    let files = parser.get_extracted_files();
    assert_eq!(files.len(), 1);
    assert_eq!(files[0].uid, 1234);
    assert_eq!(files[0].gid, 567);
    assert_eq!(files[0].mtime.seconds_since_epoch, 1_700_000_000);
    assert!(files[0].mode.owner.execute && files[0].mode.set_uid && !files[0].mode.group.write);
}
