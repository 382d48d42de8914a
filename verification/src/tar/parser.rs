//! The tar parser: a state machine that takes an archive in pieces of any size through the
//! `Write` trait and puts together its entries.
use vstd::prelude::*;
use vstd::pervasive::VecAdditionalExecFns;
use vstd::string::StringExecFns;
use vstd::utf8::{decode_utf8, valid_utf8};

use crate::cursor::min_int;
use crate::io::{is_subsequence, Write};
use crate::tar::confident::{ConfidentValue, PaxConfidence, PaxConfidentValue, TarConfidence};
use crate::tar::errors::{
    corrupt_field_to_tar_err, CorruptFieldContext, ErrorSeverity, GeneralParseError,
    TarHeaderParserError, TarParserError, TarParserErrorKind,
};
use crate::tar::header::{
    magic_version_gnu, magic_version_ustar, magic_version_v7, type_flag_byte,
    CommonHeaderAdditions, GnuHeaderAdditions, GnuHeaderExtSparse, GnuSparseInstruction,
    TarTypeFlag, UstarHeaderAdditions, V7Header, BLOCK_SIZE,
};
use crate::tar::inode::{
    default_permissions, relative_path_from_string, relative_path_text, BlockDeviceEntry,
    CharacterDeviceEntry, FileData, FileEntry, FilePermissions, HardLinkEntry, RegularFileEntry,
    SparseFileInstruction, SymbolicLinkEntry, TarInode, TimeStamp,
};
use crate::tar::limited::LimitedVec;
use crate::tar::maps::{PathIndex, StringMap, TypeFlagCounts};
use crate::tar::pax::{lemma_no_sparse_format_after_recover, lemma_reload, pax_held, updated, PaxParser};
use crate::tar::sparse1::{block_padding, padding_to_block, GnuSparse1_0Parser};
use crate::tar::sparse_format::SparseFormat;
use crate::tar::text::{
    array_from_slice, bytes_equal, find_null_terminator_index, octal_value, str_from_utf8, until_nul,
};
use crate::tar::violations::{violation, TarViolationHandler, VHW};

verus! {

/// Limits on what the parser keeps, against archives made to exhaust memory.
pub struct TarParserLimits {
    /// The maximum number of sparse file instructions allowed in a single file.
    pub max_sparse_file_instructions: usize,
    /// The maximum length of a PAX key or value in bytes.
    /// This also limits the maximum file path length!
    pub max_pax_key_value_length: usize,
    /// The maximum number of global attributes that can be parsed.
    pub max_global_attributes: usize,
    /// The maximum number of unparsed global attributes that can be stored.
    pub max_unparsed_global_attributes: usize,
    /// The maximum number of unparsed local attributes that can be stored.
    pub max_unparsed_local_attributes: usize,
}

/// The options of a [`TarParser`].
pub struct TarParserOptions {
    /// Tar can contain previous versions of the same file.
    ///
    /// If true, only the last version of each file will be kept.
    /// If false, all versions of each file will be kept.
    pub keep_only_last: bool,
    pub initial_global_extended_attributes: StringMap,
    pub tar_parser_limits: TarParserLimits,
}

impl TarParserOptions {
    /// The default options.
    pub open spec fn is_default(&self) -> bool {
        &&& self.keep_only_last
        &&& self.initial_global_extended_attributes.contents().dom().len() == 0
        &&& self.tar_parser_limits.max_sparse_file_instructions == 2048
        &&& self.tar_parser_limits.max_pax_key_value_length == 1024 * 8
        &&& self.tar_parser_limits.max_global_attributes == 1024
        &&& self.tar_parser_limits.max_unparsed_global_attributes == 1024
        &&& self.tar_parser_limits.max_unparsed_local_attributes == 1024
    }
}

impl Default for TarParserOptions {
    fn default() -> (r: Self)
        ensures
            r.is_default(),
    {
        TarParserOptions {
            keep_only_last: true,
            initial_global_extended_attributes: StringMap::new(),
            tar_parser_limits: TarParserLimits {
                max_sparse_file_instructions: 2048,
                max_pax_key_value_length: 1024 * 8,
                max_global_attributes: 1024,
                max_unparsed_global_attributes: 1024,
                max_unparsed_local_attributes: 1024,
            },
        }
    }
}

/// What is known of the entry being parsed, from all the records that describe it.
pub struct InodeBuilder {
    pub file_path: ConfidentValue<String>,
    pub mode: ConfidentValue<FilePermissions>,
    pub uid: ConfidentValue<u32>,
    pub gid: ConfidentValue<u32>,
    pub mtime: ConfidentValue<TimeStamp>,
    pub atime: ConfidentValue<TimeStamp>,
    pub ctime: ConfidentValue<TimeStamp>,
    pub uname: ConfidentValue<String>,
    pub gname: ConfidentValue<String>,
    pub link_target: ConfidentValue<String>,
    pub sparse_file_instructions: LimitedVec<SparseFileInstruction>,
    /// The real size if it is a sparse file.
    pub sparse_real_size: ConfidentValue<usize>,
    pub sparse_format: Option<SparseFormat>,
    pub dev_major: u32,
    pub dev_minor: u32,
    pub data_after_header_size: ConfidentValue<usize>,
    pub contiguous_file: bool,
    pub data: Vec<u8>,
}

impl InodeBuilder {
    /// Nothing known yet.
    pub open spec fn is_empty(&self, max_sparse_file_instructions: usize) -> bool {
        &&& self.file_path.held() is None
        &&& self.mode.held() is None
        &&& self.uid.held() is None
        &&& self.gid.held() is None
        &&& self.mtime.held() is None
        &&& self.atime.held() is None
        &&& self.ctime.held() is None
        &&& self.uname.held() is None
        &&& self.gname.held() is None
        &&& self.link_target.held() is None
        &&& self.sparse_file_instructions.items().len() == 0
        &&& self.sparse_file_instructions.limit() == max_sparse_file_instructions
        &&& self.sparse_real_size.held() is None
        &&& self.sparse_format is None
        &&& self.dev_major == 0
        &&& self.dev_minor == 0
        &&& self.data_after_header_size.held() is None
        &&& !self.contiguous_file
        &&& self.data@.len() == 0
    }

    /// The sparse map is within its limit.
    pub open spec fn wf(&self) -> bool {
        self.sparse_file_instructions.items().len() <= self.sparse_file_instructions.limit()
    }

    pub fn new(max_sparse_file_instructions: usize) -> (r: Self)
        ensures
            r.is_empty(max_sparse_file_instructions),
            r.wf(),
    {
        InodeBuilder {
            file_path: ConfidentValue::new(),
            mode: ConfidentValue::new(),
            uid: ConfidentValue::new(),
            gid: ConfidentValue::new(),
            mtime: ConfidentValue::new(),
            atime: ConfidentValue::new(),
            ctime: ConfidentValue::new(),
            uname: ConfidentValue::new(),
            gname: ConfidentValue::new(),
            link_target: ConfidentValue::new(),
            sparse_file_instructions: LimitedVec::new(max_sparse_file_instructions),
            sparse_real_size: ConfidentValue::new(),
            sparse_format: None,
            dev_major: 0,
            dev_minor: 0,
            data_after_header_size: ConfidentValue::new(),
            contiguous_file: false,
            data: Vec::new(),
        }
    }

    /// The data of a regular file: sparse when there is a sparse map.
    pub fn into_regular_file_entry(self) -> (r: RegularFileEntry)
        ensures
            r.continuous == self.contiguous_file,
            self.sparse_file_instructions.items().len() == 0 ==> r.data == FileData::Regular(self.data),
            self.sparse_file_instructions.items().len() > 0 ==> (r.data matches FileData::Sparse {
                instructions,
                data,
            } && instructions@ == self.sparse_file_instructions.items() && data == self.data),
    {
        let continuous = self.contiguous_file;
        let data = if self.sparse_file_instructions.is_empty() {
            FileData::Regular(self.data)
        } else {
            FileData::Sparse { instructions: self.sparse_file_instructions.to_vec(), data: self.data }
        };
        RegularFileEntry { continuous, data }
    }
}

/// Reading the blocks of sparse map entries that follow an old GNU sparse header.
pub struct StateReadingOldGnuSparseExtendedHeader {
    /// The size of the data section following the old gnu sparse extended headers.
    data_after_header: usize,
    /// The amount of padding after the data section.
    padding_after_data: usize,
}

/// Skipping data the parser does not keep.
pub struct StateSkippingData {
    /// The amount of data that must be skipped.
    remaining_data: usize,
    /// What the skipped data is, for error messages and debugging.
    context: &'static str,
}

/// Which name a GNU long name record sets.
enum GnuLongNameType {
    FileName,
    LinkName,
}

/// Reading a GNU long name record.
pub struct StateParsingGnuLongName {
    /// The amount of data that is still remaining to be read.
    remaining_data: usize,
    /// The amount of padding after the long name data.
    padding_after_data: usize,
    /// The type of the long name (file name or link name).
    long_name_type: GnuLongNameType,
    /// The collected long name bytes.
    collected_name: Vec<u8>,
}

/// Reading the data of a regular file.
struct StateReadingFileData {
    /// The amount of data that is still remaining to be read.
    remaining_data: usize,
    /// The amount of padding after the file data.
    padding_after: usize,
}

/// Reading the records of a PAX header.
struct StateParsingPaxData {
    /// The amount of data that is still remaining to be read.
    remaining_data: usize,
    /// The amount of padding after the PAX data.
    padding_after: usize,
}

/// Reading the sparse map at the start of the data of a GNU sparse 1.0 file.
struct StateParsingGnuSparse1_0 {
    /// The size of the data after the header, sparse map included.
    data_after_header: usize,
    /// The amount of padding after the file data.
    padding_after: usize,
}

enum TarParserState {
    ReadingTarHeader,
    ReadingOldGnuSparseExtendedHeader(StateReadingOldGnuSparseExtendedHeader),
    SkippingData(StateSkippingData),
    ParsingGnuLongName(StateParsingGnuLongName),
    ReadingFileData(StateReadingFileData),
    ParsingPaxData(StateParsingPaxData),
    ParsingGnuSparse1_0(StateParsingGnuSparse1_0),
}

/// The kinds of entries that end without data.
enum EntryKind {
    HardLink,
    SymbolicLink,
    CharacterDevice,
    BlockDevice,
    Directory,
    Fifo,
    RegularFile,
}

/// A header block of the `v7` format for a directory: type flag `5`, the magic and version of
/// `v7` (all zero), and a name that is UTF-8 up to its first NUL.
pub open spec fn is_v7_directory_block(block: Seq<u8>) -> bool {
    &&& block.len() == BLOCK_SIZE
    &&& block[156] == 0x35
    &&& block.subrange(257, 265) == magic_version_v7()
    &&& valid_utf8(until_nul(block.subrange(0, 100)))
}

/// A header block of the `v7`, `ustar` or GNU format for a regular file: type flag NUL or `0`,
/// the magic and version of `v7` (all zero), of GNU, or of `ustar` with a prefix field that is
/// UTF-8 up to its first NUL, a name that is UTF-8 up to its first NUL, and a size field that
/// holds an octal number.
pub open spec fn is_file_block(block: Seq<u8>) -> bool {
    &&& block.len() == BLOCK_SIZE
    &&& (block[156] == 0 || block[156] == 0x30)
    &&& (block.subrange(257, 265) == magic_version_v7() || block.subrange(257, 265)
        == magic_version_gnu() || (block.subrange(257, 265) == magic_version_ustar() && valid_utf8(
        until_nul(block.subrange(345, 500)),
    )))
    &&& valid_utf8(until_nul(block.subrange(0, 100)))
    &&& valid_utf8(until_nul(block.subrange(124, 136)))
    &&& octal_value(block.subrange(124, 136)) is Ok
}

/// The path of the entry a header block describes: for `ustar`, its prefix field joined to its
/// name; otherwise its name.
pub open spec fn block_path(block: Seq<u8>) -> Seq<char> {
    if block.subrange(257, 265) == magic_version_ustar() {
        ustar_joined(decode_utf8(until_nul(block.subrange(345, 500))), block_name(block))
    } else {
        block_name(block)
    }
}

/// The size of the data a header block announces: the octal number of its size field.
pub open spec fn block_size(block: Seq<u8>) -> int {
    match octal_value(block.subrange(124, 136)) {
        Ok(v) => v as int,
        Err(_) => 0,
    }
}

/// A whole entry of a regular file: its header block, the data its size field announces, and
/// the padding up to the next block boundary.
pub open spec fn is_whole_file_entry(bytes: Seq<u8>) -> bool {
    &&& bytes.len() >= BLOCK_SIZE
    &&& is_file_block(bytes.take(BLOCK_SIZE as int))
    &&& block_size(bytes.take(BLOCK_SIZE as int)) <= u32::MAX
    &&& bytes.len() == BLOCK_SIZE + block_size(bytes.take(BLOCK_SIZE as int)) + padding_to_block(
        block_size(bytes.take(BLOCK_SIZE as int)) as nat,
    )
}

/// The length of the whole entry a file header block begins: the block, the data its size
/// field announces, and the padding up to the next block boundary.
pub open spec fn entry_length(block: Seq<u8>) -> int {
    BLOCK_SIZE + block_size(block) + padding_to_block(block_size(block) as nat)
}

/// `p` can be the start of a whole file entry: a part of a header block, or a whole file header
/// block followed by no more than the data and padding it announces.
pub open spec fn is_file_entry_prefix(p: Seq<u8>) -> bool {
    ||| p.len() < BLOCK_SIZE
    ||| {
        &&& is_file_block(p.take(BLOCK_SIZE as int))
        &&& block_size(p.take(BLOCK_SIZE as int)) <= u32::MAX
        &&& p.len() <= entry_length(p.take(BLOCK_SIZE as int))
    }
}

/// `bytes` begins with a whole file entry.
pub open spec fn starts_with_whole_file_entry(bytes: Seq<u8>) -> bool {
    &&& bytes.len() >= BLOCK_SIZE
    &&& is_file_block(bytes.take(BLOCK_SIZE as int))
    &&& block_size(bytes.take(BLOCK_SIZE as int)) <= u32::MAX
    &&& bytes.len() >= entry_length(bytes.take(BLOCK_SIZE as int))
}

/// The whole file entries `bytes` begins with, one after the other, and what follows them.
pub open spec fn file_entry_split(bytes: Seq<u8>) -> (Seq<Seq<u8>>, Seq<u8>)
    decreases bytes.len(),
{
    if starts_with_whole_file_entry(bytes) {
        let n = entry_length(bytes.take(BLOCK_SIZE as int));
        let tail = file_entry_split(bytes.skip(n));
        (seq![bytes.take(n)] + tail.0, tail.1)
    } else {
        (Seq::empty(), bytes)
    }
}

/// `bytes` are whole file entries followed by the start of one.
pub open spec fn is_file_entries_prefix(bytes: Seq<u8>) -> bool {
    is_file_entry_prefix(file_entry_split(bytes).1)
}

/// `inode` is what the parser records for the whole file entry `e`: a regular file with the data
/// the entry holds and the path its header gives.
pub open spec fn records_file_entry(inode: TarInode, e: Seq<u8>) -> bool {
    let block = e.take(BLOCK_SIZE as int);
    &&& inode.entry matches FileEntry::RegularFile(f) && f.data matches FileData::Regular(d)
        && d@ == e.subrange(BLOCK_SIZE as int, BLOCK_SIZE + block_size(block))
    &&& relative_path_text(inode.path) == block_path(block)
}

/// `inodes` are what the parser records for the whole file entries `es`, one for one.
pub open spec fn records_file_entries(inodes: Seq<TarInode>, es: Seq<Seq<u8>>) -> bool {
    &&& inodes.len() == es.len()
    &&& forall|i: int| 0 <= i < es.len() ==> #[trigger] records_file_entry(inodes[i], es[i])
}

/// What follows the whole file entries that bytes begin with does not begin with one.
proof fn lemma_split_rest(bytes: Seq<u8>)
    ensures
        !starts_with_whole_file_entry(file_entry_split(bytes).1),
    decreases bytes.len(),
{
    if starts_with_whole_file_entry(bytes) {
        lemma_split_rest(bytes.skip(entry_length(bytes.take(BLOCK_SIZE as int))));
    }
}

/// Splitting bytes with more appended keeps the whole entries found before and goes on from
/// what followed them.
proof fn lemma_split_append(q0: Seq<u8>, a: Seq<u8>)
    ensures
        file_entry_split(q0 + a).0 == file_entry_split(q0).0 + file_entry_split(file_entry_split(q0).1 + a).0,
        file_entry_split(q0 + a).1 == file_entry_split(file_entry_split(q0).1 + a).1,
    decreases q0.len(),
{
    if starts_with_whole_file_entry(q0) {
        let n = entry_length(q0.take(BLOCK_SIZE as int));
        assert((q0 + a).take(BLOCK_SIZE as int) =~= q0.take(BLOCK_SIZE as int));
        assert((q0 + a).skip(n) =~= q0.skip(n) + a);
        assert((q0 + a).take(n) =~= q0.take(n));
        lemma_split_append(q0.skip(n), a);
        let t = file_entry_split(q0.skip(n));
        assert(seq![q0.take(n)] + (t.0 + file_entry_split(t.1 + a).0) =~= (seq![q0.take(n)] + t.0)
            + file_entry_split(t.1 + a).0);
    } else {
        assert(Seq::<Seq<u8>>::empty() + file_entry_split(q0 + a).0 =~= file_entry_split(q0 + a).0);
    }
}

/// The start of an entry that is no whole entry yet splits into no whole entries.
proof fn lemma_split_of_part(x: Seq<u8>)
    requires
        !starts_with_whole_file_entry(x),
    ensures
        file_entry_split(x).0.len() == 0,
        file_entry_split(x).1 == x,
{
}

/// A whole file entry splits into itself.
proof fn lemma_split_of_whole(e: Seq<u8>)
    requires
        is_whole_file_entry(e),
    ensures
        file_entry_split(e).0 == seq![e],
        file_entry_split(e).1.len() == 0,
{
    let n = entry_length(e.take(BLOCK_SIZE as int));
    assert(e.take(n) =~= e);
    assert(e.skip(n).len() == 0);
    assert(!starts_with_whole_file_entry(e.skip(n)));
    lemma_split_of_part(e.skip(n));
    assert(starts_with_whole_file_entry(e));
    assert(file_entry_split(e).0 == seq![e.take(n)] + file_entry_split(e.skip(n)).0);
    assert(seq![e] + Seq::<Seq<u8>>::empty() =~= seq![e]);
}

/// Bytes that whole entries and the start of one begin with, taken within the entry that `rest0`
/// starts, are the start of an entry.
proof fn lemma_part_within_entry(q0: Seq<u8>, r: Seq<u8>, k: int)
    requires
        is_file_entries_prefix(q0 + r),
        is_file_entry_prefix(file_entry_split(q0).1),
        !starts_with_whole_file_entry(file_entry_split(q0).1),
        0 <= k <= r.len(),
        file_entry_split(q0).1.len() < BLOCK_SIZE ==> file_entry_split(q0).1.len() + k <= BLOCK_SIZE,
        file_entry_split(q0).1.len() >= BLOCK_SIZE ==> file_entry_split(q0).1.len() + k <= entry_length(
            file_entry_split(q0).1.take(BLOCK_SIZE as int),
        ),
    ensures
        is_file_entry_prefix(file_entry_split(q0).1 + r.take(k)),
{
    let rest0 = file_entry_split(q0).1;
    let t = rest0 + r;
    let x = rest0 + r.take(k);
    lemma_split_append(q0, r);
    assert(t.take(x.len() as int) =~= x);
    if x.len() >= BLOCK_SIZE {
        assert(x.take(BLOCK_SIZE as int) =~= t.take(BLOCK_SIZE as int));
        if rest0.len() >= BLOCK_SIZE {
            assert(rest0.take(BLOCK_SIZE as int) =~= t.take(BLOCK_SIZE as int));
        }
        if !starts_with_whole_file_entry(t) {
            lemma_split_of_part(t);
        }
    }
}

/// The path a header block names: its name field up to the first NUL, as text.
pub open spec fn block_name(block: Seq<u8>) -> Seq<char> {
    decode_utf8(until_nul(block.subrange(0, 100)))
}

/// The entries of `files` have pairwise different paths.
pub open spec fn paths_unique(files: Seq<TarInode>) -> bool {
    forall|i: int, j: int|
        0 <= i < j < files.len() ==> relative_path_text(#[trigger] files[i].path)
            != relative_path_text(#[trigger] files[j].path)
}

/// `index` gives the position of every path of `files`, and only of those.
pub open spec fn index_matches(index: Map<Seq<char>, usize>, files: Seq<TarInode>) -> bool {
    &&& forall|i: int|
        0 <= i < files.len() ==> index.dom().contains(relative_path_text(#[trigger] files[i].path))
            && index[relative_path_text(files[i].path)] == i
    &&& forall|k: Seq<char>|
        #[trigger] index.dom().contains(k) ==> index[k] < files.len() && relative_path_text(
            files[index[k] as int].path,
        ) == k
}

/// The position of the first file of `files` with the path `path`, or -1 when there is none.
pub open spec fn path_position(files: Seq<TarInode>, path: Seq<char>) -> int
    decreases files.len(),
{
    if files.len() == 0 {
        -1
    } else {
        let before = path_position(files.drop_last(), path);
        if before >= 0 {
            before
        } else if relative_path_text(files.last().path) == path {
            files.len() - 1
        } else {
            -1
        }
    }
}

/// The files kept of `entries` when only the last version of each path is kept: each path
/// stays where it first appeared, with the last entry that has it.
pub open spec fn keep_last(entries: Seq<TarInode>) -> Seq<TarInode>
    decreases entries.len(),
{
    if entries.len() == 0 {
        Seq::empty()
    } else {
        let kept = keep_last(entries.drop_last());
        let entry = entries.last();
        let at = path_position(kept, relative_path_text(entry.path));
        if at >= 0 {
            kept.update(at, entry)
        } else {
            kept.push(entry)
        }
    }
}

/// In files with pairwise different paths, the position of a path is where it is.
pub proof fn lemma_path_position_found(files: Seq<TarInode>, i: int)
    requires
        paths_unique(files),
        0 <= i < files.len(),
    ensures
        path_position(files, relative_path_text(files[i].path)) == i,
    decreases files.len(),
{
    let p = relative_path_text(files[i].path);
    let rest = files.drop_last();
    if i < files.len() - 1 {
        assert(rest[i] == files[i]);
        assert(paths_unique(rest)) by {
            assert forall|a: int, b: int| 0 <= a < b < rest.len() implies relative_path_text(
                #[trigger] rest[a].path,
            ) != relative_path_text(#[trigger] rest[b].path) by {
                assert(rest[a] == files[a]);
                assert(rest[b] == files[b]);
            }
        }
        lemma_path_position_found(rest, i);
    } else {
        lemma_path_position_absent(rest, p);
    }
}

/// The position of a path that no file has is -1.
pub proof fn lemma_path_position_absent(files: Seq<TarInode>, path: Seq<char>)
    requires
        forall|i: int| 0 <= i < files.len() ==> relative_path_text(#[trigger] files[i].path) != path,
    ensures
        path_position(files, path) == -1,
    decreases files.len(),
{
    if files.len() > 0 {
        let rest = files.drop_last();
        assert forall|i: int| 0 <= i < rest.len() implies relative_path_text(#[trigger] rest[i].path) != path by {
            assert(rest[i] == files[i]);
        }
        lemma_path_position_absent(rest, path);
    }
}

/// A parser of tar archives, fed through the `Write` trait in pieces of any size.
pub struct TarParser<VH: TarViolationHandler> {
    /// The extracted files.
    extracted_files: Vec<TarInode>,
    /// The number of headers found with each type flag, by the byte the flag is written as.
    found_type_flags: TypeFlagCounts,
    violation_handler: VH,
    /// What is known of the entry being parsed.
    inode_state: InodeBuilder,
    /// The position of each path in `extracted_files`, when only the last version of each file
    /// is kept.
    seen_files: PathIndex,
    keep_only_last: bool,
    parser_state: TarParserState,
    /// The global and local extended attributes.
    pax_parser: PaxParser,
    /// The bytes of a header block read so far.
    header_buffer: Vec<u8>,
    /// The parser of GNU sparse 1.0 maps.
    sparse_parser: GnuSparse1_0Parser,
    limits: TarParserLimits,
    /// Every entry finished so far, in the order of the archive, earlier versions included.
    entries: Ghost<Seq<TarInode>>,
    /// The archive bytes taken so far.
    consumed: Ghost<Seq<u8>>,
}

impl<VH: TarViolationHandler + Default> Default for TarParser<VH> {
    fn default() -> (r: Self)
        ensures
            r.wf(),
            r.keeps_only_last(),
            r.files() == Seq::<TarInode>::empty(),
            r.entries() == Seq::<TarInode>::empty(),
            r.at_fresh_header(),
    {
        let options = TarParserOptions::default();
        let pax_parser = PaxParser::new(
            options.tar_parser_limits.max_global_attributes,
            options.tar_parser_limits.max_unparsed_global_attributes,
            options.tar_parser_limits.max_unparsed_local_attributes,
            options.tar_parser_limits.max_pax_key_value_length,
            options.tar_parser_limits.max_sparse_file_instructions,
        );
        TarParser::build(options.keep_only_last, options.tar_parser_limits, pax_parser, VH::default())
    }
}

impl<VH: TarViolationHandler> TarParser<VH> {
    /// The internal state is consistent.
    pub closed spec fn wf(&self) -> bool {
        &&& self.header_buffer@.len() < BLOCK_SIZE
        &&& self.pax_parser.wf()
        &&& self.pax_parser.max_sparse_map() == self.limits.max_sparse_file_instructions
        &&& self.pax_parser.sparse_map().len() <= self.pax_parser.max_sparse_map()
        &&& self.sparse_parser.wf()
        &&& self.inode_state.wf()
        &&& self.inode_state.sparse_file_instructions.limit() == self.limits.max_sparse_file_instructions
        &&& self.keep_only_last ==> paths_unique(self.extracted_files@) && index_matches(
            self.seen_files.contents(),
            self.extracted_files@,
        ) && self.extracted_files@ == keep_last(self.entries@)
        &&& !self.keep_only_last ==> self.extracted_files@ == self.entries@
    }

    /// Every entry finished so far, in the order of the archive, earlier versions of a path
    /// included.
    pub closed spec fn entries(&self) -> Seq<TarInode> {
        self.entries@
    }

    /// Whether the PAX records read next are stored as local or as global attributes.
    pub closed spec fn pax_mode(&self) -> PaxConfidence {
        self.pax_parser.mode()
    }

    /// The entries extracted so far.
    pub closed spec fn files(&self) -> Seq<TarInode> {
        self.extracted_files@
    }

    /// The global attributes seen so far, as text.
    pub closed spec fn global_attributes(&self) -> Map<Seq<char>, Seq<char>> {
        self.pax_parser.globals()
    }

    /// The counts of the type flags found, by flag byte.
    pub closed spec fn type_flag_counts(&self) -> Map<u8, usize> {
        self.found_type_flags.contents()
    }

    /// The pax attributes the parser holds.
    pub closed spec fn pax_attributes(&self) -> PaxParser {
        self.pax_parser
    }

    /// Whether only the last version of each path is kept.
    pub closed spec fn keeps_only_last(&self) -> bool {
        self.keep_only_last
    }

    /// The parser, which was `before`, has forgotten the entry it was reading: it waits for a
    /// header block, keeps the part of one it held, knows nothing of an entry, holds no sparse
    /// map and keeps its limits.
    pub closed spec fn recovered(&self, before: Self) -> bool {
        &&& self.parser_state is ReadingTarHeader
        &&& self.header_buffer@ == before.header_buffer@
        &&& self.inode_state.is_empty(before.limits.max_sparse_file_instructions)
        &&& self.pax_parser.sparse_map().len() == 0
        &&& self.limits == before.limits
    }

    /// The parser waits for a header block and holds no part of one, knows nothing yet of the
    /// next entry, and holds no path attribute and no sparse map.
    pub closed spec fn at_fresh_header(&self) -> bool {
        &&& self.parser_state is ReadingTarHeader
        &&& self.between_entries()
    }

    /// The parser, which had recorded the entries `base`, has taken the bytes `p` of a file entry
    /// and no more: it holds the part of the header read so far, or it has read the header and
    /// holds the part of the data read so far, or it has recorded the entry and skips what is
    /// left of its padding.
    #[verifier::opaque]
    pub closed spec fn taken_of_file_entry(&self, p: Seq<u8>, base: Seq<TarInode>) -> bool {
        let block = p.take(BLOCK_SIZE as int);
        let size = block_size(block);
        &&& is_file_entry_prefix(p)
        &&& self.pax_parser.holds_no_path()
        &&& self.pax_parser.sparse_map().len() == 0
        &&& self.inode_state.sparse_file_instructions.items().len() == 0
        &&& if p.len() < BLOCK_SIZE {
            &&& self.parser_state is ReadingTarHeader
            &&& self.header_buffer@ == p
            &&& self.inode_state.file_path.held() is None
            &&& self.inode_state.data@.len() == 0
            &&& self.inode_state.data_after_header_size.held() is None
            &&& self.inode_state.uid.held() is None
            &&& self.inode_state.gid.held() is None
            &&& self.inode_state.mtime.held() is None
            &&& self.inode_state.mode.held() is None
            &&& self.entries() == base
        } else if p.len() < BLOCK_SIZE + size {
            &&& self.parser_state == TarParserState::ReadingFileData(
                StateReadingFileData {
                    remaining_data: (BLOCK_SIZE + size - p.len()) as usize,
                    padding_after: padding_to_block(size as nat) as usize,
                },
            )
            &&& self.header_buffer@.len() == 0
            &&& self.inode_state.data@ == p.subrange(BLOCK_SIZE as int, p.len() as int)
            &&& self.inode_state.file_path.held() matches Some((_, q)) && q@ == block_path(block)
            &&& self.entries() == base
        } else {
            let entry = self.entries().last();
            &&& self.entries().len() == base.len() + 1
            &&& self.entries().drop_last() == base
            &&& entry.entry matches FileEntry::RegularFile(f) && f.data matches FileData::Regular(d)
                && d@ == p.subrange(BLOCK_SIZE as int, BLOCK_SIZE + size)
            &&& relative_path_text(entry.path) == block_path(block)
            &&& self.between_entries()
            &&& if p.len() < entry_length(block) {
                self.parser_state matches TarParserState::SkippingData(sk) && sk.remaining_data
                    == entry_length(block) - p.len()
            } else {
                self.parser_state is ReadingTarHeader
            }
        }
    }

    /// The parser, which had recorded the entries `base`, has taken the bytes `p`: whole file
    /// entries, each recorded after `base` in turn, and then the start of one more, taken as far
    /// as it goes.
    #[verifier::opaque]
    pub closed spec fn taken_of_file_entries(&self, p: Seq<u8>, base: Seq<TarInode>) -> bool {
        let split = file_entry_split(p);
        let mid = base.len() + split.0.len() as int;
        &&& self.entries().len() >= mid
        &&& self.entries().take(base.len() as int) == base
        &&& records_file_entries(self.entries().subrange(base.len() as int, mid), split.0)
        &&& self.taken_of_file_entry(split.1, self.entries().take(mid))
    }

    /// The bytes `p` are whole file entries, the last of them an empty file whose header block
    /// has just been read and which the next step records.
    #[verifier::opaque]
    spec fn file_entries_pending(&self, p: Seq<u8>, base: Seq<TarInode>) -> bool {
        let split = file_entry_split(p);
        let mid = base.len() + split.0.len() - 1int;
        &&& split.0.len() > 0
        &&& split.1.len() == 0
        &&& self.entries().len() == mid
        &&& self.entries().take(base.len() as int) == base
        &&& records_file_entries(self.entries().subrange(base.len() as int, mid), split.0.drop_last())
        &&& self.file_entry_pending(split.0.last(), self.entries())
    }

    /// A header block for an empty file has just been read: the entry is recorded by the next
    /// step, which takes no byte.
    #[verifier::opaque]
    spec fn file_entry_pending(&self, p: Seq<u8>, base: Seq<TarInode>) -> bool {
        &&& p.len() == BLOCK_SIZE
        &&& is_file_entry_prefix(p)
        &&& block_size(p) == 0
        &&& self.parser_state == TarParserState::ReadingFileData(
            StateReadingFileData { remaining_data: 0, padding_after: 0 },
        )
        &&& self.header_buffer@.len() == 0
        &&& self.inode_state.data@.len() == 0
        &&& self.inode_state.sparse_file_instructions.items().len() == 0
        &&& self.pax_parser.holds_no_path()
        &&& self.pax_parser.sparse_map().len() == 0
        &&& self.inode_state.file_path.held() matches Some((_, q)) && q@ == block_path(p)
        &&& self.entries() == base
    }

    /// What reading file data does: it takes the data it still expects, as far as the input
    /// reaches; the last of it records the entry.
    spec fn file_data_effect(
        before: TarParser<VH>,
        after: TarParser<VH>,
        input: Seq<u8>,
        p0: int,
        p1: int,
        state: StateReadingFileData,
        r: TarParserState,
    ) -> bool {
        &&& (state.remaining_data > input.len() - p0 ==> {
                &&& after.entries() == before.entries()
                &&& after.inode_state.data@ == before.inode_state.data@ + input.subrange(
                    p0,
                    p1,
                )
                &&& r == TarParserState::ReadingFileData(StateReadingFileData {
                    remaining_data: (state.remaining_data - (p1 - p0)) as usize,
                    padding_after: state.padding_after,
                })
                &&& after.inode_state.file_path == before.inode_state.file_path
                &&& after.inode_state.sparse_file_instructions == before.inode_state.sparse_file_instructions
                &&& after.pax_parser == before.pax_parser
                &&& after.inode_state.uid == before.inode_state.uid
                &&& after.inode_state.gid == before.inode_state.gid
                &&& after.inode_state.mtime == before.inode_state.mtime
                &&& after.inode_state.mode == before.inode_state.mode
            })
        &&& (state.remaining_data <= input.len() - p0 && before.pax_parser.holds_no_path()
                && before.pax_parser.sparse_map().len() == 0
                && before.inode_state.sparse_file_instructions.items().len() == 0 ==> {
                let entry = after.entries().last();
                &&& after.entries().len() == before.entries().len() + 1
                &&& relative_path_text(entry.path) == (match before.inode_state.file_path.held() {
                    Some((_, p)) => p@,
                    None => Seq::<char>::empty(),
                })
                &&& entry.entry matches FileEntry::RegularFile(f) && f.data matches FileData::Regular(d)
                    && d@ == before.inode_state.data@ + input.subrange(p0, p1)
                &&& entry.uid == held_or(
                    updated(before.inode_state.uid.held(), pax_held(before.pax_parser.uid_value())),
                    0u32,
                )
                &&& entry.gid == held_or(
                    updated(before.inode_state.gid.held(), pax_held(before.pax_parser.gid_value())),
                    0u32,
                )
                &&& entry.mtime == held_or(
                    updated(before.inode_state.mtime.held(), pax_held(before.pax_parser.mtime_value())),
                    TimeStamp { seconds_since_epoch: 0, nanoseconds: 0 },
                )
                &&& entry.mode == held_or(before.inode_state.mode.held(), default_permissions())
                &&& state.padding_after > 0 ==> (r matches TarParserState::SkippingData(sk)
                    && sk.remaining_data == state.padding_after)
                &&& state.padding_after == 0 ==> r is ReadingTarHeader
                &&& after.pax_parser.holds_no_path()
                &&& after.pax_parser.sparse_map().len() == 0
                &&& after.inode_state.is_empty(before.limits.max_sparse_file_instructions)
                &&& after.limits == before.limits
            })
    }

    /// Reading file data moves a parser that has taken part of a file entry's data to having
    /// taken what the input adds of it.
    proof fn lemma_file_data_progress(
        current: TarParser<VH>,
        stepped: TarParser<VH>,
        after: TarParser<VH>,
        input: Seq<u8>,
        before: int,
        pos: int,
        st: StateReadingFileData,
        next: TarParserState,
        q0: Seq<u8>,
        base: Seq<TarInode>,
    )
        requires
            0 <= before <= input.len(),
            pos == before + min_int(st.remaining_data as int, input.len() - before),
            TarParser::<VH>::file_data_effect(current, stepped, input, before, pos, st, next),
            current.entries().is_prefix_of(stepped.entries()),
            stepped.header_buffer@ == current.header_buffer@,
            after.parser_state == next,
            after.header_buffer@ == stepped.header_buffer@,
            after.inode_state == stepped.inode_state,
            after.pax_parser == stepped.pax_parser,
            after.entries() == stepped.entries(),
            BLOCK_SIZE <= q0.len() < BLOCK_SIZE + block_size(q0.take(BLOCK_SIZE as int)),
            st == (StateReadingFileData {
                remaining_data: (BLOCK_SIZE + block_size(q0.take(BLOCK_SIZE as int)) - q0.len()) as usize,
                padding_after: padding_to_block(block_size(q0.take(BLOCK_SIZE as int)) as nat) as usize,
            }),
            current.header_buffer@.len() == 0,
            current.inode_state.data@ == q0.subrange(BLOCK_SIZE as int, q0.len() as int),
            current.inode_state.file_path.held() matches Some((_, name)) && name@ == block_path(
                q0.take(BLOCK_SIZE as int),
            ),
            current.entries() == base,
            current.pax_parser.holds_no_path(),
            current.pax_parser.sparse_map().len() == 0,
            current.inode_state.sparse_file_instructions.items().len() == 0,
            is_file_entry_prefix(q0),
        ensures
            after.taken_of_file_entry(q0 + input.subrange(before, pos), base),
    {
        reveal(TarParser::taken_of_file_entry);
        let blk = q0.take(BLOCK_SIZE as int);
        let size = block_size(blk);
        let added = input.subrange(before, pos);
        let q = q0 + added;
        assert(q.take(BLOCK_SIZE as int) =~= blk);
        assert(current.inode_state.data@ + added =~= q.subrange(BLOCK_SIZE as int, q.len() as int));
        assert(is_file_entry_prefix(q));
        if st.remaining_data as int > input.len() - before {
            assert(q.len() < BLOCK_SIZE + size);
        } else {
            assert(q.len() == BLOCK_SIZE + size);
            assert(after.entries().drop_last() =~= base);
        }
    }

    /// What reading header bytes does: short of a whole block, they are kept; a block made whole
    /// is read.
    spec fn header_step_effect(
        before: TarParser<VH>,
        after: TarParser<VH>,
        input: Seq<u8>,
        p0: int,
        p1: int,
        r: Result<TarParserState, TarParserError>,
    ) -> bool {
        &&& before.header_buffer@.len() < BLOCK_SIZE && before.header_buffer@.len() + (input.len() - p0)
            < BLOCK_SIZE ==> {
            &&& p1 == input.len()
            &&& after.entries() == before.entries()
            &&& r matches Ok(s) && s is ReadingTarHeader
            &&& after.header_buffer@ == before.header_buffer@ + input.subrange(p0, input.len() as int)
            &&& after.inode_state == before.inode_state
            &&& after.pax_parser == before.pax_parser
        }
        &&& before.header_buffer@.len() < BLOCK_SIZE && before.header_buffer@.len() + (input.len() - p0)
            >= BLOCK_SIZE ==> {
            &&& p1 == p0 + BLOCK_SIZE - before.header_buffer@.len()
            &&& after.header_buffer@.len() == 0
            &&& TarParser::<VH>::header_block_effect(before, after, before.header_buffer@ + input.subrange(p0, p1), r)
        }
    }

    /// One step of the parser as the write loop runs it: `at_head` before the state is taken
    /// out, `current` once it is, `stepped` after the step, and `after` with the next state put
    /// in; `r` is what the step returned.
    spec fn step_effect(
        at_head: TarParser<VH>,
        current: TarParser<VH>,
        stepped: TarParser<VH>,
        after: TarParser<VH>,
        input: Seq<u8>,
        before: int,
        pos: int,
        st: TarParserState,
        r: Result<TarParserState, TarParserError>,
    ) -> bool {
        &&& (0 <= before <= pos <= input.len())
        &&& (current.header_buffer@ == at_head.header_buffer@)
        &&& (current.inode_state == at_head.inode_state)
        &&& (current.pax_parser == at_head.pax_parser)
        &&& (current.entries() == at_head.entries())
        &&& (current.limits == at_head.limits)
        &&& (st == at_head.parser_state)
        &&& (current.entries().is_prefix_of(stepped.entries()))
        &&& (st is ReadingTarHeader ==> TarParser::<VH>::header_step_effect(current, stepped, input, before, pos, r))
        &&& (st matches TarParserState::ReadingFileData(fs) ==> r matches Ok(ns) && pos == before + min_int(
            fs.remaining_data as int,
            input.len() - before,
        ) && stepped.header_buffer@ == current.header_buffer@ && TarParser::<VH>::file_data_effect(
            current,
            stepped,
            input,
            before,
            pos,
            fs,
            ns,
        ))
        &&& (st matches TarParserState::SkippingData(sk) ==> r matches Ok(ns) && pos == before + min_int(
            sk.remaining_data as int,
            input.len() - before,
        ) && stepped == current && (sk.remaining_data <= input.len() - before ==> ns is ReadingTarHeader)
            && (sk.remaining_data > input.len() - before ==> (ns matches TarParserState::SkippingData(sk2)
            && sk2.remaining_data == sk.remaining_data - (input.len() - before))))
        &&& (r matches Ok(ns) && after.parser_state == ns)
        &&& (after.header_buffer@ == stepped.header_buffer@)
        &&& (after.inode_state == stepped.inode_state)
        &&& (after.pax_parser == stepped.pax_parser)
        &&& (after.entries() == stepped.entries())
    }

    /// One step of the parser moves it from having taken `x0` of a file entry, not yet all of
    /// it, to having taken what the step read of the input too, which stays within the entry; a
    /// step that reads nothing leaves the entry taken as far as it goes.
    proof fn lemma_entry_part_step(
        at_head: TarParser<VH>,
        current: TarParser<VH>,
        stepped: TarParser<VH>,
        after: TarParser<VH>,
        input: Seq<u8>,
        before: int,
        pos: int,
        st: TarParserState,
        r: Result<TarParserState, TarParserError>,
        x0: Seq<u8>,
        mid: Seq<TarInode>,
    )
        requires
            TarParser::<VH>::step_effect(at_head, current, stepped, after, input, before, pos, st, r),
            (at_head.taken_of_file_entry(x0, mid) && !starts_with_whole_file_entry(x0))
                || at_head.file_entry_pending(x0, mid),
            is_file_entry_prefix(x0 + input.subrange(before, pos)),
        ensures
            after.taken_of_file_entry(x0 + input.subrange(before, pos), mid) || after.file_entry_pending(
                x0 + input.subrange(before, pos),
                mid,
            ),
            pos == before ==> after.taken_of_file_entry(x0 + input.subrange(before, pos), mid),
    {
        reveal(TarParser::taken_of_file_entry);
        reveal(TarParser::file_entry_pending);
        let added = input.subrange(before, pos);
        let q = x0 + added;
        let blk = x0.take(BLOCK_SIZE as int);
        if x0.len() >= BLOCK_SIZE {
            assert(q.take(BLOCK_SIZE as int) =~= blk);
        }
        if at_head.file_entry_pending(x0, mid) {
            assert(st is ReadingFileData);
            assert(pos == before);
            assert(q =~= x0);
            assert(after.entries().drop_last() =~= mid);
            assert(q.take(BLOCK_SIZE as int) =~= q);
            assert(q.subrange(BLOCK_SIZE as int, BLOCK_SIZE as int) =~= Seq::<u8>::empty());
            assert(current.inode_state.data@ + added =~= Seq::<u8>::empty());
            assert(after.taken_of_file_entry(q, mid));
        } else if x0.len() < BLOCK_SIZE {
            assert(st is ReadingTarHeader);
            assert(current.header_buffer@ == x0);
            if x0.len() + (input.len() - before) < BLOCK_SIZE {
                assert(after.header_buffer@ =~= q);
                assert(after.taken_of_file_entry(q, mid));
            } else {
                assert(q.len() == BLOCK_SIZE);
                assert(q.take(BLOCK_SIZE as int) =~= q);
                assert(is_file_block(q));
                if block_size(q) == 0 {
                    assert(after.file_entry_pending(q, mid));
                } else {
                    assert(after.inode_state.data@ =~= q.subrange(BLOCK_SIZE as int, q.len() as int));
                    assert(after.taken_of_file_entry(q, mid));
                }
            }
        } else if x0.len() < BLOCK_SIZE + block_size(blk) {
            if let TarParserState::ReadingFileData(fs) = st {
                TarParser::<VH>::lemma_file_data_progress(current, stepped, after, input, before, pos, fs, after.parser_state, x0, mid);
            }
            assert(after.taken_of_file_entry(q, mid));
        } else {
            assert(x0.len() < entry_length(blk));
            assert(st is SkippingData);
            assert(q.subrange(BLOCK_SIZE as int, BLOCK_SIZE + block_size(blk)) =~= x0.subrange(
                BLOCK_SIZE as int,
                BLOCK_SIZE + block_size(blk),
            ));
            assert(after.taken_of_file_entry(q, mid));
        }
    }

    /// A step from a parser that has taken part of a file entry, not all of it, reads no more
    /// than what is left of the entry, and reads something unless the input is at its end.
    proof fn lemma_step_stays_in_entry(
        at_head: TarParser<VH>,
        current: TarParser<VH>,
        stepped: TarParser<VH>,
        after: TarParser<VH>,
        input: Seq<u8>,
        before: int,
        pos: int,
        st: TarParserState,
        r: Result<TarParserState, TarParserError>,
        x0: Seq<u8>,
        m: Seq<TarInode>,
    )
        requires
            TarParser::<VH>::step_effect(at_head, current, stepped, after, input, before, pos, st, r),
            at_head.taken_of_file_entry(x0, m),
            !starts_with_whole_file_entry(x0),
        ensures
            is_file_entry_prefix(x0),
            x0.len() < BLOCK_SIZE ==> x0.len() + (pos - before) <= BLOCK_SIZE,
            x0.len() >= BLOCK_SIZE ==> x0.len() + (pos - before) <= entry_length(x0.take(BLOCK_SIZE as int)),
            pos == before ==> pos == input.len(),
    {
        reveal(TarParser::taken_of_file_entry);
    }

    /// A parser that has just read the header of an empty file has taken a whole entry, and
    /// its next step reads file data of which none is left.
    proof fn lemma_pending_is_whole(&self, x: Seq<u8>, m: Seq<TarInode>)
        requires
            self.file_entry_pending(x, m),
        ensures
            is_whole_file_entry(x),
            starts_with_whole_file_entry(x),
            self.entries() == m,
            self.parser_state == TarParserState::ReadingFileData(
                StateReadingFileData { remaining_data: 0, padding_after: 0 },
            ),
    {
        reveal(TarParser::file_entry_pending);
        assert(x.take(BLOCK_SIZE as int) =~= x);
    }

    /// One step of the parser moves it from having taken `q0` of whole file entries and the start
    /// of one more to having taken what the step read of the input too; a step that reads
    /// nothing from a parser that has not just read the header of an empty file happens only at
    /// the end of the input, and leaves it with the bytes taken as far as they go.
    /// The step of `lemma_file_entries_step` from a parser that has taken whole entries and part
    /// of one more.
    #[verifier::spinoff_prover]
    #[verifier::rlimit(50)]
    proof fn lemma_file_entries_part_step(
        at_head: TarParser<VH>,
        current: TarParser<VH>,
        stepped: TarParser<VH>,
        after: TarParser<VH>,
        input: Seq<u8>,
        before: int,
        pos: int,
        st: TarParserState,
        r: Result<TarParserState, TarParserError>,
        q0: Seq<u8>,
        base: Seq<TarInode>,
    )
        requires
            TarParser::<VH>::step_effect(at_head, current, stepped, after, input, before, pos, st, r),
            at_head.taken_of_file_entries(q0, base),
            is_file_entries_prefix(q0 + input.subrange(before, input.len() as int)),
        ensures
            after.taken_of_file_entries(q0 + input.subrange(before, pos), base)
                || after.file_entries_pending(q0 + input.subrange(before, pos), base),
            pos == before ==> pos == input.len() && after.taken_of_file_entries(q0 + input.subrange(before, pos), base),
    {
        let added = input.subrange(before, pos);
        let q1 = q0 + added;
        let s0 = file_entry_split(q0);
        let x0 = s0.1;
        let ea = at_head.entries();
        let ef = after.entries();
        assert(ef.len() >= ea.len());
        assert(forall|i: int| 0 <= i < ea.len() ==> ef[i] == ea[i]);
        lemma_split_append(q0, added);
        reveal(TarParser::taken_of_file_entries);
        let mid = base.len() + s0.0.len() as int;
        let m = ea.take(mid);
        lemma_split_rest(q0);
        let rest = input.subrange(before, input.len() as int);
        let k = pos - before;
        TarParser::<VH>::lemma_step_stays_in_entry(at_head, current, stepped, after, input, before, pos, st, r, x0, m);
        assert(rest.take(k) =~= added);
        lemma_part_within_entry(q0, rest, k);
        TarParser::<VH>::lemma_entry_part_step(at_head, current, stepped, after, input, before, pos, st, r, x0, m);
        let x1 = x0 + added;
        assert(ef.take(mid) =~= m);
        assert(ef.take(base.len() as int) =~= base);
        assert(ef.subrange(base.len() as int, mid) =~= ea.subrange(base.len() as int, mid));
        if starts_with_whole_file_entry(x1) {
            assert(is_whole_file_entry(x1));
            lemma_split_of_whole(x1);
            let s1 = file_entry_split(q1);
            assert(s1.0 =~= s0.0 + seq![x1]);
            assert(s1.1.len() == 0);
            if after.taken_of_file_entry(x1, m) {
                law_whole_file_entry_is_recorded(&after, x1, m);
                assert(ef.len() == mid + 1);
                assert(ef.take(mid + 1) =~= ef);
                assert(ef[mid] == ef.last());
                assert(records_file_entry(ef[mid], x1));
                assert(records_file_entries(ef.subrange(base.len() as int, mid + 1), s1.0)) by {
                    assert forall|i: int| 0 <= i < s1.0.len() implies #[trigger] records_file_entry(
                        ef.subrange(base.len() as int, mid + 1)[i],
                        s1.0[i],
                    ) by {
                        if i < s0.0.len() {
                            assert(records_file_entry(ea.subrange(base.len() as int, mid)[i], s0.0[i]));
                        }
                    }
                }
                law_fresh_parser_starts_a_file_entry(&after);
                assert(s1.1 =~= Seq::<u8>::empty());
                assert(after.taken_of_file_entries(q1, base));
            } else {
                after.lemma_pending_is_whole(x1, m);
                assert(ef =~= m);
                assert(s1.0.drop_last() =~= s0.0);
                assert(s1.0.last() == x1);
                reveal(TarParser::file_entries_pending);
                assert(after.file_entries_pending(q1, base));
            }
        } else {
            lemma_split_of_part(x1);
            let s1 = file_entry_split(q1);
            assert(s1.0 =~= s0.0);
            if after.file_entry_pending(x1, m) {
                after.lemma_pending_is_whole(x1, m);
            }
            assert(after.taken_of_file_entry(x1, m));
            assert(after.taken_of_file_entries(q1, base));
        }
    }

    /// The step of `lemma_file_entries_step` from a parser that has just read the header of an
    /// empty file.
    #[verifier::spinoff_prover]
    #[verifier::rlimit(50)]
    proof fn lemma_file_entries_pending_step(
        at_head: TarParser<VH>,
        current: TarParser<VH>,
        stepped: TarParser<VH>,
        after: TarParser<VH>,
        input: Seq<u8>,
        before: int,
        pos: int,
        st: TarParserState,
        r: Result<TarParserState, TarParserError>,
        q0: Seq<u8>,
        base: Seq<TarInode>,
    )
        requires
            TarParser::<VH>::step_effect(at_head, current, stepped, after, input, before, pos, st, r),
            at_head.file_entries_pending(q0, base),
        ensures
            after.taken_of_file_entries(q0 + input.subrange(before, pos), base),
    {
        let added = input.subrange(before, pos);
        let q1 = q0 + added;
        let s0 = file_entry_split(q0);
        let x0 = s0.1;
        let ea = at_head.entries();
        let ef = after.entries();
        assert(ef.len() >= ea.len());
        assert(forall|i: int| 0 <= i < ea.len() ==> ef[i] == ea[i]);
        lemma_split_append(q0, added);
        reveal(TarParser::file_entries_pending);
        let mid = base.len() + s0.0.len() - 1int;
        let xl = s0.0.last();
        at_head.lemma_pending_is_whole(xl, ea);
        assert(pos == before);
        assert(added =~= Seq::<u8>::empty());
        assert(xl + added =~= xl);
        TarParser::<VH>::lemma_entry_part_step(at_head, current, stepped, after, input, before, pos, st, r, xl, ea);
        law_whole_file_entry_is_recorded(&after, xl, ea);
        reveal(TarParser::taken_of_file_entries);
        assert(q1 =~= q0);
        assert(ef.len() == mid + 1);
        assert(ef.take(mid + 1) =~= ef);
        assert(ef.take(base.len() as int) =~= base);
        assert(ef[mid] == ef.last());
        assert(records_file_entries(ef.subrange(base.len() as int, mid + 1), s0.0)) by {
            assert forall|i: int| 0 <= i < s0.0.len() implies #[trigger] records_file_entry(
                ef.subrange(base.len() as int, mid + 1)[i],
                s0.0[i],
            ) by {
                if i < s0.0.len() - 1 {
                    assert(records_file_entry(ea.subrange(base.len() as int, mid)[i], s0.0.drop_last()[i]));
                }
            }
        }
        law_fresh_parser_starts_a_file_entry(&after);
        assert(s0.1 =~= Seq::<u8>::empty());
        assert(after.taken_of_file_entries(q1, base));
    }

    /// One step of the parser moves it from having taken `q0` of whole file entries and the start
    /// of one more to having taken what the step read of the input too; a step that reads
    /// nothing from a parser that has not just read the header of an empty file happens only at
    /// the end of the input, and leaves it with the bytes taken as far as they go.
    proof fn lemma_file_entries_step(
        at_head: TarParser<VH>,
        current: TarParser<VH>,
        stepped: TarParser<VH>,
        after: TarParser<VH>,
        input: Seq<u8>,
        before: int,
        pos: int,
        st: TarParserState,
        r: Result<TarParserState, TarParserError>,
        q0: Seq<u8>,
        base: Seq<TarInode>,
    )
        requires
            TarParser::<VH>::step_effect(at_head, current, stepped, after, input, before, pos, st, r),
            at_head.taken_of_file_entries(q0, base) || at_head.file_entries_pending(q0, base),
            is_file_entries_prefix(q0 + input.subrange(before, input.len() as int)),
        ensures
            after.taken_of_file_entries(q0 + input.subrange(before, pos), base)
                || after.file_entries_pending(q0 + input.subrange(before, pos), base),
            pos == before ==> after.taken_of_file_entries(q0 + input.subrange(before, pos), base),
            pos == before && at_head.taken_of_file_entries(q0, base) ==> pos == input.len(),
    {
        if at_head.taken_of_file_entries(q0, base) {
            TarParser::<VH>::lemma_file_entries_part_step(at_head, current, stepped, after, input, before, pos, st, r, q0, base);
        } else {
            TarParser::<VH>::lemma_file_entries_pending_step(at_head, current, stepped, after, input, before, pos, st, r, q0, base);
        }
    }

    /// One step of the parser moves it, as far as a file entry goes, from having taken `q0` of
    /// the entry to having taken what the step read of the input too; a step that reads nothing
    /// happens only at the end of the input, and leaves the entry taken as far as it goes.
    proof fn lemma_file_entry_step(
        at_head: TarParser<VH>,
        current: TarParser<VH>,
        stepped: TarParser<VH>,
        after: TarParser<VH>,
        input: Seq<u8>,
        before: int,
        pos: int,
        st: TarParserState,
        r: Result<TarParserState, TarParserError>,
        q0: Seq<u8>,
        base: Seq<TarInode>,
    )
        requires
            TarParser::<VH>::step_effect(at_head, current, stepped, after, input, before, pos, st, r),
            at_head.taken_of_file_entry(q0, base) || at_head.file_entry_pending(q0, base),
            is_file_entry_prefix(q0 + input.subrange(before, input.len() as int)),
        ensures
            after.taken_of_file_entry(q0 + input.subrange(before, pos), base) || after.file_entry_pending(
                q0 + input.subrange(before, pos),
                base,
            ),
            pos == before ==> pos == input.len() && after.taken_of_file_entry(q0 + input.subrange(before, pos), base),
    {
        reveal(TarParser::taken_of_file_entry);
        reveal(TarParser::file_entry_pending);
        let whole = q0 + input.subrange(before, input.len() as int);
        let added = input.subrange(before, pos);
        let q = q0 + added;
        let blk = q0.take(BLOCK_SIZE as int);
        assert(whole.take(q.len() as int) =~= q);
        assert(whole.take(q0.len() as int) =~= q0);
        if q.len() >= BLOCK_SIZE {
            assert(whole.take(BLOCK_SIZE as int) =~= q.take(BLOCK_SIZE as int));
        }
        if q0.len() >= BLOCK_SIZE {
            assert(q.take(BLOCK_SIZE as int) =~= q0.take(BLOCK_SIZE as int));
        }
        if at_head.file_entry_pending(q0, base) {
            assert(st is ReadingFileData);
            assert(pos == before);
            assert(q =~= q0);
            assert(after.entries().drop_last() =~= base);
            assert(q.take(BLOCK_SIZE as int) =~= q);
            assert(q.subrange(BLOCK_SIZE as int, BLOCK_SIZE as int) =~= Seq::<u8>::empty());
            assert(current.inode_state.data@ + added =~= Seq::<u8>::empty());
            assert(after.taken_of_file_entry(q, base));
        } else if q0.len() < BLOCK_SIZE {
            assert(st is ReadingTarHeader);
            assert(current.header_buffer@ == q0);
            if q0.len() + (input.len() - before) < BLOCK_SIZE {
                assert(after.header_buffer@ =~= q);
                assert(after.taken_of_file_entry(q, base));
            } else {
                assert(q.len() == BLOCK_SIZE);
                assert(q.take(BLOCK_SIZE as int) =~= q);
                assert(is_file_block(q));
                if block_size(q) == 0 {
                    assert(after.file_entry_pending(q, base));
                } else {
                    assert(after.inode_state.data@ =~= q.subrange(BLOCK_SIZE as int, q.len() as int));
                    assert(after.taken_of_file_entry(q, base));
                }
            }
        } else if q0.len() < BLOCK_SIZE + block_size(blk) {
            if let TarParserState::ReadingFileData(fs) = st {
                TarParser::<VH>::lemma_file_data_progress(current, stepped, after, input, before, pos, fs, after.parser_state, q0, base);
            }
            assert(after.taken_of_file_entry(q, base));
        } else if q0.len() < entry_length(blk) {
            assert(st is SkippingData);
            assert(q.subrange(BLOCK_SIZE as int, BLOCK_SIZE + block_size(blk)) =~= q0.subrange(
                BLOCK_SIZE as int,
                BLOCK_SIZE + block_size(blk),
            ));
            assert(after.taken_of_file_entry(q, base));
        } else {
            assert(st is ReadingTarHeader);
            assert(pos == before);
            assert(after.taken_of_file_entry(q, base));
        }
    }

    /// What one round of the write loop keeps of the bytes taken: for every start `p` of whole
    /// file entries that the parser had taken when the write began, the parser has now taken
    /// `p` and the input up to `pos`; when the round read nothing, it has taken them as far as
    /// they go, and in the first round the input was empty.
    proof fn lemma_write_round_entries(
        start: TarParser<VH>,
        at_head: TarParser<VH>,
        current: TarParser<VH>,
        stepped: TarParser<VH>,
        after: TarParser<VH>,
        input: Seq<u8>,
        before: int,
        pos: int,
        st: TarParserState,
        r: Result<TarParserState, TarParserError>,
    )
        requires
            TarParser::<VH>::step_effect(at_head, current, stepped, after, input, before, pos, st, r),
            before == 0 ==> at_head == start,
            forall|p: Seq<u8>, base: Seq<TarInode>|
                #[trigger] start.taken_of_file_entries(p, base) && is_file_entries_prefix(p + input)
                    ==> at_head.taken_of_file_entries(p + input.take(before), base)
                    || at_head.file_entries_pending(p + input.take(before), base),
        ensures
            forall|p: Seq<u8>, base: Seq<TarInode>|
                #[trigger] start.taken_of_file_entries(p, base) && is_file_entries_prefix(p + input) ==> {
                    &&& after.taken_of_file_entries(p + input.take(pos), base)
                        || after.file_entries_pending(p + input.take(pos), base)
                    &&& pos == before ==> after.taken_of_file_entries(p + input.take(pos), base)
                    &&& pos == before && before == 0 ==> pos == input.len()
                },
    {
        assert forall|p: Seq<u8>, base: Seq<TarInode>|
            #[trigger] start.taken_of_file_entries(p, base) && is_file_entries_prefix(p + input) implies {
                &&& after.taken_of_file_entries(p + input.take(pos), base)
                    || after.file_entries_pending(p + input.take(pos), base)
                &&& pos == before ==> after.taken_of_file_entries(p + input.take(pos), base)
                &&& pos == before && before == 0 ==> pos == input.len()
            } by {
            let q0 = p + input.take(before);
            assert(p + input =~= q0 + input.subrange(before, input.len() as int));
            assert(p + input.take(pos) =~= q0 + input.subrange(before, pos));
            if before == 0 {
                assert(q0 =~= p);
            }
            TarParser::<VH>::lemma_file_entries_step(at_head, current, stepped, after, input, before, pos, st, r, q0, base);
        }
    }

    /// Nothing of a next entry is known yet, and no path attribute or sparse map is held.
    spec fn between_entries(&self) -> bool {
        &&& self.header_buffer@.len() == 0
        &&& self.inode_state.file_path.held() is None
        &&& self.inode_state.data@.len() == 0
        &&& self.inode_state.sparse_file_instructions.items().len() == 0
        &&& self.inode_state.data_after_header_size.held() is None
        &&& self.inode_state.uid.held() is None
        &&& self.inode_state.gid.held() is None
        &&& self.inode_state.mtime.held() is None
        &&& self.inode_state.mode.held() is None
        &&& self.pax_parser.holds_no_path()
        &&& self.pax_parser.sparse_map().len() == 0
    }

    fn build(keep_only_last: bool, limits: TarParserLimits, pax_parser: PaxParser, violation_handler: VH) -> (r: Self)
        requires
            pax_parser.wf(),
            pax_parser.max_sparse_map() == limits.max_sparse_file_instructions,
            pax_parser.sparse_map().len() <= pax_parser.max_sparse_map(),
        ensures
            r.wf(),
            r.keeps_only_last() == keep_only_last,
            r.files() == Seq::<TarInode>::empty(),
            r.entries() == Seq::<TarInode>::empty(),
            pax_parser.holds_no_path() && pax_parser.sparse_map().len() == 0 ==> r.at_fresh_header(),
    {
        let max_sparse = limits.max_sparse_file_instructions;
        TarParser {
            extracted_files: Vec::new(),
            found_type_flags: TypeFlagCounts::new(),
            violation_handler,
            inode_state: InodeBuilder::new(max_sparse),
            seen_files: PathIndex::new(),
            keep_only_last,
            parser_state: TarParserState::ReadingTarHeader,
            pax_parser,
            header_buffer: Vec::new(),
            sparse_parser: GnuSparse1_0Parser::new(),
            limits,
            entries: Ghost(Seq::empty()),
            consumed: Ghost(Seq::empty()),
        }
    }

    /// A parser with the given options; the initial global attributes are taken in the order
    /// in which their map is walked, and a violation among them that the handler does not let
    /// pass is returned.
    pub fn new(options: TarParserOptions, violation_handler: VH) -> (r: Result<Self, TarParserError>)
        ensures
            r matches Ok(p) ==> p.wf() && p.keeps_only_last() == options.keep_only_last && p.files()
                == Seq::<TarInode>::empty() && p.entries() == Seq::<TarInode>::empty(),
            options.initial_global_extended_attributes.contents().dom().len() == 0 ==> (r matches Ok(p)
                && p.at_fresh_header()),
    {
        let mut violation_handler = violation_handler;
        let limits = options.tar_parser_limits;
        let pax_parser = {
            let mut vhw = VHW(&mut violation_handler);
            PaxParser::try_new(
                &mut vhw,
                options.initial_global_extended_attributes,
                limits.max_global_attributes,
                limits.max_unparsed_global_attributes,
                limits.max_unparsed_local_attributes,
                limits.max_pax_key_value_length,
                limits.max_sparse_file_instructions,
            )
        };
        match pax_parser {
            Ok(p) => Ok(TarParser::build(options.keep_only_last, limits, p, violation_handler)),
            Err(e) => Err(e),
        }
    }

    /// Forgets the local attributes and the record being parsed; returns what was known of the
    /// entry, with the global attributes loaded.
    fn recover_internal(&mut self) -> (r: InodeBuilder)
        ensures
            old(self).wf() ==> final(self).wf(),
            final(self).files() == old(self).files(),
            final(self).entries() == old(self).entries(),
            final(self).keeps_only_last() == old(self).keeps_only_last(),
            final(self).header_buffer@ == old(self).header_buffer@,
            old(self).pax_parser.holds_no_path() ==> r.file_path.held() == old(self).inode_state.file_path.held()
                && final(self).pax_parser.holds_no_path(),
            r.data@ == old(self).inode_state.data@,
            r.contiguous_file == old(self).inode_state.contiguous_file,
            old(self).pax_parser.holds_no_path() && old(self).inode_state.sparse_file_instructions.items().len() == 0
                ==> r.sparse_file_instructions.items().len() == 0,
            final(self).pax_parser.sparse_map().len() == 0,
            final(self).inode_state.is_empty(old(self).limits.max_sparse_file_instructions),
            final(self).limits == old(self).limits,
            final(self).parser_state is ReadingTarHeader,
            r.uid.held() == updated(old(self).inode_state.uid.held(), pax_held(final(self).pax_parser.uid_value())),
            r.gid.held() == updated(old(self).inode_state.gid.held(), pax_held(final(self).pax_parser.gid_value())),
            r.mtime.held() == updated(
                old(self).inode_state.mtime.held(),
                pax_held(final(self).pax_parser.mtime_value()),
            ),
            r.uname.held() == updated(
                old(self).inode_state.uname.held(),
                pax_held(final(self).pax_parser.uname_value()),
            ),
            r.gname.held() == updated(
                old(self).inode_state.gname.held(),
                pax_held(final(self).pax_parser.gname_value()),
            ),
            r.link_target.held() == updated(
                old(self).inode_state.link_target.held(),
                pax_held(final(self).pax_parser.link_path_value()),
            ),
            r.mode == old(self).inode_state.mode,
            r.file_path.held() == loaded_path(old(self).inode_state, final(self).pax_parser),
            r.sparse_format == (if old(self).inode_state.sparse_format is None {
                final(self).pax_parser.sparse_format_spec()
            } else {
                old(self).inode_state.sparse_format
            }),
            final(self).pax_parser.path_value().local_value() is None,
            final(self).pax_parser.path_value().global_value() == old(self).pax_parser.path_value().global_value(),
            final(self).pax_parser.gnu_sparse_major_value().local_value() is None,
            final(self).pax_parser.gnu_sparse_major_value().global_value() == old(
                self,
            ).pax_parser.gnu_sparse_major_value().global_value(),
            final(self).pax_parser.gnu_sparse_minor_value().local_value() is None,
            final(self).pax_parser.gnu_sparse_minor_value().global_value() == old(
                self,
            ).pax_parser.gnu_sparse_minor_value().global_value(),
            r.dev_major == old(self).inode_state.dev_major,
            r.dev_minor == old(self).inode_state.dev_minor,
            final(self).pax_parser.uid_value().local_value() is None,
            final(self).pax_parser.uid_value().global_value() == old(self).pax_parser.uid_value().global_value(),
            final(self).pax_parser.gid_value().local_value() is None,
            final(self).pax_parser.gid_value().global_value() == old(self).pax_parser.gid_value().global_value(),
            final(self).pax_parser.mtime_value().local_value() is None,
            final(self).pax_parser.mtime_value().global_value() == old(self).pax_parser.mtime_value().global_value(),
            final(self).pax_parser.uname_value().local_value() is None,
            final(self).pax_parser.uname_value().global_value() == old(self).pax_parser.uname_value().global_value(),
            final(self).pax_parser.gname_value().local_value() is None,
            final(self).pax_parser.gname_value().global_value() == old(self).pax_parser.gname_value().global_value(),
            final(self).pax_parser.link_path_value().local_value() is None,
            final(self).pax_parser.link_path_value().global_value() == old(
                self,
            ).pax_parser.link_path_value().global_value(),
    {
        self.pax_parser.recover();
        proof {
            if self.pax_parser.holds_no_path() {
                self.pax_parser.lemma_no_path_no_sparse_format();
            }
        }
        self.pax_parser.load_pax_attributes_into_inode_builder(&mut self.inode_state);
        self.parser_state = TarParserState::ReadingTarHeader;
        let mut fresh = InodeBuilder::new(self.limits.max_sparse_file_instructions);
        core::mem::swap(&mut fresh, &mut self.inode_state);
        fresh
    }

    /// Forgets the local attributes and what was read of the entry being parsed, so that parsing
    /// can go on with the next header after an error.
    pub fn recover(&mut self)
        ensures
            old(self).wf() ==> final(self).wf(),
            final(self).files() == old(self).files(),
            final(self).entries() == old(self).entries(),
            final(self).recovered(*old(self)),
    {
        self.recover_internal();
    }

    /// Returns the currently active global extended pax attributes.
    pub fn get_global_extended_attributes(&self) -> (r: &StringMap)
        ensures
            r.contents() == self.global_attributes(),
    {
        self.pax_parser.global_extended_attributes()
    }

    /// Returns the files that have been extracted so far.
    pub fn get_extracted_files(&self) -> (r: &[TarInode])
        ensures
            r@ == self.files(),
    {
        self.extracted_files.as_slice()
    }

    /// Returns the number of headers found with each type flag.
    pub fn get_found_type_flags(&self) -> (r: &TypeFlagCounts)
        ensures
            r.contents() == self.type_flag_counts(),
    {
        &self.found_type_flags
    }

    /// The number of headers found with a type flag.
    pub fn found_type_flag_count(&self, flag: TarTypeFlag) -> (r: usize)
        ensures
            self.type_flag_counts().dom().contains(type_flag_byte(flag)) ==> r
                == self.type_flag_counts()[type_flag_byte(flag)],
            !self.type_flag_counts().dom().contains(type_flag_byte(flag)) ==> r == 0,
    {
        match self.found_type_flags.get(u8::from(flag)) {
            Some(n) => n,
            None => 0,
        }
    }

    /// Adds the non-empty entries of an old GNU sparse map that parse; others are skipped.
    fn parse_old_gnu_sparse_instructions(inode_state: &mut InodeBuilder, sparse_headers: &Vec<GnuSparseInstruction>)
        ensures
            old(inode_state).wf() ==> final(inode_state).wf(),
            final(inode_state).sparse_file_instructions.limit() == old(inode_state).sparse_file_instructions.limit(),
            final(inode_state).file_path == old(inode_state).file_path,
            final(inode_state).data_after_header_size == old(inode_state).data_after_header_size,
            ({
                let before = old(inode_state).sparse_file_instructions.items();
                let after = final(inode_state).sparse_file_instructions.items();
                &&& before.is_prefix_of(after)
                &&& is_subsequence(after.skip(before.len() as int), old_gnu_sparse_map(sparse_headers@))
            }),
    {
        let ghost before = inode_state.sparse_file_instructions.items();
        let mut i: usize = 0;
        proof {
            assert(inode_state.sparse_file_instructions.items().skip(before.len() as int) =~= Seq::<
                SparseFileInstruction,
            >::empty());
            assert(sparse_headers@.take(0) =~= Seq::<GnuSparseInstruction>::empty());
        }
        while i < sparse_headers.len()
            invariant
                old(inode_state).wf() ==> inode_state.wf(),
                inode_state.sparse_file_instructions.limit() == old(inode_state).sparse_file_instructions.limit(),
                inode_state.file_path == old(inode_state).file_path,
                inode_state.data_after_header_size == old(inode_state).data_after_header_size,
                i <= sparse_headers@.len(),
                before == old(inode_state).sparse_file_instructions.items(),
                before.is_prefix_of(inode_state.sparse_file_instructions.items()),
                is_subsequence(
                    inode_state.sparse_file_instructions.items().skip(before.len() as int),
                    old_gnu_sparse_map(sparse_headers@.take(i as int)),
                ),
            decreases sparse_headers@.len() - i,
        {
            let header = &sparse_headers[i];
            let ghost added = inode_state.sparse_file_instructions.items().skip(before.len() as int);
            let ghost m = old_gnu_sparse_map(sparse_headers@.take(i as int));
            proof {
                assert(sparse_headers@.take(i + 1).drop_last() =~= sparse_headers@.take(i as int));
                assert(sparse_headers@.take(i + 1).last() == *header);
            }
            if !header.is_empty() {
                match header.convert_to_sparse_instruction() {
                    Ok(instruction) => {
                        let ghost items0 = inode_state.sparse_file_instructions.items();
                        let pushed = inode_state.sparse_file_instructions.push(instruction);
                        proof {
                            assert(old_gnu_sparse_entry(*header) == Some(instruction));
                            let m1 = m.push(instruction);
                            assert(old_gnu_sparse_map(sparse_headers@.take(i + 1)) == m1);
                            if pushed is Ok {
                                let a1 = inode_state.sparse_file_instructions.items().skip(before.len() as int);
                                assert(a1 =~= added.push(instruction));
                                assert(a1.drop_last() =~= added);
                                assert(m1.drop_last() =~= m);
                                assert(is_subsequence(a1, m1));
                            } else {
                                assert(m1.drop_last() =~= m);
                                assert(is_subsequence(added, m1));
                            }
                        }
                    },
                    Err(_) => {
                        proof {
                            assert(old_gnu_sparse_entry(*header) is None);
                        }
                    },
                }
            } else {
                proof {
                    assert(old_gnu_sparse_entry(*header) is None);
                }
            }
            i = i + 1;
        }
        proof {
            assert(sparse_headers@.take(i as int) =~= sparse_headers@);
        }
    }

    /// Puts together the entry from what is known of it and adds it to the extracted files,
    /// replacing an earlier version of its path when only the last version is kept.
    #[verifier::spinoff_prover]
    #[verifier::rlimit(40)]
    fn finish_inode(&mut self, kind: EntryKind)
        ensures
            old(self).wf() ==> final(self).wf(),
            final(self).keeps_only_last() == old(self).keeps_only_last(),
            !old(self).keeps_only_last() ==> final(self).files().len() == old(self).files().len() + 1
                && old(self).files().is_prefix_of(final(self).files()),
            old(self).keeps_only_last() ==> final(self).files().len() == old(self).files().len()
                || final(self).files().len() == old(self).files().len() + 1,
            final(self).entries().len() == old(self).entries().len() + 1,
            old(self).entries().is_prefix_of(final(self).entries()),
            final(self).header_buffer@ == old(self).header_buffer@,
            old(self).pax_parser.holds_no_path() ==> ({
                let entry = final(self).entries().last();
                &&& relative_path_text(entry.path) == (match old(self).inode_state.file_path.held() {
                    Some((_, p)) => p@,
                    None => Seq::<char>::empty(),
                })
                &&& kind is Directory ==> entry.entry is Directory
                &&& kind is RegularFile && old(self).pax_parser.sparse_map().len() == 0
                    && old(self).inode_state.sparse_file_instructions.items().len() == 0
                    ==> (entry.entry matches FileEntry::RegularFile(f) && f.data matches FileData::Regular(d)
                    && d@ == old(self).inode_state.data@)
                &&& final(self).pax_parser.holds_no_path()
            }),
            final(self).pax_parser.sparse_map().len() == 0,
            final(self).inode_state.is_empty(old(self).limits.max_sparse_file_instructions),
            final(self).limits == old(self).limits,
            ({
                let entry = final(self).entries().last();
                let p = old(self).pax_parser;
                let b = old(self).inode_state;
                &&& entry.uid == held_or(updated(b.uid.held(), pax_held(p.uid_value())), 0u32)
                &&& entry.gid == held_or(updated(b.gid.held(), pax_held(p.gid_value())), 0u32)
                &&& entry.mtime == held_or(
                    updated(b.mtime.held(), pax_held(p.mtime_value())),
                    TimeStamp { seconds_since_epoch: 0, nanoseconds: 0 },
                )
                &&& entry.uname@ == held_text(updated(b.uname.held(), pax_held(p.uname_value())))
                &&& entry.gname@ == held_text(updated(b.gname.held(), pax_held(p.gname_value())))
                &&& entry.mode == held_or(b.mode.held(), default_permissions())
                &&& kind is SymbolicLink ==> (entry.entry matches FileEntry::SymbolicLink(l) && relative_path_text(
                    l.link_target,
                ) == held_text(updated(b.link_target.held(), pax_held(p.link_path_value()))))
                &&& kind is HardLink ==> (entry.entry matches FileEntry::HardLink(l) && relative_path_text(
                    l.link_target,
                ) == held_text(updated(b.link_target.held(), pax_held(p.link_path_value()))))
                &&& kind is CharacterDevice ==> entry.entry == FileEntry::CharacterDevice(
                    CharacterDeviceEntry { major: b.dev_major, minor: b.dev_minor },
                )
                &&& kind is BlockDevice ==> entry.entry == FileEntry::BlockDevice(
                    BlockDeviceEntry { major: b.dev_major, minor: b.dev_minor },
                )
                &&& kind is Fifo ==> entry.entry is Fifo
                &&& kind is Directory ==> entry.entry is Directory
                &&& kind is RegularFile ==> entry.entry is RegularFile
                &&& relative_path_text(entry.path) == held_text(loaded_path(b, p))
            }),
    {
        proof {
            if self.pax_parser.holds_no_path() {
                self.pax_parser.lemma_no_path_no_sparse_format();
            }
        }
        self.pax_parser.load_pax_attributes_into_inode_builder(&mut self.inode_state);
        let ghost loaded = self.inode_state;
        let ghost p0 = self.pax_parser;
        let builder = self.recover_internal();
        proof {
            lemma_reload(old(self).inode_state.uid.held(), p0.uid_value(), self.pax_parser.uid_value());
            lemma_reload(old(self).inode_state.gid.held(), p0.gid_value(), self.pax_parser.gid_value());
            lemma_reload(old(self).inode_state.mtime.held(), p0.mtime_value(), self.pax_parser.mtime_value());
            lemma_reload(old(self).inode_state.uname.held(), p0.uname_value(), self.pax_parser.uname_value());
            lemma_reload(old(self).inode_state.gname.held(), p0.gname_value(), self.pax_parser.gname_value());
            lemma_reload(
                old(self).inode_state.link_target.held(),
                p0.link_path_value(),
                self.pax_parser.link_path_value(),
            );
            if loaded.sparse_format is None {
                lemma_no_sparse_format_after_recover(p0, self.pax_parser);
            }
            lemma_reload(
                if old(self).inode_state.sparse_format is None && p0.sparse_format_spec() is Some {
                    updated(old(self).inode_state.file_path.held(), pax_held(p0.gnu_sparse_name_value()))
                } else {
                    old(self).inode_state.file_path.held()
                },
                p0.path_value(),
                self.pax_parser.path_value(),
            );
            assert(builder.file_path.held() == loaded_path(old(self).inode_state, p0));
        }
        let path: String = match builder.file_path.get() {
            Some(p) => p.clone(),
            None => String::new(),
        };
        let mode = match builder.mode.get() {
            Some(m) => *m,
            None => FilePermissions::default(),
        };
        let uid = match builder.uid.get() {
            Some(v) => *v,
            None => 0,
        };
        let gid = match builder.gid.get() {
            Some(v) => *v,
            None => 0,
        };
        let mtime = match builder.mtime.get() {
            Some(v) => *v,
            None => TimeStamp::default(),
        };
        let uname = match builder.uname.get() {
            Some(v) => v.clone(),
            None => String::new(),
        };
        let gname = match builder.gname.get() {
            Some(v) => v.clone(),
            None => String::new(),
        };
        let unparsed_extended_attributes = self.pax_parser.drain_local_unparsed_attributes();
        let entry = match kind {
            EntryKind::HardLink => {
                let target = match builder.link_target.get() {
                    Some(v) => v.clone(),
                    None => String::new(),
                };
                FileEntry::HardLink(HardLinkEntry { link_target: relative_path_from_string(target) })
            },
            EntryKind::SymbolicLink => {
                let target = match builder.link_target.get() {
                    Some(v) => v.clone(),
                    None => String::new(),
                };
                FileEntry::SymbolicLink(SymbolicLinkEntry { link_target: relative_path_from_string(target) })
            },
            EntryKind::CharacterDevice => FileEntry::CharacterDevice(
                CharacterDeviceEntry { major: builder.dev_major, minor: builder.dev_minor },
            ),
            EntryKind::BlockDevice => FileEntry::BlockDevice(
                BlockDeviceEntry { major: builder.dev_major, minor: builder.dev_minor },
            ),
            EntryKind::Directory => FileEntry::Directory,
            EntryKind::Fifo => FileEntry::Fifo,
            EntryKind::RegularFile => FileEntry::RegularFile(builder.into_regular_file_entry()),
        };
        let key = path.clone();
        let inode = TarInode {
            path: relative_path_from_string(path),
            entry,
            mode,
            uid,
            gid,
            mtime,
            uname,
            gname,
            unparsed_extended_attributes,
        };
        let ghost entries0 = self.entries@;
        let ghost was_wf = self.wf();
        self.entries = Ghost(self.entries@.push(inode));
        proof {
            assert(self.entries@.subrange(0, entries0.len() as int) =~= entries0);
            assert(self.entries@.drop_last() =~= entries0);
        }
        if self.keep_only_last {
            match self.seen_files.get(key.as_str()) {
                Some(index) => {
                    if index >= self.extracted_files.len() {
                        self.extracted_files.push(inode);
                        return;
                    }
                    let ghost files0 = self.extracted_files@;
                    self.extracted_files.set(index, inode);
                    proof {
                        if was_wf {
                        let files = self.extracted_files@;
                        assert forall|i: int, j: int|
                            0 <= i < j < files.len() implies relative_path_text(#[trigger] files[i].path)
                            != relative_path_text(#[trigger] files[j].path) by {
                            if i == index as int {
                                assert(self.seen_files.contents()[relative_path_text(files0[j].path)] == j);
                            } else if j == index as int {
                                assert(self.seen_files.contents()[relative_path_text(files0[i].path)] == i);
                            } else {
                                assert(files[i] == files0[i]);
                                assert(files[j] == files0[j]);
                            }
                        }
                        assert forall|i: int|
                            0 <= i < files.len() implies self.seen_files.contents().dom().contains(
                            relative_path_text(#[trigger] files[i].path),
                        ) && self.seen_files.contents()[relative_path_text(files[i].path)] == i by {
                            if i != index as int {
                                assert(files[i] == files0[i]);
                            }
                        }
                        assert forall|k: Seq<char>|
                            #[trigger] self.seen_files.contents().dom().contains(k) implies self.seen_files.contents()[k]
                            < files.len() && relative_path_text(files[self.seen_files.contents()[k] as int].path)
                            == k by {
                            let p = self.seen_files.contents()[k] as int;
                            if p != index as int {
                                assert(files[p] == files0[p]);
                            }
                        }
                        let last = self.entries@.last();
                        assert(relative_path_text(last.path) == key@);
                        assert(relative_path_text(files0[index as int].path) == key@);
                        lemma_path_position_found(files0, index as int);
                        assert(keep_last(entries0) == files0);
                        assert(keep_last(self.entries@) == files0.update(index as int, last));
                        assert(files =~= keep_last(self.entries@));
                        }
                    }
                },
                None => {
                    let position = self.extracted_files.len();
                    let ghost files0 = self.extracted_files@;
                    let ghost seen0 = self.seen_files.contents();
                    self.seen_files.insert(key, position);
                    self.extracted_files.push(inode);
                    proof {
                        if was_wf {
                        let files = self.extracted_files@;
                        let seen = self.seen_files.contents();
                        assert(files[position as int] == inode);
                        assert forall|i: int, j: int|
                            0 <= i < j < files.len() implies relative_path_text(#[trigger] files[i].path)
                            != relative_path_text(#[trigger] files[j].path) by {
                            if j == position as int {
                                assert(files[i] == files0[i]);
                                assert(seen0.dom().contains(relative_path_text(files0[i].path)));
                            } else {
                                assert(files[i] == files0[i]);
                                assert(files[j] == files0[j]);
                            }
                        }
                        assert forall|i: int|
                            0 <= i < files.len() implies seen.dom().contains(
                            relative_path_text(#[trigger] files[i].path),
                        ) && seen[relative_path_text(files[i].path)] == i by {
                            if i != position as int {
                                assert(files[i] == files0[i]);
                                assert(seen0.dom().contains(relative_path_text(files0[i].path)));
                            }
                        }
                        assert forall|k: Seq<char>|
                            #[trigger] seen.dom().contains(k) implies seen[k] < files.len() && relative_path_text(
                            files[seen[k] as int].path,
                        ) == k by {
                            if k != key@ {
                                assert(seen0.dom().contains(k));
                                assert(files[seen0[k] as int] == files0[seen0[k] as int]);
                            }
                        }
                        assert forall|i: int| 0 <= i < files0.len() implies relative_path_text(
                            #[trigger] files0[i].path,
                        ) != key@ by {
                            assert(seen0.dom().contains(relative_path_text(files0[i].path)));
                        }
                        lemma_path_position_absent(files0, key@);
                        assert(files =~= keep_last(self.entries@));
                        }
                    }
                },
            }
        } else {
            let ghost files0 = self.extracted_files@;
            self.extracted_files.push(inode);
            proof {
                assert(self.extracted_files@.subrange(0, files0.len() as int) =~= files0);
                if was_wf {
                    assert(self.extracted_files@ =~= self.entries@);
                }
            }
        }
    }

    /// The state for the data of a regular file: its sparse map first for the GNU sparse 1.0
    /// format.
    fn compute_file_parsing_state(&mut self, data_after_header: usize, padding_after_data: usize) -> (r: TarParserState)
        ensures
            old(self).wf() ==> final(self).wf(),
            final(self).files() == old(self).files(),
            final(self).entries() == old(self).entries(),
            final(self).keeps_only_last() == old(self).keeps_only_last(),
            final(self).inode_state == old(self).inode_state,
            final(self).pax_parser == old(self).pax_parser,
            final(self).header_buffer@ == old(self).header_buffer@,
            old(self).pax_parser.sparse_format_spec() is None ==> r == TarParserState::ReadingFileData(
                StateReadingFileData { remaining_data: data_after_header, padding_after: padding_after_data },
            ),
    {
        if self.pax_parser.get_sparse_format() == Some(SparseFormat::Gnu1_0) {
            self.sparse_parser.reset();
            TarParserState::ParsingGnuSparse1_0(StateParsingGnuSparse1_0 { data_after_header, padding_after: padding_after_data })
        } else {
            TarParserState::ReadingFileData(StateReadingFileData { remaining_data: data_after_header, padding_after: padding_after_data })
        }
    }

    /// Skips `data_after_header` bytes, if any, then reads the next header.
    fn compute_opt_skip_state(data_after_header: usize, context: &'static str) -> (r: TarParserState)
        ensures
            data_after_header > 0 ==> r == TarParserState::SkippingData(
                StateSkippingData { remaining_data: data_after_header, context },
            ),
            data_after_header == 0 ==> r is ReadingTarHeader,
    {
        if data_after_header > 0 {
            TarParserState::SkippingData(StateSkippingData { remaining_data: data_after_header, context })
        } else {
            TarParserState::ReadingTarHeader
        }
    }

    /// Reports a violation; the handler decides whether parsing goes on.
    fn hpv(vh: &mut VH, kind: TarParserErrorKind) -> (r: Result<(), TarParserError>)
        ensures
            r == Ok::<(), TarParserError>(()) || r == Err::<(), TarParserError>(violation(kind)),
    {
        let mut vhw = VHW(vh);
        vhw.hpve(kind)
    }

    /// Reads a `ustar` header: the `v7` fields, then, for a file-like entry, the user and group
    /// names, the device numbers and the path prefix.
    fn parse_ustar_header(
        vh: &mut VH,
        found_type_flags: &mut TypeFlagCounts,
        inode_state: &mut InodeBuilder,
        header: &V7Header,
    ) -> (r: Result<TarTypeFlag, TarParserError>)
        ensures
            old(inode_state).wf() ==> final(inode_state).wf(),
            final(inode_state).sparse_file_instructions == old(inode_state).sparse_file_instructions,
            r matches Ok(flag) ==> flag == crate::tar::header::type_flag_of(header.typeflag),
            final(inode_state).data@ == old(inode_state).data@,
            r is Ok && old(inode_state).data_after_header_size.held() is None && valid_utf8(
                until_nul(header.size@),
            ) ==> (octal_value(header.size@) matches Ok(v)
                ==> final(inode_state).data_after_header_size.held() == Some(
                (TarConfidence::V7, (v as u32) as usize),
            )),
            r is Ok && crate::tar::header::type_flag_of(header.typeflag).spec_is_file_like()
                && old(inode_state).file_path.held() is None && valid_utf8(until_nul(header.name_bytes@))
                && valid_utf8(until_nul(header.padding@.subrange(80, 235)))
                ==> (final(inode_state).file_path.held() matches Some((_, p)) && p@ == ustar_joined(
                decode_utf8(until_nul(header.padding@.subrange(80, 235))),
                decode_utf8(until_nul(header.name_bytes@)),
            )),
            v7_header_well_formed(*header) && (crate::tar::header::type_flag_of(header.typeflag).spec_is_file_like()
                ==> common_fields_well_formed(header.padding@) && valid_utf8(
                until_nul(header.padding@.subrange(80, 235)),
            )) ==> r is Ok,
    {
        let typeflag = match TarParser::<VH>::parse_v7_header(vh, found_type_flags, inode_state, header) {
            Ok(f) => f,
            Err(e) => {
                return Err(e);
            },
        };
        if typeflag.is_file_like() {
            let common = CommonHeaderAdditions::from_bytes(header.padding.as_slice()).unwrap();
            match TarParser::<VH>::parse_common_header_additions(vh, inode_state, &common) {
                Ok(()) => {},
                Err(e) => {
                    return Err(e);
                },
            }
            let ustar = UstarHeaderAdditions::from_bytes(common.padding.as_slice()).unwrap();
            proof {
                assert(common.padding@ =~= common.bytes().subrange(80, 247));
                assert(ustar.prefix@ =~= ustar.bytes().subrange(0, 155));
                assert(ustar.prefix@ =~= header.padding@.subrange(80, 235));
            }
            match TarParser::<VH>::apply_ustar_prefix(vh, &mut inode_state.file_path, &ustar) {
                Ok(()) => {},
                Err(e) => {
                    return Err(e);
                },
            }
        }
        Ok(typeflag)
    }

    /// Reads the fields of the `v7` header, as far as the type flag asks for them.
    #[verifier::spinoff_prover]
    #[verifier::rlimit(60)]
    fn parse_v7_header(
        vh: &mut VH,
        found_type_flags: &mut TypeFlagCounts,
        inode_state: &mut InodeBuilder,
        old_header: &V7Header,
    ) -> (r: Result<TarTypeFlag, TarParserError>)
        ensures
            old(inode_state).wf() ==> final(inode_state).wf(),
            final(inode_state).sparse_file_instructions == old(inode_state).sparse_file_instructions,
            r matches Ok(flag) ==> flag == crate::tar::header::type_flag_of(old_header.typeflag),
            r is Ok && crate::tar::header::type_flag_of(old_header.typeflag).spec_is_file_like()
                && !old(inode_state).file_path.superior_to(TarConfidence::V7) && valid_utf8(
                until_nul(old_header.name_bytes@),
            ) ==> (final(inode_state).file_path.held() matches Some((c, p)) && c == TarConfidence::V7
                && p@ == decode_utf8(until_nul(old_header.name_bytes@))),
            final(inode_state).data@ == old(inode_state).data@,
            final(inode_state).sparse_format == old(inode_state).sparse_format,
            r is Ok && old(inode_state).data_after_header_size.held() is None && valid_utf8(
                until_nul(old_header.size@),
            ) ==> (octal_value(old_header.size@) matches Ok(v)
                ==> final(inode_state).data_after_header_size.held() == Some(
                (TarConfidence::V7, (v as u32) as usize),
            )),
            v7_header_well_formed(*old_header) ==> r is Ok,
            ({
                let flag = crate::tar::header::type_flag_of(old_header.typeflag);
                &&& r is Ok && flag.spec_is_file_like() && !old(inode_state).uid.superior_to(TarConfidence::V7)
                    && is_octal_field(old_header.uid@) ==> final(inode_state).uid.held() == Some(
                    (TarConfidence::V7, octal_value(old_header.uid@)->Ok_0 as u32),
                )
                &&& r is Ok && flag.spec_is_file_like() && !old(inode_state).gid.superior_to(TarConfidence::V7)
                    && is_octal_field(old_header.gid@) ==> final(inode_state).gid.held() == Some(
                    (TarConfidence::V7, octal_value(old_header.gid@)->Ok_0 as u32),
                )
                &&& r is Ok && flag.spec_is_file_like() && !old(inode_state).mtime.superior_to(TarConfidence::V7)
                    && is_octal_field(old_header.mtime@) ==> final(inode_state).mtime.held() == Some(
                    (
                        TarConfidence::V7,
                        TimeStamp {
                            seconds_since_epoch: octal_value(old_header.mtime@)->Ok_0 as u64,
                            nanoseconds: 0,
                        },
                    ),
                )
                &&& r is Ok && flag.spec_is_file_like() && !old(inode_state).mode.superior_to(TarConfidence::V7)
                    ==> (FilePermissions::from_octal_field(old_header.mode@) matches Some(m)
                    ==> final(inode_state).mode.held() == Some((TarConfidence::V7, m)))
                &&& r is Ok && flag.spec_is_link_like() && !old(inode_state).link_target.superior_to(
                    TarConfidence::V7,
                ) && valid_utf8(until_nul(old_header.linkname@)) ==> (final(inode_state).link_target.held() matches Some(
                    (c, s),
                ) && c == TarConfidence::V7 && s@ == decode_utf8(until_nul(old_header.linkname@)))
            }),
    {
        match old_header.verify_checksum() {
            Ok(_) => {},
            Err(e) => {
                match Self::hpv(vh, TarParserErrorKind::HeaderParserError(TarHeaderParserError::CorruptHeaderChecksum(e))) {
                    Ok(()) => {},
                    Err(e) => {
                        return Err(e);
                    },
                }
            },
        }
        let typeflag = old_header.parse_typeflag();
        let flag_byte = u8::from(typeflag);
        let count = match found_type_flags.get(flag_byte) {
            Some(n) => n.saturating_add(1),
            None => 1,
        };
        found_type_flags.insert(flag_byte, count);
        if !inode_state.data_after_header_size.has_superior_confidence(TarConfidence::V7) {
            match old_header.parse_size() {
                Ok(size) => {
                    inode_state.data_after_header_size.set(TarConfidence::V7, size as usize);
                },
                Err(e) => {
                    match Self::hpv(vh, corrupt_field_to_tar_err(CorruptFieldContext::HeaderSize, GeneralParseError::InvalidOctalNumber(e))) {
                        Ok(()) => {},
                        Err(e) => {
                            return Err(e);
                        },
                    }
                },
            }
        }
        if typeflag.is_file_like() {
            if !inode_state.file_path.has_superior_confidence(TarConfidence::V7) {
                match old_header.parse_name() {
                    Ok(name) => {
                        inode_state.file_path.set(TarConfidence::V7, name.to_owned());
                    },
                    Err(e) => {
                        match Self::hpv(vh, corrupt_field_to_tar_err(CorruptFieldContext::HeaderName, GeneralParseError::InvalidUtf8(e))) {
                            Ok(()) => {},
                            Err(e) => {
                                return Err(e);
                            },
                        }
                    },
                }
            }
            if !inode_state.mode.has_superior_confidence(TarConfidence::V7) {
                match old_header.parse_mode() {
                    Some(mode) => {
                        inode_state.mode.set(TarConfidence::V7, mode);
                    },
                    None => {},
                }
            }
            if !inode_state.uid.has_superior_confidence(TarConfidence::V7) {
                match old_header.parse_uid() {
                    Ok(v) => {
                        inode_state.uid.set(TarConfidence::V7, v);
                    },
                    Err(e) => {
                        match Self::hpv(vh, corrupt_field_to_tar_err(CorruptFieldContext::HeaderUid, GeneralParseError::InvalidOctalNumber(e))) {
                            Ok(()) => {},
                            Err(e) => {
                                return Err(e);
                            },
                        }
                    },
                }
            }
            if !inode_state.gid.has_superior_confidence(TarConfidence::V7) {
                match old_header.parse_gid() {
                    Ok(v) => {
                        inode_state.gid.set(TarConfidence::V7, v);
                    },
                    Err(e) => {
                        match Self::hpv(vh, corrupt_field_to_tar_err(CorruptFieldContext::HeaderGid, GeneralParseError::InvalidOctalNumber(e))) {
                            Ok(()) => {},
                            Err(e) => {
                                return Err(e);
                            },
                        }
                    },
                }
            }
            if !inode_state.mtime.has_superior_confidence(TarConfidence::V7) {
                match old_header.parse_mtime() {
                    Ok(v) => {
                        inode_state.mtime.set(TarConfidence::V7, v);
                    },
                    Err(e) => {
                        match Self::hpv(vh, corrupt_field_to_tar_err(CorruptFieldContext::HeaderMtime, GeneralParseError::InvalidOctalNumber(e))) {
                            Ok(()) => {},
                            Err(e) => {
                                return Err(e);
                            },
                        }
                    },
                }
            }
        }
        if typeflag.is_link_like() {
            if !inode_state.link_target.has_superior_confidence(TarConfidence::V7) {
                match old_header.parse_linkname() {
                    Ok(name) => {
                        inode_state.link_target.set(TarConfidence::V7, name.to_owned());
                    },
                    Err(e) => {
                        match Self::hpv(vh, corrupt_field_to_tar_err(CorruptFieldContext::HeaderLinkname, GeneralParseError::InvalidUtf8(e))) {
                            Ok(()) => {},
                            Err(e) => {
                                return Err(e);
                            },
                        }
                    },
                }
            }
        }
        Ok(typeflag)
    }

    /// Reads the user and group names and the device numbers of a `ustar` or GNU header.
    fn parse_common_header_additions(
        vh: &mut VH,
        inode_state: &mut InodeBuilder,
        common_header_additions: &CommonHeaderAdditions,
    ) -> (r: Result<(), TarParserError>)
        ensures
            old(inode_state).wf() ==> final(inode_state).wf(),
            final(inode_state).sparse_file_instructions == old(inode_state).sparse_file_instructions,
            final(inode_state).file_path == old(inode_state).file_path,
            final(inode_state).data_after_header_size == old(inode_state).data_after_header_size,
            final(inode_state).data@ == old(inode_state).data@,
            common_fields_well_formed(common_header_additions.bytes()) ==> r is Ok,
            r is Ok && is_octal_field(common_header_additions.dev_major@) ==> final(inode_state).dev_major == (
            octal_value(common_header_additions.dev_major@)->Ok_0 as u32),
            r is Ok && is_octal_field(common_header_additions.dev_minor@) ==> final(inode_state).dev_minor == (
            octal_value(common_header_additions.dev_minor@)->Ok_0 as u32),
            r is Ok && !old(inode_state).uname.superior_to(TarConfidence::Ustar) && valid_utf8(
                until_nul(common_header_additions.uname@),
            ) ==> (final(inode_state).uname.held() matches Some((c, s)) && c == TarConfidence::Ustar && s@
                == decode_utf8(until_nul(common_header_additions.uname@))),
            r is Ok && !old(inode_state).gname.superior_to(TarConfidence::Ustar) && valid_utf8(
                until_nul(common_header_additions.gname@),
            ) ==> (final(inode_state).gname.held() matches Some((c, s)) && c == TarConfidence::Ustar && s@
                == decode_utf8(until_nul(common_header_additions.gname@))),
    {
        proof {
            let b = common_header_additions.bytes();
            assert(b.subrange(0, 32) =~= common_header_additions.uname@);
            assert(b.subrange(32, 64) =~= common_header_additions.gname@);
            assert(b.subrange(64, 72) =~= common_header_additions.dev_major@);
            assert(b.subrange(72, 80) =~= common_header_additions.dev_minor@);
        }
        if !inode_state.uname.has_superior_confidence(TarConfidence::Ustar) {
            match common_header_additions.parse_uname() {
                Ok(name) => {
                    inode_state.uname.set(TarConfidence::Ustar, name.to_owned());
                },
                Err(e) => {
                    match Self::hpv(vh, corrupt_field_to_tar_err(CorruptFieldContext::HeaderUname, GeneralParseError::InvalidUtf8(e))) {
                        Ok(()) => {},
                        Err(e) => {
                            return Err(e);
                        },
                    }
                },
            }
        }
        if !inode_state.gname.has_superior_confidence(TarConfidence::Ustar) {
            match common_header_additions.parse_gname() {
                Ok(name) => {
                    inode_state.gname.set(TarConfidence::Ustar, name.to_owned());
                },
                Err(e) => {
                    match Self::hpv(vh, corrupt_field_to_tar_err(CorruptFieldContext::HeaderGname, GeneralParseError::InvalidUtf8(e))) {
                        Ok(()) => {},
                        Err(e) => {
                            return Err(e);
                        },
                    }
                },
            }
        }
        match common_header_additions.parse_dev_major() {
            Ok(v) => {
                inode_state.dev_major = v;
            },
            Err(e) => {
                match Self::hpv(vh, corrupt_field_to_tar_err(CorruptFieldContext::HeaderDevMajor, GeneralParseError::InvalidOctalNumber(e))) {
                    Ok(()) => {},
                    Err(e) => {
                        return Err(e);
                    },
                }
            },
        }
        match common_header_additions.parse_dev_minor() {
            Ok(v) => {
                inode_state.dev_minor = v;
            },
            Err(e) => {
                match Self::hpv(vh, corrupt_field_to_tar_err(CorruptFieldContext::HeaderDevMinor, GeneralParseError::InvalidOctalNumber(e))) {
                    Ok(()) => {},
                    Err(e) => {
                        return Err(e);
                    },
                }
            },
        }
        Ok(())
    }
}


/// Which of the known header formats a magic string and version belong to.
enum HeaderFormat {
    V7,
    Ustar,
    Gnu,
    Unknown,
}

/// The format of a header, from its magic string and version.
fn header_format(magic_version: &[u8; 8]) -> (r: HeaderFormat)
    ensures
        (r is V7) == (magic_version@ == magic_version_v7()),
        (r is Ustar) == (magic_version@ == magic_version_ustar()),
        (r is Gnu) == (magic_version@ == magic_version_gnu()),
{
    let v7: [u8; 8] = [0, 0, 0, 0, 0, 0, 0, 0];
    let ustar: [u8; 8] = [0x75, 0x73, 0x74, 0x61, 0x72, 0, 0x30, 0x30];
    let gnu: [u8; 8] = [0x75, 0x73, 0x74, 0x61, 0x72, 0x20, 0x20, 0];
    proof {
        assert(v7@ =~= magic_version_v7());
        assert(ustar@ =~= magic_version_ustar());
        assert(gnu@ =~= magic_version_gnu());
        assert(magic_version_v7()[0] != magic_version_ustar()[0]);
        assert(magic_version_v7()[0] != magic_version_gnu()[0]);
        assert(magic_version_ustar()[5] != magic_version_gnu()[5]);
    }
    if bytes_equal(magic_version.as_slice(), v7.as_slice()) {
        HeaderFormat::V7
    } else if bytes_equal(magic_version.as_slice(), ustar.as_slice()) {
        HeaderFormat::Ustar
    } else if bytes_equal(magic_version.as_slice(), gnu.as_slice()) {
        HeaderFormat::Gnu
    } else {
        HeaderFormat::Unknown
    }
}

/// Appends the bytes of `src` to `dst`.
fn append_bytes(dst: &mut Vec<u8>, src: &[u8])
    ensures
        final(dst)@ == old(dst)@ + src@,
{
    let mut i: usize = 0;
    while i < src.len()
        invariant
            i <= src@.len(),
            dst@ == old(dst)@ + src@.take(i as int),
        decreases src@.len() - i,
    {
        dst.push(src[i]);
        i = i + 1;
        proof {
            assert(src@.take(i as int) =~= src@.take(i - 1) + seq![src@[i - 1]]);
        }
    }
    proof {
        assert(src@.take(src@.len() as int) =~= src@);
    }
}

/// Moves bytes of `input` from `*pos` into `buffer` until it holds a whole block. Returns the
/// block once it does, and leaves `buffer` empty then.
fn buffer_block(buffer: &mut Vec<u8>, input: &[u8], pos: &mut usize) -> (r: Option<Vec<u8>>)
    requires
        old(buffer)@.len() < BLOCK_SIZE,
        *old(pos) <= input@.len(),
    ensures
        *final(pos) == *old(pos) + min_int(BLOCK_SIZE - old(buffer)@.len(), input@.len() - *old(pos)),
        final(buffer)@.len() < BLOCK_SIZE,
        ({
            let all = old(buffer)@ + input@.subrange(*old(pos) as int, *final(pos) as int);
            &&& r is Some <==> all.len() == BLOCK_SIZE
            &&& r matches Some(block) ==> block@ == all && final(buffer)@.len() == 0
            &&& r is None ==> final(buffer)@ == all
        }),
{
    let need = BLOCK_SIZE - buffer.len();
    let avail = input.len() - *pos;
    let take = if need < avail {
        need
    } else {
        avail
    };
    let start = *pos;
    append_bytes(buffer, &input[start..start + take]);
    *pos = start + take;
    if buffer.len() == BLOCK_SIZE {
        let mut block: Vec<u8> = Vec::new();
        core::mem::swap(&mut block, buffer);
        Some(block)
    } else {
        None
    }
}

/// Whether every byte of `block` is zero: the end-of-archive marker.
fn is_zero_block(block: &[u8]) -> (r: bool)
    ensures
        r == (forall|i: int| 0 <= i < block@.len() ==> block@[i] == 0),
{
    let mut i: usize = 0;
    while i < block.len()
        invariant
            i <= block@.len(),
            forall|j: int| 0 <= j < i ==> block@[j] == 0,
        decreases block@.len() - i,
    {
        if block[i] != 0 {
            return false;
        }
        i = i + 1;
    }
    true
}


impl<VH: TarViolationHandler> TarParser<VH> {
    /// What every step of the parser keeps: consistency, the way files are kept, and, when every
    /// version is kept, the files extracted before, in order.
    pub open spec fn step_keeps(&self, next: Self) -> bool {
        &&& self.wf() ==> next.wf()
        &&& next.keeps_only_last() == self.keeps_only_last()
        &&& !self.keeps_only_last() ==> self.files().is_prefix_of(next.files())
        &&& self.entries().is_prefix_of(next.entries())
    }

    proof fn lemma_step_keeps_refl(&self)
        ensures
            self.step_keeps(*self),
    {
        assert(self.files().subrange(0, self.files().len() as int) =~= self.files());
        assert(self.entries().subrange(0, self.entries().len() as int) =~= self.entries());
    }

    proof fn lemma_step_keeps_trans(a: Self, b: Self, c: Self)
        requires
            a.step_keeps(b),
            b.step_keeps(c),
        ensures
            a.step_keeps(c),
    {
        if !a.keeps_only_last() {
            assert(c.files().subrange(0, a.files().len() as int) =~= c.files().subrange(
                0,
                b.files().len() as int,
            ).subrange(0, a.files().len() as int));
        }
        assert(c.entries().subrange(0, a.entries().len() as int) =~= c.entries().subrange(
            0,
            b.entries().len() as int,
        ).subrange(0, a.entries().len() as int));
    }

    /// Skips data; back to reading headers once all of it is skipped.
    fn state_skipping_data(input: &[u8], pos: &mut usize, state: StateSkippingData) -> (r: TarParserState)
        requires
            *old(pos) <= input@.len(),
        ensures
            *final(pos) == *old(pos) + min_int(state.remaining_data as int, input@.len() - *old(pos)),
            state.remaining_data <= input@.len() - *old(pos) ==> r is ReadingTarHeader,
            state.remaining_data > input@.len() - *old(pos) ==> (r matches TarParserState::SkippingData(sk)
                && sk.remaining_data == state.remaining_data - (input@.len() - *old(pos))),
    {
        let mut state = state;
        let avail = input.len() - *pos;
        let skipped = if state.remaining_data < avail {
            state.remaining_data
        } else {
            avail
        };
        *pos = *pos + skipped;
        state.remaining_data = state.remaining_data - skipped;
        if state.remaining_data == 0 {
            TarParserState::ReadingTarHeader
        } else {
            TarParserState::SkippingData(state)
        }
    }

    /// Collects a GNU long name; once it is whole, sets the path or the link target from it
    /// unless a more trusted one is known.
    fn state_parsing_gnu_long_name(&mut self, input: &[u8], pos: &mut usize, state: StateParsingGnuLongName) -> (r:
        TarParserState)
        requires
            *old(pos) <= input@.len(),
        ensures
            *final(pos) == *old(pos) + min_int(state.remaining_data as int, input@.len() - *old(pos)),
            old(self).step_keeps(*final(self)),
            final(self).files() == old(self).files(),
            final(self).entries() == old(self).entries(),
            state.remaining_data > input@.len() - *old(pos) ==> final(self).inode_state == old(self).inode_state,
            state.remaining_data <= input@.len() - *old(pos) ==> long_name_stored(
                old(self).inode_state,
                final(self).inode_state,
                state.long_name_type is LinkName,
                state.collected_name@ + input@.subrange(*old(pos) as int, *final(pos) as int),
            ),
    {
        let mut state = state;
        let ghost name0 = state.collected_name@;
        let avail = input.len() - *pos;
        let take = if state.remaining_data < avail {
            state.remaining_data
        } else {
            avail
        };
        let start = *pos;
        append_bytes(&mut state.collected_name, &input[start..start + take]);
        *pos = start + take;
        state.remaining_data = state.remaining_data - take;
        proof {
            self.lemma_step_keeps_refl();
        }
        if state.remaining_data != 0 {
            return TarParserState::ParsingGnuLongName(state);
        }
        let end = find_null_terminator_index(state.collected_name.as_slice());
        proof {
            assert(state.collected_name@ =~= name0 + input@.subrange(start as int, *pos as int));
            assert(state.collected_name@.subrange(0, end as int) =~= until_nul(state.collected_name@));
        }
        match str_from_utf8(&state.collected_name.as_slice()[0..end]) {
            Ok(name) => {
                match state.long_name_type {
                    GnuLongNameType::FileName => {
                        if !self.inode_state.file_path.has_superior_confidence(TarConfidence::Gnu) {
                            self.inode_state.file_path.set(TarConfidence::Gnu, name.to_owned());
                        }
                    },
                    GnuLongNameType::LinkName => {
                        if !self.inode_state.link_target.has_superior_confidence(TarConfidence::Gnu) {
                            self.inode_state.link_target.set(TarConfidence::Gnu, name.to_owned());
                        }
                    },
                }
            },
            Err(_) => {},
        }
        if state.padding_after_data > 0 {
            TarParserState::SkippingData(
                StateSkippingData { remaining_data: state.padding_after_data, context: "Padding after long name" },
            )
        } else {
            TarParserState::ReadingTarHeader
        }
    }

    /// Reads a block of old GNU sparse map entries; reads the file data after the last one.
    fn state_reading_old_gnu_sparse_extended_header(
        &mut self,
        input: &[u8],
        pos: &mut usize,
        state: StateReadingOldGnuSparseExtendedHeader,
    ) -> (r: TarParserState)
        requires
            *old(pos) <= input@.len(),
        ensures
            old(self).wf() ==> *final(pos) == *old(pos) + min_int(
                BLOCK_SIZE - old(self).header_buffer@.len(),
                input@.len() - *old(pos),
            ),
            *old(pos) <= *final(pos) <= input@.len(),
            old(self).step_keeps(*final(self)),
            final(self).files() == old(self).files(),
            final(self).entries() == old(self).entries(),
    {
        proof {
            self.lemma_step_keeps_refl();
        }
        if self.header_buffer.len() >= BLOCK_SIZE {
            // Only an inconsistent parser gets here; it starts over with the block.
            self.header_buffer.clear();
        }
        let block = match buffer_block(&mut self.header_buffer, input, pos) {
            Some(b) => b,
            None => {
                return TarParserState::ReadingOldGnuSparseExtendedHeader(state);
            },
        };
        let extension = GnuHeaderExtSparse::from_bytes(block.as_slice()).unwrap();
        TarParser::<VH>::parse_old_gnu_sparse_instructions(&mut self.inode_state, &extension.sparse);
        if extension.parse_is_extended() {
            TarParserState::ReadingOldGnuSparseExtendedHeader(state)
        } else {
            TarParserState::ReadingFileData(
                StateReadingFileData { remaining_data: state.data_after_header, padding_after: state.padding_after_data },
            )
        }
    }

    /// Hands the records of a PAX header to the PAX parser; then skips the padding.
    fn state_parsing_pax_data(&mut self, input: &[u8], pos: &mut usize, state: StateParsingPaxData) -> (r: Result<
        TarParserState,
        TarParserError,
    >)
        requires
            *old(pos) <= input@.len(),
        ensures
            *old(pos) <= *final(pos) <= input@.len(),
            *final(pos) - *old(pos) <= state.remaining_data,
            old(self).step_keeps(*final(self)),
            final(self).files() == old(self).files(),
            final(self).entries() == old(self).entries(),
            r matches Ok(s) ==> {
                let rem = state.remaining_data - (*final(pos) - *old(pos));
                &&& rem == 0 && state.padding_after > 0 ==> (s matches TarParserState::SkippingData(sk)
                    && sk.remaining_data == state.padding_after)
                &&& rem == 0 && state.padding_after == 0 ==> s is ReadingTarHeader
                &&& rem > 0 ==> s == TarParserState::ParsingPaxData(
                    StateParsingPaxData { remaining_data: rem as usize, padding_after: state.padding_after },
                )
            },
            r is Err ==> *final(pos) == *old(pos),
    {
        let mut state = state;
        let avail = input.len() - *pos;
        let take = if state.remaining_data < avail {
            state.remaining_data
        } else {
            avail
        };
        let start = *pos;
        let consumed = {
            let mut vhw = VHW(&mut self.violation_handler);
            self.pax_parser.parse(&mut vhw, &input[start..start + take])
        };
        let consumed = match consumed {
            Ok(n) => n,
            Err(e) => {
                return Err(e);
            },
        };
        *pos = start + consumed;
        state.remaining_data = state.remaining_data - consumed;
        if state.remaining_data == 0 {
            if state.padding_after > 0 {
                Ok(
                    TarParserState::SkippingData(
                        StateSkippingData { remaining_data: state.padding_after, context: "Padding after PAX data" },
                    ),
                )
            } else {
                Ok(TarParserState::ReadingTarHeader)
            }
        } else {
            Ok(TarParserState::ParsingPaxData(state))
        }
    }

    /// Reads the sparse map at the start of the data of a GNU sparse 1.0 file; then the rest of
    /// the data.
    fn state_parsing_gnu_sparse_1_0(&mut self, input: &[u8], pos: &mut usize, state: StateParsingGnuSparse1_0) -> (r:
        Result<TarParserState, TarParserError>)
        requires
            *old(pos) <= input@.len(),
        ensures
            *old(pos) <= *final(pos) <= input@.len(),
            old(self).step_keeps(*final(self)),
            final(self).files() == old(self).files(),
            final(self).entries() == old(self).entries(),
            r matches Ok(s) ==> (!final(self).sparse_parser.finished() && s == TarParserState::ParsingGnuSparse1_0(
                state,
            )) || (final(self).sparse_parser.finished() && s == TarParserState::ReadingFileData(
                StateReadingFileData {
                    remaining_data: (if state.data_after_header >= final(self).sparse_parser.consumed() {
                        state.data_after_header - final(self).sparse_parser.consumed()
                    } else {
                        0
                    }) as usize,
                    padding_after: state.padding_after,
                },
            )),
            *old(pos) == input@.len() ==> r is Ok,
            r is Err ==> (*final(pos) < input@.len() && input@[*final(pos) as int] != 0x0a) || (*final(pos)
                > *old(pos) && input@[*final(pos) - 1] == 0x0a),
    {
        let done = {
            let mut vhw = VHW(&mut self.violation_handler);
            self.sparse_parser.parse(&mut vhw, input, pos, &mut self.inode_state.sparse_file_instructions)
        };
        match done {
            Ok(false) => Ok(TarParserState::ParsingGnuSparse1_0(state)),
            Ok(true) => {
                let remaining_data = state.data_after_header.saturating_sub(self.sparse_parser.bytes_read());
                Ok(TarParserState::ReadingFileData(StateReadingFileData { remaining_data, padding_after: state.padding_after }))
            },
            Err(e) => Err(e),
        }
    }

    /// Collects the data of a regular file; once it is whole, adds the file and skips the
    /// padding.
    fn state_reading_file_data(&mut self, input: &[u8], pos: &mut usize, state: StateReadingFileData) -> (r:
        TarParserState)
        requires
            *old(pos) <= input@.len(),
        ensures
            *final(pos) == *old(pos) + min_int(state.remaining_data as int, input@.len() - *old(pos)),
            old(self).step_keeps(*final(self)),
            final(self).header_buffer@ == old(self).header_buffer@,
            TarParser::<VH>::file_data_effect(*old(self), *final(self), input@, *old(pos) as int, *final(pos) as int, state, r),
    {
        let mut state = state;
        let avail = input.len() - *pos;
        let take = if state.remaining_data < avail {
            state.remaining_data
        } else {
            avail
        };
        let start = *pos;
        append_bytes(&mut self.inode_state.data, &input[start..start + take]);
        *pos = start + take;
        state.remaining_data = state.remaining_data - take;
        if state.remaining_data != 0 {
            proof {
                self.lemma_step_keeps_refl();
            }
            return TarParserState::ReadingFileData(state);
        }
        self.finish_inode(EntryKind::RegularFile);
        TarParser::<VH>::compute_opt_skip_state(state.padding_after, "Padding after file data")
    }
}

/// What a `v7` header block gives an entry's owner ids, time and mode, where its fields are well
/// formed: the value of the header, unless a pax attribute of `pax` outranks it.
pub open spec fn has_v7_metadata(entry: TarInode, block: Seq<u8>, pax: PaxParser) -> bool {
    &&& is_octal_field(block.subrange(108, 116)) ==> entry.uid == held_or(
        updated(Some((TarConfidence::V7, octal_value(block.subrange(108, 116))->Ok_0 as u32)), pax_held(pax.uid_value())),
        0u32,
    )
    &&& is_octal_field(block.subrange(116, 124)) ==> entry.gid == held_or(
        updated(Some((TarConfidence::V7, octal_value(block.subrange(116, 124))->Ok_0 as u32)), pax_held(pax.gid_value())),
        0u32,
    )
    &&& is_octal_field(block.subrange(136, 148)) ==> entry.mtime == held_or(
        updated(
            Some(
                (
                    TarConfidence::V7,
                    TimeStamp { seconds_since_epoch: octal_value(block.subrange(136, 148))->Ok_0 as u64, nanoseconds: 0 },
                ),
            ),
            pax_held(pax.mtime_value()),
        ),
        TimeStamp { seconds_since_epoch: 0, nanoseconds: 0 },
    )
    &&& FilePermissions::from_octal_field(block.subrange(100, 108)) matches Some(m) ==> entry.mode == m
}

/// What a `v7` header block gives the builder of the entry: its owner ids, time and mode, where
/// its fields are well formed.
pub open spec fn builder_has_v7_metadata(b: InodeBuilder, block: Seq<u8>) -> bool {
    &&& is_octal_field(block.subrange(108, 116)) ==> b.uid.held() == Some(
        (TarConfidence::V7, octal_value(block.subrange(108, 116))->Ok_0 as u32),
    )
    &&& is_octal_field(block.subrange(116, 124)) ==> b.gid.held() == Some(
        (TarConfidence::V7, octal_value(block.subrange(116, 124))->Ok_0 as u32),
    )
    &&& is_octal_field(block.subrange(136, 148)) ==> b.mtime.held() == Some(
        (
            TarConfidence::V7,
            TimeStamp { seconds_since_epoch: octal_value(block.subrange(136, 148))->Ok_0 as u64, nanoseconds: 0 },
        ),
    )
    &&& FilePermissions::from_octal_field(block.subrange(100, 108)) matches Some(m) ==> b.mode.held() == Some(
        (TarConfidence::V7, m),
    )
}

/// An octal field: UTF-8 up to its first NUL, and an octal number.
pub open spec fn is_octal_field(field: Seq<u8>) -> bool {
    valid_utf8(until_nul(field)) && octal_value(field) is Ok
}

/// A `v7` header in which every field the parser may read is well formed: the checksum field
/// holds the checksum of the block, the size, owner ids and time are octal, and the name and
/// link name are UTF-8 up to their first NUL.
pub open spec fn v7_header_well_formed(h: V7Header) -> bool {
    &&& is_octal_field(h.checksum@)
    &&& (octal_value(h.checksum@)->Ok_0 as u32) == crate::tar::header::header_checksum(h.block())
    &&& is_octal_field(h.size@)
    &&& valid_utf8(until_nul(h.name_bytes@))
    &&& is_octal_field(h.uid@)
    &&& is_octal_field(h.gid@)
    &&& is_octal_field(h.mtime@)
    &&& valid_utf8(until_nul(h.linkname@))
}

/// The path an entry gets from what its headers gave and the pax attributes `p`: the name of a
/// sparse file of a format the attributes newly name, then the `path` attribute, each where it
/// outranks what is held.
pub open spec fn loaded_path(b: InodeBuilder, p: PaxParser) -> Option<(TarConfidence, String)> {
    updated(
        if b.sparse_format is None && p.sparse_format_spec() is Some {
            updated(b.file_path.held(), pax_held(p.gnu_sparse_name_value()))
        } else {
            b.file_path.held()
        },
        pax_held(p.path_value()),
    )
}

/// A value that the local PAX records set is what the entry gets, whatever its headers gave.
pub proof fn law_local_pax_value_wins<T>(h: Option<(TarConfidence, T)>, v: PaxConfidentValue<T>, x: T)
    requires
        v.local_value() == Some(x),
    ensures
        updated(h, pax_held(v)) == Some((TarConfidence::PaxLocal, x)),
{
}

/// A value that only the global PAX records set is what the entry gets, unless a local PAX
/// record gave it before; with no PAX value, the entry keeps what its headers gave.
pub proof fn law_global_pax_value_over_headers<T>(h: Option<(TarConfidence, T)>, v: PaxConfidentValue<T>)
    requires
        v.local_value() is None,
    ensures
        v.global_value() is Some && !(h matches Some((c, _)) && c == TarConfidence::PaxLocal) ==> updated(
            h,
            pax_held(v),
        ) == Some((TarConfidence::PaxGlobal, v.global_value()->0)),
        v.global_value() is None ==> updated(h, pax_held(v)) == h,
{
}

/// The `path` of the local PAX records names the entry, over the name of its headers and over
/// the name of a sparse file.
pub proof fn law_local_pax_path_names_the_entry(b: InodeBuilder, p: PaxParser, t: String)
    requires
        p.path_value().local_value() == Some(t),
    ensures
        held_text(loaded_path(b, p)) == t@,
{
}

/// With no `path` among the PAX records and no sparse format newly named, the entry keeps the
/// name its headers gave.
pub proof fn law_header_path_names_the_entry(b: InodeBuilder, p: PaxParser)
    requires
        p.path_value().local_value() is None,
        p.path_value().global_value() is None,
        b.sparse_format is Some || p.sparse_format_spec() is None,
    ensures
        loaded_path(b, p) == b.file_path.held(),
{
}

/// What a whole GNU long name record with the bytes `name` does to the entry being read: the
/// text before its first NUL, when it is UTF-8, becomes the link target of a long link name and
/// the path of a long file name, unless a more trusted one is held; the other stays as it was.
pub open spec fn long_name_stored(before: InodeBuilder, after: InodeBuilder, link: bool, name: Seq<u8>) -> bool {
    let text = until_nul(name);
    let (set, kept) = if link {
        (after.link_target, after.file_path)
    } else {
        (after.file_path, after.link_target)
    };
    let (set0, kept0) = if link {
        (before.link_target, before.file_path)
    } else {
        (before.file_path, before.link_target)
    };
    &&& kept == kept0
    &&& !valid_utf8(text) || set0.superior_to(TarConfidence::Gnu) ==> set == set0
    &&& valid_utf8(text) && !set0.superior_to(TarConfidence::Gnu) ==> (set.held() matches Some((c, v)) && c
        == TarConfidence::Gnu && v@ == decode_utf8(text))
}

/// A whole GNU long link name (`K`) whose text is UTF-8 sets the link target of the entry, not
/// its path; a whole long file name (`L`) sets its path, not its link target.
pub proof fn law_long_names_set_their_own_field(before: InodeBuilder, after: InodeBuilder, link: bool, name: Seq<u8>)
    requires
        long_name_stored(before, after, link, name),
        valid_utf8(until_nul(name)),
    ensures
        link ==> after.file_path == before.file_path,
        !link ==> after.link_target == before.link_target,
        link && !before.link_target.superior_to(TarConfidence::Gnu) ==> (after.link_target.value_of()
            matches Some(t) && t@ == decode_utf8(until_nul(name))),
        !link && !before.file_path.superior_to(TarConfidence::Gnu) ==> (after.file_path.value_of()
            matches Some(t) && t@ == decode_utf8(until_nul(name))),
{
}

/// The type flag byte of the header an entry of this kind comes from.
pub open spec fn entry_flag_byte(e: FileEntry) -> u8 {
    match e {
        FileEntry::RegularFile(_) => 0x30,
        FileEntry::HardLink(_) => 0x31,
        FileEntry::SymbolicLink(_) => 0x32,
        FileEntry::CharacterDevice(_) => 0x33,
        FileEntry::BlockDevice(_) => 0x34,
        FileEntry::Directory => 0x35,
        FileEntry::Fifo => 0x36,
    }
}

/// An accepted header block of a hard link, symbolic link, character or block device,
/// directory or fifo records one entry, and the entry is of the kind its type flag names.
pub proof fn law_entry_kind_follows_type_flag<VH: TarViolationHandler>(
    before: TarParser<VH>,
    after: TarParser<VH>,
    block: Seq<u8>,
)
    requires
        TarParser::<VH>::header_flag_effect(before, after, block),
        0x31 <= block[156] <= 0x36,
    ensures
        after.entries().len() == before.entries().len() + 1,
        entry_flag_byte(after.entries().last().entry) == block[156],
{
}

/// An accepted PAX header block records no entry, and the records that follow it are stored as
/// global attributes after a global header (`g`) and as local ones after a local header (`x`).
pub proof fn law_pax_header_sets_record_scope<VH: TarViolationHandler>(
    before: TarParser<VH>,
    after: TarParser<VH>,
    block: Seq<u8>,
)
    requires
        TarParser::<VH>::header_flag_effect(before, after, block),
        block[156] == 0x67 || block[156] == 0x78,
    ensures
        after.entries() == before.entries(),
        after.pax_mode() == (if block[156] == 0x67 {
            PaxConfidence::GLOBAL
        } else {
            PaxConfidence::LOCAL
        }),
        block[156] == 0x67 ==> TarConfidence::of_pax(after.pax_mode()) == TarConfidence::PaxGlobal,
        block[156] == 0x78 ==> TarConfidence::of_pax(after.pax_mode()) == TarConfidence::PaxLocal,
{
}

/// The value a confident value holds, or `d` when it holds none.
pub open spec fn held_or<T>(h: Option<(TarConfidence, T)>, d: T) -> T {
    match h {
        Some((_, v)) => v,
        None => d,
    }
}

/// The text a confident text holds, or the empty text when it holds none.
pub open spec fn held_text(h: Option<(TarConfidence, String)>) -> Seq<char> {
    match h {
        Some((_, v)) => v@,
        None => Seq::empty(),
    }
}

/// The instruction an entry of an old GNU sparse map gives: none for an all-zero entry or one
/// whose offset or size is no octal number.
pub open spec fn old_gnu_sparse_entry(h: GnuSparseInstruction) -> Option<SparseFileInstruction> {
    if forall|i: int| 0 <= i < 24 ==> #[trigger] h.bytes()[i] == 0 {
        None
    } else if is_octal_field(h.offset@) && is_octal_field(h.num_bytes@) {
        Some(
            SparseFileInstruction {
                offset_before: octal_value(h.offset@)->Ok_0 as u64,
                data_size: octal_value(h.num_bytes@)->Ok_0 as u64,
            },
        )
    } else {
        None
    }
}

/// The instructions the entries of an old GNU sparse map give, in order.
pub open spec fn old_gnu_sparse_map(hs: Seq<GnuSparseInstruction>) -> Seq<SparseFileInstruction>
    decreases hs.len(),
{
    if hs.len() == 0 {
        Seq::empty()
    } else {
        match old_gnu_sparse_entry(hs.last()) {
            Some(x) => old_gnu_sparse_map(hs.drop_last()).push(x),
            None => old_gnu_sparse_map(hs.drop_last()),
        }
    }
}

/// A header block of the `v7` format in which every field the parser may read is well formed
/// (see `v7_header_well_formed`), read from the bytes of the block.
pub open spec fn v7_block_well_formed(block: Seq<u8>) -> bool {
    &&& block.len() == BLOCK_SIZE
    &&& block.subrange(257, 265) == magic_version_v7()
    &&& is_octal_field(block.subrange(148, 156))
    &&& (octal_value(block.subrange(148, 156))->Ok_0 as u32) == crate::tar::header::header_checksum(block)
    &&& is_octal_field(block.subrange(124, 136))
    &&& valid_utf8(until_nul(block.subrange(0, 100)))
    &&& is_octal_field(block.subrange(108, 116))
    &&& is_octal_field(block.subrange(116, 124))
    &&& is_octal_field(block.subrange(136, 148))
    &&& valid_utf8(until_nul(block.subrange(157, 257)))
}

/// The 247 bytes after the magic of a `ustar` or GNU header hold well-formed common fields: user
/// and group names that are UTF-8 up to their first NUL, and octal device numbers.
pub open spec fn common_fields_well_formed(bytes: Seq<u8>) -> bool {
    &&& valid_utf8(until_nul(bytes.subrange(0, 32)))
    &&& valid_utf8(until_nul(bytes.subrange(32, 64)))
    &&& is_octal_field(bytes.subrange(64, 72))
    &&& is_octal_field(bytes.subrange(72, 80))
}

/// The path of a `ustar` header: the prefix field, a slash and the name, or the name alone when
/// the prefix is empty.
pub open spec fn ustar_joined(prefix: Seq<char>, name: Seq<char>) -> Seq<char> {
    if prefix.len() == 0 {
        name
    } else {
        prefix + seq!['/'] + name
    }
}

impl<VH: TarViolationHandler> TarParser<VH> {
    /// Puts the prefix field of a `ustar` header in front of the path, unless a path more trusted
    /// than a `ustar` one is known. With no path known, the prefix becomes the path. A prefix that
    /// is no UTF-8 is a violation; the path is then left without it, or dropped when the handler
    /// stops.
    fn apply_ustar_prefix(vh: &mut VH, file_path: &mut ConfidentValue<String>, ustar: &UstarHeaderAdditions) -> (r:
        Result<(), TarParserError>)
        ensures
            ({
                let prefix = until_nul(ustar.prefix@);
                match old(file_path).held() {
                    Some((c, name)) => if c.rank() <= TarConfidence::Ustar.rank() {
                        if valid_utf8(prefix) {
                            r is Ok && (final(file_path).held() matches Some((c2, p)) && c2
                                == TarConfidence::Ustar && p@ == ustar_joined(decode_utf8(prefix), name@))
                        } else {
                            ||| r is Ok && final(file_path).held() == Some((TarConfidence::Ustar, name))
                            ||| r is Err && final(file_path).held() is None
                        }
                    } else {
                        r is Ok && final(file_path).held() == old(file_path).held()
                    },
                    None => if valid_utf8(prefix) {
                        r is Ok && (final(file_path).held() matches Some((c, p)) && c == TarConfidence::Ustar
                            && p@ == decode_utf8(prefix))
                    } else {
                        final(file_path).held() is None
                    },
                }
            }),
    {
        match file_path.extract_if_confidence_le(TarConfidence::Ustar) {
            Some(name) => {
                let joined = match ustar.parse_prefix() {
                    Ok(prefix) => {
                        if prefix.is_empty() {
                            name
                        } else {
                            let mut joined = String::from_str(prefix);
                            joined.append("/");
                            joined.append(name.as_str());
                            proof {
                                reveal_strlit("/");
                            }
                            joined
                        }
                    },
                    Err(e) => {
                        match TarParser::<VH>::hpv(
                            vh,
                            corrupt_field_to_tar_err(CorruptFieldContext::HeaderPrefix, GeneralParseError::InvalidUtf8(e)),
                        ) {
                            Ok(()) => {},
                            Err(e) => {
                                return Err(e);
                            },
                        }
                        name
                    },
                };
                file_path.set(TarConfidence::Ustar, joined);
                Ok(())
            },
            None => {
                if file_path.has_superior_confidence(TarConfidence::Ustar) {
                    return Ok(());
                }
                match ustar.parse_prefix() {
                    Ok(prefix) => {
                        file_path.set(TarConfidence::Ustar, prefix.to_owned());
                        Ok(())
                    },
                    Err(e) => TarParser::<VH>::hpv(
                        vh,
                        corrupt_field_to_tar_err(CorruptFieldContext::HeaderPrefix, GeneralParseError::InvalidUtf8(e)),
                    ),
                }
            },
        }
    }
}

impl<VH: TarViolationHandler> TarParser<VH> {
    /// What an accepted header block does by its type flag: a link, device, directory or fifo
    /// header records an entry of that kind at once; a PAX header (`x`) makes the records that
    /// follow local, a global one (`g`) global, and records nothing.
    pub closed spec fn header_flag_effect(before: TarParser<VH>, after: TarParser<VH>, block: Seq<u8>) -> bool {
        let flag = block[156];
        let entry = after.entries().last().entry;
        &&& 0x31 <= flag <= 0x36 ==> after.entries().len() == before.entries().len() + 1
        &&& flag == 0x31 ==> entry is HardLink
        &&& flag == 0x32 ==> entry is SymbolicLink
        &&& flag == 0x33 ==> entry is CharacterDevice
        &&& flag == 0x34 ==> entry is BlockDevice
        &&& flag == 0x35 ==> entry is Directory
        &&& flag == 0x36 ==> entry is Fifo
        &&& flag == 0x78 ==> after.pax_parser.mode() == PaxConfidence::LOCAL && after.entries()
            == before.entries()
        &&& flag == 0x67 ==> after.pax_parser.mode() == PaxConfidence::GLOBAL && after.entries()
            == before.entries()
    }

    /// What reading the whole header block `block` does, as far as the laws of the parser need
    /// it: an all-zero block changes nothing; a `v7` directory block records a directory; a file
    /// block readies the parser for the data.
    spec fn header_block_effect(
        before: TarParser<VH>,
        after: TarParser<VH>,
        block: Seq<u8>,
        r: Result<TarParserState, TarParserError>,
    ) -> bool {
        &&& r is Ok ==> TarParser::<VH>::header_flag_effect(before, after, block)
        &&& r is Ok && block[156] == 0x78 ==> (r matches Ok(TarParserState::ParsingPaxData(_)))
        &&& r is Ok && block[156] == 0x67 ==> (r matches Ok(TarParserState::ParsingPaxData(_)))
        &&& r is Ok && block[156] == 0x4c ==> (r matches Ok(TarParserState::ParsingGnuLongName(st))
            && st.long_name_type is FileName && st.collected_name@.len() == 0 && after.entries() == before.entries())
        &&& r is Ok && block[156] == 0x4b ==> (r matches Ok(TarParserState::ParsingGnuLongName(st))
            && st.long_name_type is LinkName && st.collected_name@.len() == 0 && after.entries() == before.entries())
        &&& before.inode_state.uid.held() is None && before.inode_state.gid.held() is None
            && before.inode_state.mtime.held() is None && before.inode_state.mode.held() is None && is_file_block(
            block,
        ) && block.subrange(257, 265) == magic_version_v7() && r is Ok ==> {
            &&& after.pax_parser == before.pax_parser
            &&& is_octal_field(block.subrange(108, 116)) ==> after.inode_state.uid.held() == Some(
                (TarConfidence::V7, octal_value(block.subrange(108, 116))->Ok_0 as u32),
            )
            &&& is_octal_field(block.subrange(116, 124)) ==> after.inode_state.gid.held() == Some(
                (TarConfidence::V7, octal_value(block.subrange(116, 124))->Ok_0 as u32),
            )
            &&& is_octal_field(block.subrange(136, 148)) ==> after.inode_state.mtime.held() == Some(
                (
                    TarConfidence::V7,
                    TimeStamp { seconds_since_epoch: octal_value(block.subrange(136, 148))->Ok_0 as u64, nanoseconds: 0 },
                ),
            )
            &&& FilePermissions::from_octal_field(block.subrange(100, 108)) matches Some(m)
                ==> after.inode_state.mode.held() == Some((TarConfidence::V7, m))
        }
        &&& v7_block_well_formed(block) ==> r is Ok
        &&& (forall|i: int| 0 <= i < block.len() ==> block[i] == 0) ==> {
            &&& r matches Ok(s) && s is ReadingTarHeader
            &&& after.entries() == before.entries()
            &&& after.inode_state == before.inode_state
            &&& after.pax_parser == before.pax_parser
        }
        &&& before.inode_state.file_path.held() is None && before.pax_parser.holds_no_path()
            && is_v7_directory_block(block) && r is Ok ==> {
            let entry = after.entries().last();
            &&& after.entries().len() == before.entries().len() + 1
            &&& entry.entry is Directory
            &&& relative_path_text(entry.path) == block_name(block)
            &&& r matches Ok(s) && (s is ReadingTarHeader || s is SkippingData)
        }
        &&& before.inode_state.file_path.held() is None && before.inode_state.data@.len() == 0
            && before.inode_state.sparse_file_instructions.items().len() == 0
            && before.inode_state.data_after_header_size.held() is None
            && before.pax_parser.holds_no_path() && before.pax_parser.sparse_map().len() == 0
            && is_file_block(block) && block_size(block) <= u32::MAX && r is Ok ==> {
            &&& after.entries() == before.entries()
            &&& r matches Ok(TarParserState::ReadingFileData(st)) && st.remaining_data == block_size(block)
                && st.padding_after == padding_to_block(block_size(block) as nat)
            &&& after.inode_state.data@.len() == 0
            &&& after.inode_state.sparse_file_instructions.items().len() == 0
            &&& after.pax_parser.holds_no_path()
            &&& after.pax_parser.sparse_map().len() == 0
            &&& after.inode_state.file_path.held() matches Some((_, p)) && p@ == block_path(block)
        }
    }

    /// Reads a header block and what it says of the entry, and picks what comes next from its
    /// type flag. An all-zero block marks the end of the archive; the parser stays ready for
    /// another header.
    fn state_reading_tar_header(&mut self, input: &[u8], pos: &mut usize) -> (r: Result<TarParserState, TarParserError>)
        requires
            *old(pos) <= input@.len(),
        ensures
            *old(pos) <= *final(pos) <= input@.len(),
            old(self).step_keeps(*final(self)),
            TarParser::<VH>::header_step_effect(*old(self), *final(self), input@, *old(pos) as int, *final(pos) as int, r),
    {
        proof {
            self.lemma_step_keeps_refl();
        }
        if self.header_buffer.len() >= BLOCK_SIZE {
            // Only an inconsistent parser gets here; it starts over with the block.
            self.header_buffer.clear();
        }
        let block = match buffer_block(&mut self.header_buffer, input, pos) {
            Some(b) => b,
            None => {
                return Ok(TarParserState::ReadingTarHeader);
            },
        };
        let ghost buffered = *self;
        let r = self.parse_header_block(block);
        proof {
            TarParser::<VH>::lemma_step_keeps_trans(*old(self), buffered, *self);
        }
        r
    }

    /// Reads what a whole header block says of the entry, and picks what comes next from its
    /// type flag. An all-zero block marks the end of the archive.
    #[verifier::spinoff_prover]
    #[verifier::rlimit(100)]
    fn parse_header_block(&mut self, block: Vec<u8>) -> (r: Result<TarParserState, TarParserError>)
        requires
            block@.len() == BLOCK_SIZE,
        ensures
            old(self).step_keeps(*final(self)),
            final(self).header_buffer@ == old(self).header_buffer@,
            TarParser::<VH>::header_block_effect(*old(self), *final(self), block@, r),
    {
        proof {
            self.lemma_step_keeps_refl();
            if self.pax_parser.holds_no_path() {
                self.pax_parser.lemma_no_path_no_sparse_format();
            }
        }
        if is_zero_block(block.as_slice()) {
            return Ok(TarParserState::ReadingTarHeader);
        }
        let header = V7Header::from_bytes(block.as_slice()).unwrap();
        proof {
            assert(header.mode@ =~= block@.subrange(100, 108));
            assert(header.checksum@ =~= block@.subrange(148, 156));
            assert(header.uid@ =~= block@.subrange(108, 116));
            assert(header.gid@ =~= block@.subrange(116, 124));
            assert(header.mtime@ =~= block@.subrange(136, 148));
            assert(header.linkname@ =~= block@.subrange(157, 257));
            assert(header.name_bytes@ =~= block@.subrange(0, 100));
            assert(header.magic_version@ =~= block@.subrange(257, 265));
            assert(header.typeflag == block@[156]);
            assert(header.size@ =~= block@.subrange(124, 136));
        }
        let mut old_gnu_sparse_is_extended = false;
        let typeflag = match header_format(&header.magic_version) {
            HeaderFormat::V7 => {
                match TarParser::<VH>::parse_v7_header(
                    &mut self.violation_handler,
                    &mut self.found_type_flags,
                    &mut self.inode_state,
                    &header,
                ) {
                    Ok(f) => f,
                    Err(e) => {
                        return Err(e);
                    },
                }
            },
            HeaderFormat::Ustar => {
                proof {
                    assert(header.padding@ =~= header.block().subrange(265, 512));
                    assert(header.padding@.subrange(80, 235) =~= block@.subrange(345, 500));
                }
                match TarParser::<VH>::parse_ustar_header(
                    &mut self.violation_handler,
                    &mut self.found_type_flags,
                    &mut self.inode_state,
                    &header,
                ) {
                    Ok(f) => f,
                    Err(e) => {
                        return Err(e);
                    },
                }
            },
            HeaderFormat::Gnu => {
                let typeflag = match TarParser::<VH>::parse_v7_header(
                    &mut self.violation_handler,
                    &mut self.found_type_flags,
                    &mut self.inode_state,
                    &header,
                ) {
                    Ok(f) => f,
                    Err(e) => {
                        return Err(e);
                    },
                };
                let common = CommonHeaderAdditions::from_bytes(header.padding.as_slice()).unwrap();
                match TarParser::<VH>::parse_common_header_additions(
                    &mut self.violation_handler,
                    &mut self.inode_state,
                    &common,
                ) {
                    Ok(()) => {},
                    Err(e) => {
                        return Err(e);
                    },
                }
                let gnu = GnuHeaderAdditions::from_bytes(common.padding.as_slice()).unwrap();
                if typeflag.is_file_like() {
                    if !self.inode_state.atime.has_superior_confidence(TarConfidence::Gnu) {
                        match gnu.parse_atime() {
                            Ok(t) => {
                                self.inode_state.atime.set(TarConfidence::Gnu, t);
                            },
                            Err(e) => {
                                match TarParser::<VH>::hpv(
                                    &mut self.violation_handler,
                                    corrupt_field_to_tar_err(
                                        CorruptFieldContext::HeaderAtime,
                                        GeneralParseError::InvalidOctalNumber(e),
                                    ),
                                ) {
                                    Ok(()) => {},
                                    Err(e) => {
                                        return Err(e);
                                    },
                                }
                            },
                        }
                    }
                    if !self.inode_state.ctime.has_superior_confidence(TarConfidence::Gnu) {
                        match gnu.parse_ctime() {
                            Ok(t) => {
                                self.inode_state.ctime.set(TarConfidence::Gnu, t);
                            },
                            Err(e) => {
                                match TarParser::<VH>::hpv(
                                    &mut self.violation_handler,
                                    corrupt_field_to_tar_err(
                                        CorruptFieldContext::HeaderCtime,
                                        GeneralParseError::InvalidOctalNumber(e),
                                    ),
                                ) {
                                    Ok(()) => {},
                                    Err(e) => {
                                        return Err(e);
                                    },
                                }
                            },
                        }
                    }
                }
                if let TarTypeFlag::SparseOldGnu = typeflag {
                    self.inode_state.sparse_format = Some(SparseFormat::GnuOld);
                    TarParser::<VH>::parse_old_gnu_sparse_instructions(&mut self.inode_state, &gnu.sparse);
                    old_gnu_sparse_is_extended = gnu.parse_is_extended();
                }
                if !self.inode_state.sparse_real_size.has_superior_confidence(TarConfidence::Gnu) {
                    match gnu.parse_real_size() {
                        Ok(size) => {
                            self.inode_state.sparse_real_size.set(TarConfidence::Gnu, size as usize);
                        },
                        Err(e) => {
                            match TarParser::<VH>::hpv(
                                &mut self.violation_handler,
                                corrupt_field_to_tar_err(
                                    CorruptFieldContext::HeaderRealSize,
                                    GeneralParseError::InvalidOctalNumber(e),
                                ),
                            ) {
                                Ok(()) => {},
                                Err(e) => {
                                    return Err(e);
                                },
                            }
                        },
                    }
                }
                typeflag
            },
            HeaderFormat::Unknown => {
                let magic: [u8; 6] = array_from_slice(&header.magic_version.as_slice()[0..6]);
                let version: [u8; 2] = array_from_slice(&header.magic_version.as_slice()[6..8]);
                return Err(
                    TarParserError::new(
                        TarParserErrorKind::HeaderParserError(
                            TarHeaderParserError::UnknownHeaderMagicVersion { magic, version },
                        ),
                        ErrorSeverity::Fatal,
                    ),
                );
            },
        };
        let data_after_header = match self.inode_state.data_after_header_size.get() {
            Some(v) => *v,
            None => 0,
        };
        let padding_after_data = block_padding(data_after_header);
        let data_after_header_block_aligned = data_after_header.saturating_add(padding_after_data);
        match typeflag {
            TarTypeFlag::RegularFile => {
                self.inode_state.contiguous_file = false;
                Ok(self.compute_file_parsing_state(data_after_header, padding_after_data))
            },
            TarTypeFlag::ContinuousFile => {
                self.inode_state.contiguous_file = true;
                Ok(self.compute_file_parsing_state(data_after_header, padding_after_data))
            },
            TarTypeFlag::HardLink => {
                self.finish_inode(EntryKind::HardLink);
                Ok(TarParser::<VH>::compute_opt_skip_state(data_after_header_block_aligned, "Data after HardLink"))
            },
            TarTypeFlag::SymbolicLink => {
                self.finish_inode(EntryKind::SymbolicLink);
                Ok(TarParser::<VH>::compute_opt_skip_state(data_after_header_block_aligned, "Data after SymbolicLink"))
            },
            TarTypeFlag::CharacterDevice => {
                self.finish_inode(EntryKind::CharacterDevice);
                Ok(TarParser::<VH>::compute_opt_skip_state(data_after_header_block_aligned, "Data after CharacterDevice"))
            },
            TarTypeFlag::BlockDevice => {
                self.finish_inode(EntryKind::BlockDevice);
                Ok(TarParser::<VH>::compute_opt_skip_state(data_after_header_block_aligned, "Data after BlockDevice"))
            },
            TarTypeFlag::Directory => {
                self.finish_inode(EntryKind::Directory);
                Ok(TarParser::<VH>::compute_opt_skip_state(data_after_header_block_aligned, "Data after Directory"))
            },
            TarTypeFlag::Fifo => {
                self.finish_inode(EntryKind::Fifo);
                Ok(TarParser::<VH>::compute_opt_skip_state(data_after_header_block_aligned, "Data after Fifo"))
            },
            TarTypeFlag::PaxExtendedHeader => {
                self.pax_parser.set_current_pax_mode(PaxConfidence::LOCAL);
                Ok(TarParserState::ParsingPaxData(StateParsingPaxData { remaining_data: data_after_header, padding_after: padding_after_data }))
            },
            TarTypeFlag::PaxGlobalExtendedHeader => {
                self.pax_parser.set_current_pax_mode(PaxConfidence::GLOBAL);
                Ok(TarParserState::ParsingPaxData(StateParsingPaxData { remaining_data: data_after_header, padding_after: padding_after_data }))
            },
            TarTypeFlag::LongNameGnu => Ok(
                TarParserState::ParsingGnuLongName(
                    StateParsingGnuLongName {
                        remaining_data: data_after_header,
                        padding_after_data,
                        long_name_type: GnuLongNameType::FileName,
                        collected_name: Vec::new(),
                    },
                ),
            ),
            TarTypeFlag::LongLinkNameGnu => Ok(
                TarParserState::ParsingGnuLongName(
                    StateParsingGnuLongName {
                        remaining_data: data_after_header,
                        padding_after_data,
                        long_name_type: GnuLongNameType::LinkName,
                        collected_name: Vec::new(),
                    },
                ),
            ),
            TarTypeFlag::SparseOldGnu => {
                if old_gnu_sparse_is_extended {
                    Ok(
                        TarParserState::ReadingOldGnuSparseExtendedHeader(
                            StateReadingOldGnuSparseExtendedHeader { data_after_header, padding_after_data },
                        ),
                    )
                } else {
                    Ok(TarParserState::ReadingFileData(StateReadingFileData { remaining_data: data_after_header, padding_after: padding_after_data }))
                }
            },
            TarTypeFlag::UnknownTypeFlag(_) => Ok(
                TarParser::<VH>::compute_opt_skip_state(data_after_header_block_aligned, "Unknown typeflag"),
            ),
        }
    }
}

impl<VH: TarViolationHandler> Write for TarParser<VH> {
    type WriteError = TarParserError;

    type FlushError = core::convert::Infallible;

    /// The archive bytes taken so far.
    closed spec fn accepted(&self) -> Seq<u8> {
        self.consumed@
    }

    /// Parses as much of `input_buffer` as the parser can take now: it stops when a step takes
    /// no byte, and returns the number of bytes taken. After an error the parser reads the next
    /// bytes as the start of a header.
    #[verifier::spinoff_prover]
    #[verifier::rlimit(100)]
    fn write(&mut self, input_buffer: &[u8], sync_hint: bool) -> (r: Result<usize, TarParserError>)
        ensures
            old(self).step_keeps(*final(self)),
            old(self).at_fresh_header() && is_v7_directory_block(input_buffer@) && r is Ok ==> {
                let entry = final(self).entries().last();
                &&& r == Ok::<usize, TarParserError>(BLOCK_SIZE)
                &&& final(self).entries().len() == old(self).entries().len() + 1
                &&& entry.entry is Directory
                &&& relative_path_text(entry.path) == block_name(input_buffer@)
            },
            old(self).at_fresh_header() && is_whole_file_entry(input_buffer@) && r is Ok ==> {
                let block = input_buffer@.take(BLOCK_SIZE as int);
                let entry = final(self).entries().last();
                &&& r == Ok::<usize, TarParserError>(input_buffer@.len() as usize)
                &&& final(self).entries().len() == old(self).entries().len() + 1
                &&& entry.entry matches FileEntry::RegularFile(f) && f.data matches FileData::Regular(d)
                    && d@ == input_buffer@.subrange(BLOCK_SIZE as int, BLOCK_SIZE + block_size(block))
                &&& relative_path_text(entry.path) == block_path(block)
                &&& final(self).at_fresh_header()
            },
            old(self).at_fresh_header() && is_whole_file_entry(input_buffer@) && input_buffer@.subrange(257, 265)
                == magic_version_v7() && r is Ok ==> has_v7_metadata(
                final(self).entries().last(),
                input_buffer@.take(BLOCK_SIZE as int),
                old(self).pax_attributes(),
            ),
            old(self).at_fresh_header() && is_v7_directory_block(input_buffer@) && v7_block_well_formed(
                input_buffer@,
            ) ==> r is Ok,
            old(self).at_fresh_header() && is_whole_file_entry(input_buffer@) && v7_block_well_formed(
                input_buffer@.take(BLOCK_SIZE as int),
            ) ==> r is Ok,
            old(self).at_fresh_header() && input_buffer@.len() % (BLOCK_SIZE as nat) == 0 && (forall|i: int|
                0 <= i < input_buffer@.len() ==> input_buffer@[i] == 0) ==> {
                &&& r == Ok::<usize, TarParserError>(input_buffer@.len() as usize)
                &&& final(self).entries() == old(self).entries()
                &&& final(self).at_fresh_header()
            },
            forall|p: Seq<u8>, base: Seq<TarInode>|
                #[trigger] old(self).taken_of_file_entry(p, base) && is_file_entry_prefix(p + input_buffer@)
                    && r is Ok ==> r == Ok::<usize, TarParserError>(input_buffer@.len() as usize)
                    && final(self).taken_of_file_entry(p + input_buffer@, base),
            forall|p: Seq<u8>, base: Seq<TarInode>|
                #[trigger] old(self).taken_of_file_entries(p, base) && is_file_entries_prefix(p + input_buffer@)
                    ==> (r matches Ok(n) ==> n <= input_buffer@.len() && (input_buffer@.len() > 0 ==> n > 0)
                    && final(self).taken_of_file_entries(p + input_buffer@.take(n as int), base)),
    {
        let mut pos: usize = 0;
        proof {
            assert(self.consumed@ =~= old(self).consumed@ + input_buffer@.take(0));
            assert forall|p: Seq<u8>, base: Seq<TarInode>| #[trigger] old(self).taken_of_file_entry(p, base)
                implies p + input_buffer@.take(0) == p by {
                assert(p + input_buffer@.take(0) =~= p);
            }
            assert forall|p: Seq<u8>, base: Seq<TarInode>| #[trigger] old(self).taken_of_file_entries(p, base)
                implies p + input_buffer@.take(0) == p by {
                assert(p + input_buffer@.take(0) =~= p);
            }
        }
        proof {
            self.lemma_step_keeps_refl();
            if is_v7_directory_block(input_buffer@) {
                assert(input_buffer@.subrange(0, BLOCK_SIZE as int) =~= input_buffer@);
            }
            if input_buffer@.len() >= BLOCK_SIZE {
                assert(input_buffer@.subrange(0, BLOCK_SIZE as int) =~= input_buffer@.take(
                    BLOCK_SIZE as int,
                ));
            }
        }
        let ghost directory = old(self).at_fresh_header() && is_v7_directory_block(input_buffer@);
        let ghost file = old(self).at_fresh_header() && is_whole_file_entry(input_buffer@);
        let ghost v7file = file && input_buffer@.subrange(257, 265) == magic_version_v7();
        let ghost block = input_buffer@.take(BLOCK_SIZE as int);
        let ghost size = block_size(block);
        let ghost pad = padding_to_block(size as nat);
        let ghost zeros = old(self).at_fresh_header() && input_buffer@.len() % (BLOCK_SIZE as nat) == 0 && (forall|i: int|
            0 <= i < input_buffer@.len() ==> input_buffer@[i] == 0);
        loop
            invariant
                pos <= input_buffer@.len(),
                old(self).step_keeps(*self),
                self.consumed@ == old(self).consumed@ + input_buffer@.take(pos as int),
                directory == (old(self).at_fresh_header() && is_v7_directory_block(input_buffer@)),
                directory ==> input_buffer@.subrange(0, BLOCK_SIZE as int) == input_buffer@,
                directory && pos == 0 ==> self.at_fresh_header() && self.entries() == old(self).entries(),
                directory && pos != 0 ==> {
                    let entry = self.entries().last();
                    &&& pos == BLOCK_SIZE
                    &&& self.entries().len() == old(self).entries().len() + 1
                    &&& entry.entry is Directory
                    &&& relative_path_text(entry.path) == block_name(input_buffer@)
                    &&& self.parser_state is SkippingData || (self.parser_state is ReadingTarHeader
                        && self.header_buffer@.len() == 0)
                },
                file == (old(self).at_fresh_header() && is_whole_file_entry(input_buffer@)),
                zeros == (old(self).at_fresh_header() && input_buffer@.len() % (BLOCK_SIZE as nat) == 0 && (forall|i: int|
                    0 <= i < input_buffer@.len() ==> input_buffer@[i] == 0)),
                zeros ==> pos % BLOCK_SIZE == 0 && self.at_fresh_header() && self.entries() == old(self).entries(),
                forall|p: Seq<u8>, base: Seq<TarInode>|
                    #[trigger] old(self).taken_of_file_entry(p, base) && is_file_entry_prefix(p + input_buffer@)
                        ==> self.taken_of_file_entry(p + input_buffer@.take(pos as int), base)
                        || self.file_entry_pending(p + input_buffer@.take(pos as int), base),
                forall|p: Seq<u8>, base: Seq<TarInode>|
                    #[trigger] old(self).taken_of_file_entries(p, base) && is_file_entries_prefix(p + input_buffer@)
                        ==> self.taken_of_file_entries(p + input_buffer@.take(pos as int), base)
                        || self.file_entries_pending(p + input_buffer@.take(pos as int), base),
                pos == 0 ==> *self == *old(self),
                block == input_buffer@.take(BLOCK_SIZE as int),
                size == block_size(block),
                pad == padding_to_block(size as nat),
                file ==> input_buffer@.subrange(0, BLOCK_SIZE as int) == block,
                file && pos == 0 ==> self.at_fresh_header() && self.entries() == old(self).entries(),
                v7file == (file && input_buffer@.subrange(257, 265) == magic_version_v7()),
                v7file && pos != 0 && self.entries().len() == old(self).entries().len() ==> self.pax_parser
                    == old(self).pax_parser && builder_has_v7_metadata(self.inode_state, block),
                v7file && self.entries().len() != old(self).entries().len() ==> has_v7_metadata(
                    self.entries().last(),
                    block,
                    old(self).pax_parser,
                ),
                file && pos != 0 && self.entries().len() == old(self).entries().len() ==> {
                    &&& pos == BLOCK_SIZE
                    &&& self.entries() == old(self).entries()
                    &&& self.parser_state matches TarParserState::ReadingFileData(st)
                        && st.remaining_data == size && st.padding_after == pad
                    &&& self.header_buffer@.len() == 0
                    &&& self.inode_state.data@.len() == 0
                    &&& self.inode_state.sparse_file_instructions.items().len() == 0
                    &&& self.pax_parser.holds_no_path()
                    &&& self.pax_parser.sparse_map().len() == 0
                    &&& self.inode_state.file_path.held() matches Some((_, p)) && p@ == block_path(block)
                },
                file && self.entries().len() != old(self).entries().len() ==> {
                    let entry = self.entries().last();
                    &&& self.entries().len() == old(self).entries().len() + 1
                    &&& entry.entry matches FileEntry::RegularFile(f) && f.data matches FileData::Regular(d)
                        && d@ == input_buffer@.subrange(BLOCK_SIZE as int, BLOCK_SIZE + size)
                    &&& relative_path_text(entry.path) == block_path(block)
                    &&& self.between_entries()
                    &&& ((pos == BLOCK_SIZE + size && pad > 0 && (self.parser_state matches TarParserState::SkippingData(sk)
                        && sk.remaining_data == pad)) || (pos == input_buffer@.len() && self.parser_state is ReadingTarHeader))
                },
            decreases input_buffer@.len() - pos,
        {
            let ghost at_head = *self;
            let mut state = TarParserState::ReadingTarHeader;
            core::mem::swap(&mut state, &mut self.parser_state);
            let ghost st = state;
            let before = pos;
            let ghost current = *self;
            proof {
                if current.header_buffer@.len() == 0 && before + BLOCK_SIZE <= input_buffer@.len() {
                    assert(current.header_buffer@ + input_buffer@.subrange(before as int, before + BLOCK_SIZE)
                        =~= input_buffer@.subrange(before as int, before + BLOCK_SIZE));
                    if zeros {
                        assert forall|i: int| 0 <= i < BLOCK_SIZE implies #[trigger] input_buffer@.subrange(
                            before as int,
                            before + BLOCK_SIZE,
                        )[i] == 0 by {
                            assert(input_buffer@[before + i] == 0);
                        }
                    }
                }
            }
            let next = match state {
                TarParserState::ReadingTarHeader => self.state_reading_tar_header(input_buffer, &mut pos),
                TarParserState::SkippingData(s) => Ok(TarParser::<VH>::state_skipping_data(input_buffer, &mut pos, s)),
                TarParserState::ParsingGnuLongName(s) => Ok(self.state_parsing_gnu_long_name(input_buffer, &mut pos, s)),
                TarParserState::ReadingOldGnuSparseExtendedHeader(s) => Ok(
                    self.state_reading_old_gnu_sparse_extended_header(input_buffer, &mut pos, s),
                ),
                TarParserState::ParsingPaxData(s) => self.state_parsing_pax_data(input_buffer, &mut pos, s),
                TarParserState::ParsingGnuSparse1_0(s) => self.state_parsing_gnu_sparse_1_0(input_buffer, &mut pos, s),
                TarParserState::ReadingFileData(s) => Ok(self.state_reading_file_data(input_buffer, &mut pos, s)),
            };
            proof {
                if current == *self {
                    current.lemma_step_keeps_refl();
                }
                TarParser::<VH>::lemma_step_keeps_trans(*old(self), current, *self);
            }
            let ghost stepped = *self;
            let ghost next_g = next;
            match next {
                Ok(s) => {
                    self.parser_state = s;
                },
                Err(e) => {
                    proof {
                        if (directory && v7_block_well_formed(input_buffer@)) || (file && v7_block_well_formed(block)) {
                            if before == 0 {
                                assert(current.header_buffer@ + input_buffer@.subrange(0, BLOCK_SIZE as int)
                                    =~= input_buffer@.subrange(0, BLOCK_SIZE as int));
                            }
                            assert(false);
                        }
                    }
                    return Err(e);
                },
            }
            proof {
                self.consumed@ = old(self).consumed@ + input_buffer@.take(pos as int);
                assert forall|p: Seq<u8>, base: Seq<TarInode>|
                    #[trigger] old(self).taken_of_file_entry(p, base) && is_file_entry_prefix(p + input_buffer@)
                    implies ({
                    let q = p + input_buffer@.take(pos as int);
                    &&& self.taken_of_file_entry(q, base) || self.file_entry_pending(q, base)
                    &&& pos == before ==> pos == input_buffer@.len() && self.taken_of_file_entry(
                        p + input_buffer@,
                        base,
                    )
                }) by {
                    let q0 = p + input_buffer@.take(before as int);
                    assert(at_head.taken_of_file_entry(q0, base) || at_head.file_entry_pending(q0, base));
                    assert(p + input_buffer@ =~= q0 + input_buffer@.subrange(before as int, input_buffer@.len() as int));
                    TarParser::<VH>::lemma_file_entry_step(
                        at_head,
                        current,
                        stepped,
                        *self,
                        input_buffer@,
                        before as int,
                        pos as int,
                        st,
                        next_g,
                        q0,
                        base,
                    );
                    assert(p + input_buffer@.take(pos as int) =~= q0 + input_buffer@.subrange(before as int, pos as int));
                    if pos == input_buffer@.len() {
                        assert(input_buffer@.take(pos as int) =~= input_buffer@);
                    }
                }
            }
            proof {
                TarParser::<VH>::lemma_write_round_entries(
                    *old(self),
                    at_head,
                    current,
                    stepped,
                    *self,
                    input_buffer@,
                    before as int,
                    pos as int,
                    st,
                    next_g,
                );
            }
            if pos == before {
                return Ok(pos);
            }
        }
    }

    fn flush(&mut self) -> (r: Result<(), core::convert::Infallible>)
        ensures
            *final(self) == *old(self),
    {
        Ok(())
    }
}

/// With only the last version of each path kept, the extracted files are the entries of the
/// archive with each path at the place where it first appeared and with its last entry; no two
/// of them share a path.
pub proof fn law_keep_only_last<VH: TarViolationHandler>(parser: &TarParser<VH>)
    requires
        parser.wf(),
        parser.keeps_only_last(),
    ensures
        parser.files() == keep_last(parser.entries()),
        paths_unique(parser.files()),
{
}

/// With every version kept, the extracted files are all the entries of the archive, in order.
pub proof fn law_keep_all_versions<VH: TarViolationHandler>(parser: &TarParser<VH>)
    requires
        parser.wf(),
        !parser.keeps_only_last(),
    ensures
        parser.files() == parser.entries(),
{
}


/// A parser ready for a header has taken nothing yet of the file entry that may follow.
pub proof fn law_fresh_parser_starts_a_file_entry<VH: TarViolationHandler>(parser: &TarParser<VH>)
    requires
        parser.at_fresh_header(),
    ensures
        parser.taken_of_file_entry(Seq::<u8>::empty(), parser.entries()),
{
    reveal(TarParser::taken_of_file_entry);
    assert(parser.header_buffer@ =~= Seq::<u8>::empty());
}

/// Every start of a whole file entry can be fed to the parser: the bytes of a whole entry, cut
/// anywhere, begin a file entry.
pub proof fn law_parts_of_a_whole_file_entry(e: Seq<u8>, k: int)
    requires
        is_whole_file_entry(e),
        0 <= k <= e.len(),
    ensures
        is_file_entry_prefix(e.take(k)),
{
    if k >= BLOCK_SIZE {
        assert(e.take(k).take(BLOCK_SIZE as int) =~= e.take(BLOCK_SIZE as int));
    }
}

/// Once a parser has taken a whole file entry, in writes of any sizes, it has recorded the entry:
/// one more entry, a regular file with the data the entry holds and the path its header gives,
/// after the entries it had; and it is ready for the next header.
pub proof fn law_whole_file_entry_is_recorded<VH: TarViolationHandler>(
    parser: &TarParser<VH>,
    e: Seq<u8>,
    base: Seq<TarInode>,
)
    requires
        is_whole_file_entry(e),
        parser.taken_of_file_entry(e, base),
    ensures
        parser.at_fresh_header(),
        parser.entries().len() == base.len() + 1,
        parser.entries().drop_last() == base,
        ({
            let block = e.take(BLOCK_SIZE as int);
            let entry = parser.entries().last();
            &&& entry.entry matches FileEntry::RegularFile(f) && f.data matches FileData::Regular(d)
                && d@ == e.subrange(BLOCK_SIZE as int, BLOCK_SIZE + block_size(block))
            &&& relative_path_text(entry.path) == block_path(block)
        }),
{
    reveal(TarParser::taken_of_file_entry);
}


/// A parser ready for a header has taken nothing yet of the file entries that may follow.
pub proof fn law_fresh_parser_starts_file_entries<VH: TarViolationHandler>(parser: &TarParser<VH>)
    requires
        parser.at_fresh_header(),
    ensures
        parser.taken_of_file_entries(Seq::<u8>::empty(), parser.entries()),
{
    reveal(TarParser::taken_of_file_entries);
    law_fresh_parser_starts_a_file_entry(parser);
    let e = parser.entries();
    assert(!starts_with_whole_file_entry(Seq::<u8>::empty()));
    assert(e.take(e.len() as int) =~= e);
    assert(e.subrange(e.len() as int, e.len() as int) =~= Seq::<TarInode>::empty());
}

/// Whole file entries one after the other split into themselves, with nothing left over.
pub proof fn law_whole_file_entries_split(es: Seq<Seq<u8>>)
    requires
        forall|i: int| 0 <= i < es.len() ==> is_whole_file_entry(#[trigger] es[i]),
    ensures
        file_entry_split(es.flatten()) == (es, Seq::<u8>::empty()),
    decreases es.len(),
{
    if es.len() > 0 {
        let flat = es.flatten();
        let e = es[0];
        let rest = es.drop_first();
        assert(flat == e + rest.flatten());
        assert forall|i: int| 0 <= i < rest.len() implies is_whole_file_entry(#[trigger] rest[i]) by {
            assert(rest[i] == es[i + 1]);
        }
        law_whole_file_entries_split(rest);
        assert(flat.take(BLOCK_SIZE as int) =~= e.take(BLOCK_SIZE as int));
        let n = entry_length(e.take(BLOCK_SIZE as int));
        assert(flat.skip(n) =~= rest.flatten());
        assert(flat.take(n) =~= e);
        assert(seq![e] + rest =~= es);
    } else {
        assert(es.flatten() =~= Seq::<u8>::empty());
    }
}

/// Every start of whole file entries one after the other can be fed to the parser: their bytes,
/// cut anywhere, are whole entries followed by the start of one.
pub proof fn law_parts_of_whole_file_entries(es: Seq<Seq<u8>>, k: int)
    requires
        forall|i: int| 0 <= i < es.len() ==> is_whole_file_entry(#[trigger] es[i]),
        0 <= k <= es.flatten().len(),
    ensures
        is_file_entries_prefix(es.flatten().take(k)),
    decreases es.len(),
{
    let flat = es.flatten();
    if es.len() == 0 {
        assert(flat.take(k) =~= Seq::<u8>::empty());
    } else {
        let e = es[0];
        let rest = es.drop_first();
        let n = e.len() as int;
        assert(flat == e + rest.flatten());
        assert forall|i: int| 0 <= i < rest.len() implies is_whole_file_entry(#[trigger] rest[i]) by {
            assert(rest[i] == es[i + 1]);
        }
        if k < n {
            assert(flat.take(k) =~= e.take(k));
            law_parts_of_a_whole_file_entry(e, k);
            if k >= BLOCK_SIZE {
                assert(e.take(k).take(BLOCK_SIZE as int) =~= e.take(BLOCK_SIZE as int));
            }
            assert(!starts_with_whole_file_entry(e.take(k)));
        } else {
            law_parts_of_whole_file_entries(rest, k - n);
            let t = flat.take(k);
            assert(t.take(BLOCK_SIZE as int) =~= e.take(BLOCK_SIZE as int));
            assert(starts_with_whole_file_entry(t));
            assert(t.skip(n) =~= rest.flatten().take(k - n));
        }
    }
}

/// Once a parser has taken whole file entries, in writes of any sizes, it has recorded each of
/// them in turn after the entries it had: a regular file with the data the entry holds and the
/// path its header gives; and it is ready for the next header.
pub proof fn law_whole_file_entries_are_recorded<VH: TarViolationHandler>(
    parser: &TarParser<VH>,
    es: Seq<Seq<u8>>,
    base: Seq<TarInode>,
)
    requires
        forall|i: int| 0 <= i < es.len() ==> is_whole_file_entry(#[trigger] es[i]),
        parser.taken_of_file_entries(es.flatten(), base),
    ensures
        parser.at_fresh_header(),
        parser.entries().len() == base.len() + es.len(),
        parser.entries().take(base.len() as int) == base,
        records_file_entries(parser.entries().skip(base.len() as int), es),
{
    law_whole_file_entries_split(es);
    reveal(TarParser::taken_of_file_entries);
    reveal(TarParser::taken_of_file_entry);
    let e = parser.entries();
    let mid = base.len() + es.len();
    assert(e.take(mid as int).len() == mid);
    assert(e.len() == mid);
    assert(e.skip(base.len() as int) =~= e.subrange(base.len() as int, mid as int));
}

} // verus!
