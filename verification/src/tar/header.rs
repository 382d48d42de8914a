//! The 512-byte header blocks of the tar formats (`v7`, `ustar`, `gnu`) and their type flags.
use vstd::prelude::*;
use vstd::utf8::{decode_utf8, valid_utf8};

use crate::tar::inode::{FilePermissions, SparseFileInstruction, TimeStamp};
use crate::tar::text::{
    array_from_slice, octal_value, parse_null_terminated_string, parse_octal, until_nul,
    IntErrorKind, ParseIntError, ParseOctalError,
};

verus! {

/// The size of a tar block.
pub const BLOCK_SIZE: usize = 512;

/// The type of a tar entry, from the `typeflag` byte of its header.
///
/// Standard: `0` or NUL regular file, `1` hard link, `2` symbolic link, `3` character device,
/// `4` block device, `5` directory, `6` FIFO, `7` continuous file.
/// PAX: `x` extended header for the next entry, `g` global extended header.
/// GNU: `L` long name, `K` long link name, `S` old sparse file.
#[derive(Debug, Clone, Copy, PartialEq, Eq, Structural, Hash)]
pub enum TarTypeFlag {
    /// Regular file
    RegularFile,
    /// Hard link
    HardLink,
    /// Symbolic link
    SymbolicLink,
    /// Character device
    CharacterDevice,
    /// Block device
    BlockDevice,
    /// Directory
    Directory,
    /// FIFO (named pipe)
    Fifo,
    /// A continuous file
    ContinuousFile,
    /// Extended header `pax`
    PaxExtendedHeader,
    /// Global extended header `pax`
    PaxGlobalExtendedHeader,
    /// GNU extension - long file name
    LongNameGnu,
    /// GNU extension - long link name (link target)
    LongLinkNameGnu,
    /// GNU extension - sparse file
    SparseOldGnu,
    UnknownTypeFlag(u8),
}

/// The type flag a header byte stands for.
pub open spec fn type_flag_of(value: u8) -> TarTypeFlag {
    if value == 0 || value == 0x30 {
        TarTypeFlag::RegularFile
    } else if value == 0x31 {
        TarTypeFlag::HardLink
    } else if value == 0x32 {
        TarTypeFlag::SymbolicLink
    } else if value == 0x33 {
        TarTypeFlag::CharacterDevice
    } else if value == 0x34 {
        TarTypeFlag::BlockDevice
    } else if value == 0x35 {
        TarTypeFlag::Directory
    } else if value == 0x36 {
        TarTypeFlag::Fifo
    } else if value == 0x37 {
        TarTypeFlag::ContinuousFile
    } else if value == 0x78 {
        TarTypeFlag::PaxExtendedHeader
    } else if value == 0x67 {
        TarTypeFlag::PaxGlobalExtendedHeader
    } else if value == 0x4c {
        TarTypeFlag::LongNameGnu
    } else if value == 0x4b {
        TarTypeFlag::LongLinkNameGnu
    } else if value == 0x53 {
        TarTypeFlag::SparseOldGnu
    } else {
        TarTypeFlag::UnknownTypeFlag(value)
    }
}

/// The header byte written for a type flag.
pub open spec fn type_flag_byte(flag: TarTypeFlag) -> u8 {
    match flag {
        TarTypeFlag::RegularFile => 0,
        TarTypeFlag::HardLink => 0x31,
        TarTypeFlag::SymbolicLink => 0x32,
        TarTypeFlag::CharacterDevice => 0x33,
        TarTypeFlag::BlockDevice => 0x34,
        TarTypeFlag::Directory => 0x35,
        TarTypeFlag::Fifo => 0x36,
        TarTypeFlag::ContinuousFile => 0x37,
        TarTypeFlag::PaxExtendedHeader => 0x78,
        TarTypeFlag::PaxGlobalExtendedHeader => 0x67,
        TarTypeFlag::LongNameGnu => 0x4c,
        TarTypeFlag::LongLinkNameGnu => 0x4b,
        TarTypeFlag::SparseOldGnu => 0x53,
        TarTypeFlag::UnknownTypeFlag(value) => value,
    }
}

impl TarTypeFlag {
    /// The entry describes a file system object.
    pub open spec fn spec_is_file_like(&self) -> bool {
        ||| *self == TarTypeFlag::RegularFile
        ||| *self == TarTypeFlag::HardLink
        ||| *self == TarTypeFlag::SymbolicLink
        ||| *self == TarTypeFlag::CharacterDevice
        ||| *self == TarTypeFlag::BlockDevice
        ||| *self == TarTypeFlag::Directory
        ||| *self == TarTypeFlag::Fifo
        ||| *self == TarTypeFlag::ContinuousFile
        ||| *self == TarTypeFlag::SparseOldGnu
    }

    /// The entry is a link.
    pub open spec fn spec_is_link_like(&self) -> bool {
        *self == TarTypeFlag::HardLink || *self == TarTypeFlag::SymbolicLink
    }

    pub fn is_file_like(&self) -> (r: bool)
        ensures
            r == self.spec_is_file_like(),
    {
        match self {
            TarTypeFlag::RegularFile | TarTypeFlag::HardLink | TarTypeFlag::SymbolicLink
            | TarTypeFlag::CharacterDevice | TarTypeFlag::BlockDevice | TarTypeFlag::Directory
            | TarTypeFlag::Fifo | TarTypeFlag::ContinuousFile | TarTypeFlag::SparseOldGnu => true,
            _ => false,
        }
    }

    pub fn is_link_like(&self) -> (r: bool)
        ensures
            r == self.spec_is_link_like(),
    {
        match self {
            TarTypeFlag::HardLink | TarTypeFlag::SymbolicLink => true,
            _ => false,
        }
    }
}

impl From<u8> for TarTypeFlag {
    fn from(value: u8) -> (r: Self) {
        if value == 0 || value == 0x30 {
            TarTypeFlag::RegularFile
        } else if value == 0x31 {
            TarTypeFlag::HardLink
        } else if value == 0x32 {
            TarTypeFlag::SymbolicLink
        } else if value == 0x33 {
            TarTypeFlag::CharacterDevice
        } else if value == 0x34 {
            TarTypeFlag::BlockDevice
        } else if value == 0x35 {
            TarTypeFlag::Directory
        } else if value == 0x36 {
            TarTypeFlag::Fifo
        } else if value == 0x37 {
            TarTypeFlag::ContinuousFile
        } else if value == 0x78 {
            TarTypeFlag::PaxExtendedHeader
        } else if value == 0x67 {
            TarTypeFlag::PaxGlobalExtendedHeader
        } else if value == 0x4c {
            TarTypeFlag::LongNameGnu
        } else if value == 0x4b {
            TarTypeFlag::LongLinkNameGnu
        } else if value == 0x53 {
            TarTypeFlag::SparseOldGnu
        } else {
            TarTypeFlag::UnknownTypeFlag(value)
        }
    }
}

impl vstd::std_specs::convert::FromSpecImpl<u8> for TarTypeFlag {
    open spec fn obeys_from_spec() -> bool {
        true
    }

    open spec fn from_spec(v: u8) -> Self {
        type_flag_of(v)
    }
}

impl From<TarTypeFlag> for u8 {
    fn from(value: TarTypeFlag) -> (r: Self) {
        match value {
            TarTypeFlag::RegularFile => 0,
            TarTypeFlag::HardLink => 0x31,
            TarTypeFlag::SymbolicLink => 0x32,
            TarTypeFlag::CharacterDevice => 0x33,
            TarTypeFlag::BlockDevice => 0x34,
            TarTypeFlag::Directory => 0x35,
            TarTypeFlag::Fifo => 0x36,
            TarTypeFlag::ContinuousFile => 0x37,
            TarTypeFlag::PaxExtendedHeader => 0x78,
            TarTypeFlag::PaxGlobalExtendedHeader => 0x67,
            TarTypeFlag::LongNameGnu => 0x4c,
            TarTypeFlag::LongLinkNameGnu => 0x4b,
            TarTypeFlag::SparseOldGnu => 0x53,
            TarTypeFlag::UnknownTypeFlag(value) => value,
        }
    }
}

impl vstd::std_specs::convert::FromSpecImpl<TarTypeFlag> for u8 {
    open spec fn obeys_from_spec() -> bool {
        true
    }

    open spec fn from_spec(v: TarTypeFlag) -> Self {
        type_flag_byte(v)
    }
}

/// Reading a type flag from the byte written for it gives the flag back, for every flag a header
/// byte can stand for.
pub proof fn law_type_flag_round_trip(value: u8)
    ensures
        type_flag_of(type_flag_byte(type_flag_of(value))) == type_flag_of(value),
        value != 0x30 ==> type_flag_byte(type_flag_of(value)) == value,
{
}

/// The sum of the bytes of `s`.
pub open spec fn bytes_sum(s: Seq<u8>) -> nat
    decreases s.len(),
{
    if s.len() == 0 {
        0
    } else {
        bytes_sum(s.drop_last()) + (s.last() as nat)
    }
}

/// The sum of a concatenation is the sum of the sums.
pub proof fn lemma_bytes_sum_concat(a: Seq<u8>, b: Seq<u8>)
    ensures
        bytes_sum(a + b) == bytes_sum(a) + bytes_sum(b),
    decreases b.len(),
{
    if b.len() > 0 {
        assert((a + b).drop_last() =~= a + b.drop_last());
        lemma_bytes_sum_concat(a, b.drop_last());
    } else {
        assert(a + b =~= a);
    }
}

/// No byte sum exceeds 255 per byte.
pub proof fn lemma_bytes_sum_bound(s: Seq<u8>)
    ensures
        bytes_sum(s) <= 255 * s.len(),
    decreases s.len(),
{
    if s.len() > 0 {
        lemma_bytes_sum_bound(s.drop_last());
    }
}

/// Sums the bytes of a slice.
pub fn sum_bytes(s: &[u8]) -> (r: u32)
    requires
        s@.len() <= 0x10000,
    ensures
        r == bytes_sum(s@),
{
    let mut total: u32 = 0;
    let mut i: usize = 0;
    while i < s.len()
        invariant
            i <= s@.len() <= 0x10000,
            total == bytes_sum(s@.take(i as int)),
            total <= 255 * i,
        decreases s@.len() - i,
    {
        proof {
            assert(s@.take(i + 1).drop_last() =~= s@.take(i as int));
        }
        total = total + s[i] as u32;
        i = i + 1;
    }
    proof {
        assert(s@.take(i as int) =~= s@);
    }
    total
}

/// The error of a header's checksum.
#[derive(Debug, Clone, PartialEq, Eq)]
pub enum TarHeaderChecksumError {
    /// The checksum field holds `expected`, the header sums to `actual`.
    WrongChecksum { expected: u32, actual: u32 },
    /// The checksum field is no octal number.
    ParseOctalError(ParseOctalError),
}

/// The header of the old `v7` format, which the later formats extend.
pub struct V7Header {
    /// File name, null-terminated
    pub name_bytes: [u8; 100],
    /// File mode (octal), stored as ASCII bytes
    pub mode: [u8; 8],
    /// User ID of file owner (octal), stored as ASCII bytes
    pub uid: [u8; 8],
    /// Group ID of file owner (octal), stored as ASCII bytes
    pub gid: [u8; 8],
    /// File size in bytes (octal), stored as ASCII bytes.
    /// The size of the data after the header block, not counting the header itself.
    pub size: [u8; 12],
    /// Modification time (epoch seconds, octal), stored as ASCII bytes
    pub mtime: [u8; 12],
    /// Header checksum (space-padded), stored as ASCII bytes
    pub checksum: [u8; 8],
    /// File type flag (e.g., 0 = file, 5 = directory)
    pub typeflag: u8,
    /// Target name of a symbolic link, null-terminated
    pub linkname: [u8; 100],
    /// Magic string and version: all zeros for `v7`, and what tells the later formats apart.
    pub magic_version: [u8; 8],
    /// [`CommonHeaderAdditions`] if `magic_version` matches, or just zeros.
    pub padding: [u8; 247],
}

/// The magic string and version of the `v7` format.
pub open spec fn magic_version_v7() -> Seq<u8> {
    seq![0u8, 0u8, 0u8, 0u8, 0u8, 0u8, 0u8, 0u8]
}

/// The magic string and version shared by the `ustar`, `pax` and `posix` formats: `ustar\0` `00`.
pub open spec fn magic_version_ustar() -> Seq<u8> {
    seq![0x75u8, 0x73u8, 0x74u8, 0x61u8, 0x72u8, 0u8, 0x30u8, 0x30u8]
}

/// The magic string and version of the GNU format: `ustar  \0`.
pub open spec fn magic_version_gnu() -> Seq<u8> {
    seq![0x75u8, 0x73u8, 0x74u8, 0x61u8, 0x72u8, 0x20u8, 0x20u8, 0u8]
}

/// The checksum of a header block: the sum of its bytes, with the checksum field counted as
/// eight spaces.
pub open spec fn header_checksum(block: Seq<u8>) -> nat {
    bytes_sum(block.take(148)) + 8 * 0x20 + bytes_sum(block.skip(156))
}

impl V7Header {
    /// The 512 bytes of the header block.
    pub open spec fn block(&self) -> Seq<u8> {
        self.name_bytes@ + self.mode@ + self.uid@ + self.gid@ + self.size@ + self.mtime@
            + self.checksum@ + seq![self.typeflag] + self.linkname@ + self.magic_version@
            + self.padding@
    }

    /// The header a 512-byte block holds, or `None` for a slice of another length.
    pub fn from_bytes(bytes: &[u8]) -> (r: Option<Self>)
        ensures
            r is Some <==> bytes@.len() == 512,
            r matches Some(h) ==> h.block() == bytes@,
    {
        if bytes.len() != 512 {
            return None;
        }
        let h = V7Header {
            name_bytes: array_from_slice(&bytes[0..100]),
            mode: array_from_slice(&bytes[100..108]),
            uid: array_from_slice(&bytes[108..116]),
            gid: array_from_slice(&bytes[116..124]),
            size: array_from_slice(&bytes[124..136]),
            mtime: array_from_slice(&bytes[136..148]),
            checksum: array_from_slice(&bytes[148..156]),
            typeflag: bytes[156],
            linkname: array_from_slice(&bytes[157..257]),
            magic_version: array_from_slice(&bytes[257..265]),
            padding: array_from_slice(&bytes[265..512]),
        };
        proof {
            assert(h.block() =~= bytes@);
        }
        Some(h)
    }

    pub fn parse_name(&self) -> (r: Result<&str, core::str::Utf8Error>)
        ensures
            r is Ok <==> valid_utf8(until_nul(self.name_bytes@)),
            r matches Ok(s) ==> s@ == decode_utf8(until_nul(self.name_bytes@)),
    {
        parse_null_terminated_string(&self.name_bytes)
    }

    /// The permissions the whole mode field spells in octal, or `None`.
    pub fn parse_mode(&self) -> (r: Option<FilePermissions>)
        ensures
            r == FilePermissions::from_octal_field(self.mode@),
    {
        FilePermissions::parse_octal_ascii_unix_mode(&self.mode)
    }

    pub fn parse_uid(&self) -> (r: Result<u32, ParseOctalError>)
        ensures
            octal_field_u32(self.uid@, r),
    {
        octal_u32(&self.uid)
    }

    pub fn parse_gid(&self) -> (r: Result<u32, ParseOctalError>)
        ensures
            octal_field_u32(self.gid@, r),
    {
        octal_u32(&self.gid)
    }

    pub fn parse_size(&self) -> (r: Result<u32, ParseOctalError>)
        ensures
            octal_field_u32(self.size@, r),
    {
        octal_u32(&self.size)
    }

    pub fn parse_mtime(&self) -> (r: Result<TimeStamp, ParseOctalError>)
        ensures
            octal_field_time(self.mtime@, r),
    {
        octal_time(&self.mtime)
    }

    /// Computes the checksum of the header according to the ustar spec: the checksum field
    /// counts as if it were filled with ASCII spaces.
    pub fn compute_header_checksum(&self) -> (r: u32)
        ensures
            r == header_checksum(self.block()),
    {
        let s1 = sum_bytes(&self.name_bytes);
        let s2 = sum_bytes(&self.mode);
        let s3 = sum_bytes(&self.uid);
        let s4 = sum_bytes(&self.gid);
        let s5 = sum_bytes(&self.size);
        let s6 = sum_bytes(&self.mtime);
        let s7 = self.typeflag as u32;
        let s8 = sum_bytes(&self.linkname);
        let s9 = sum_bytes(&self.magic_version);
        let s10 = sum_bytes(&self.padding);
        proof {
            lemma_bytes_sum_bound(self.name_bytes@);
            lemma_bytes_sum_bound(self.mode@);
            lemma_bytes_sum_bound(self.uid@);
            lemma_bytes_sum_bound(self.gid@);
            lemma_bytes_sum_bound(self.size@);
            lemma_bytes_sum_bound(self.mtime@);
            lemma_bytes_sum_bound(self.linkname@);
            lemma_bytes_sum_bound(self.magic_version@);
            lemma_bytes_sum_bound(self.padding@);
            let b = self.block();
            let head = self.name_bytes@ + self.mode@ + self.uid@ + self.gid@ + self.size@
                + self.mtime@;
            let tail = seq![self.typeflag] + self.linkname@ + self.magic_version@
                + self.padding@;
            assert(b.take(148) =~= head);
            assert(b.skip(156) =~= tail);
            lemma_bytes_sum_concat(self.name_bytes@, self.mode@);
            lemma_bytes_sum_concat(self.name_bytes@ + self.mode@, self.uid@);
            lemma_bytes_sum_concat(self.name_bytes@ + self.mode@ + self.uid@, self.gid@);
            lemma_bytes_sum_concat(
                self.name_bytes@ + self.mode@ + self.uid@ + self.gid@,
                self.size@,
            );
            lemma_bytes_sum_concat(
                self.name_bytes@ + self.mode@ + self.uid@ + self.gid@ + self.size@,
                self.mtime@,
            );
            assert(bytes_sum(seq![self.typeflag]) == self.typeflag) by {
                let one = seq![self.typeflag];
                assert(one.drop_last() =~= Seq::<u8>::empty());
                assert(one.last() == self.typeflag);
                assert(bytes_sum(one.drop_last()) == 0);
            }
            lemma_bytes_sum_concat(seq![self.typeflag], self.linkname@);
            lemma_bytes_sum_concat(seq![self.typeflag] + self.linkname@, self.magic_version@);
            lemma_bytes_sum_concat(
                seq![self.typeflag] + self.linkname@ + self.magic_version@,
                self.padding@,
            );
        }
        s1 + s2 + s3 + s4 + s5 + s6 + 8 * 0x20 + s7 + s8 + s9 + s10
    }

    /// Compares the checksum of the header with the one its checksum field holds.
    pub fn verify_checksum(&self) -> (r: Result<u32, TarHeaderChecksumError>)
        ensures
            ({
                let field = self.checksum@;
                let actual = header_checksum(self.block());
                &&& !valid_utf8(until_nul(field)) ==> (r matches Err(
                    TarHeaderChecksumError::ParseOctalError(ParseOctalError::InvalidUtf8(_)),
                ))
                &&& valid_utf8(until_nul(field)) ==> match octal_value(field) {
                    Ok(v) => if (v as u32) == actual {
                        r == Ok::<u32, TarHeaderChecksumError>(actual as u32)
                    } else {
                        r == Err::<u32, TarHeaderChecksumError>(
                            TarHeaderChecksumError::WrongChecksum {
                                expected: v as u32,
                                actual: actual as u32,
                            },
                        )
                    },
                    Err(kind) => r == Err::<u32, TarHeaderChecksumError>(
                        TarHeaderChecksumError::ParseOctalError(
                            ParseOctalError::ParseIntError(ParseIntError { kind }),
                        ),
                    ),
                }
            }),
    {
        let checksum = self.compute_header_checksum();
        let expected = match parse_octal(&self.checksum) {
            Ok(v) => v as u32,
            Err(e) => {
                return Err(TarHeaderChecksumError::ParseOctalError(e));
            },
        };
        if checksum == expected {
            Ok(checksum)
        } else {
            Err(TarHeaderChecksumError::WrongChecksum { expected, actual: checksum })
        }
    }

    pub fn parse_typeflag(&self) -> (r: TarTypeFlag)
        ensures
            r == type_flag_of(self.typeflag),
    {
        TarTypeFlag::from(self.typeflag)
    }

    pub fn parse_linkname(&self) -> (r: Result<&str, core::str::Utf8Error>)
        ensures
            r is Ok <==> valid_utf8(until_nul(self.linkname@)),
            r matches Ok(s) ==> s@ == decode_utf8(until_nul(self.linkname@)),
    {
        parse_null_terminated_string(&self.linkname)
    }
}

/// `r` is what an octal field gives as a `u32`: the number, cut to its low 32 bits.
pub open spec fn octal_field_u32(field: Seq<u8>, r: Result<u32, ParseOctalError>) -> bool {
    &&& !valid_utf8(until_nul(field)) <==> (r matches Err(ParseOctalError::InvalidUtf8(_)))
    &&& valid_utf8(until_nul(field)) ==> match octal_value(field) {
        Ok(v) => r == Ok::<u32, ParseOctalError>(v as u32),
        Err(kind) => r == Err::<u32, ParseOctalError>(
            ParseOctalError::ParseIntError(ParseIntError { kind }),
        ),
    }
}

/// `r` is what an octal field gives as a `u64`.
pub open spec fn octal_field_u64(field: Seq<u8>, r: Result<u64, ParseOctalError>) -> bool {
    &&& octal_value(field) matches Ok(v) ==> v <= u64::MAX
    &&& !valid_utf8(until_nul(field)) <==> (r matches Err(ParseOctalError::InvalidUtf8(_)))
    &&& valid_utf8(until_nul(field)) ==> match octal_value(field) {
        Ok(v) => r == Ok::<u64, ParseOctalError>(v as u64),
        Err(kind) => r == Err::<u64, ParseOctalError>(
            ParseOctalError::ParseIntError(ParseIntError { kind }),
        ),
    }
}

/// `r` is what an octal field gives as a time stamp in whole seconds.
pub open spec fn octal_field_time(field: Seq<u8>, r: Result<TimeStamp, ParseOctalError>) -> bool {
    &&& !valid_utf8(until_nul(field)) <==> (r matches Err(ParseOctalError::InvalidUtf8(_)))
    &&& valid_utf8(until_nul(field)) ==> match octal_value(field) {
        Ok(v) => r == Ok::<TimeStamp, ParseOctalError>(
            TimeStamp { seconds_since_epoch: v as u64, nanoseconds: 0 },
        ),
        Err(kind) => r == Err::<TimeStamp, ParseOctalError>(
            ParseOctalError::ParseIntError(ParseIntError { kind }),
        ),
    }
}

/// An octal field as a `u32`.
fn octal_u32(field: &[u8]) -> (r: Result<u32, ParseOctalError>)
    ensures
        octal_field_u32(field@, r),
{
    match parse_octal(field) {
        Ok(v) => Ok(v as u32),
        Err(e) => Err(e),
    }
}

/// An octal field as a time stamp in whole seconds.
fn octal_time(field: &[u8]) -> (r: Result<TimeStamp, ParseOctalError>)
    ensures
        octal_field_time(field@, r),
{
    match parse_octal(field) {
        Ok(v) => Ok(TimeStamp { seconds_since_epoch: v, nanoseconds: 0 }),
        Err(e) => Err(e),
    }
}

/// Fields contained in the padding of the [`V7Header`], shared by `ustar` and GNU headers.
pub struct CommonHeaderAdditions {
    /// User name, null-terminated
    pub uname: [u8; 32],
    /// Group name, null-terminated
    pub gname: [u8; 32],
    /// Major device number (octal), stored as ASCII bytes
    pub dev_major: [u8; 8],
    /// Minor device number (octal), stored as ASCII bytes
    pub dev_minor: [u8; 8],
    /// [`UstarHeaderAdditions`] or [`GnuHeaderAdditions`].
    pub padding: [u8; 167],
}

impl CommonHeaderAdditions {
    /// The 247 bytes the fields come from.
    pub open spec fn bytes(&self) -> Seq<u8> {
        self.uname@ + self.gname@ + self.dev_major@ + self.dev_minor@ + self.padding@
    }

    /// The fields of the 247 bytes after a `v7` header's magic, or `None` for another length.
    pub fn from_bytes(bytes: &[u8]) -> (r: Option<Self>)
        ensures
            r is Some <==> bytes@.len() == 247,
            r matches Some(h) ==> h.bytes() == bytes@,
    {
        if bytes.len() != 247 {
            return None;
        }
        let h = CommonHeaderAdditions {
            uname: array_from_slice(&bytes[0..32]),
            gname: array_from_slice(&bytes[32..64]),
            dev_major: array_from_slice(&bytes[64..72]),
            dev_minor: array_from_slice(&bytes[72..80]),
            padding: array_from_slice(&bytes[80..247]),
        };
        proof {
            assert(h.bytes() =~= bytes@);
        }
        Some(h)
    }

    pub fn parse_uname(&self) -> (r: Result<&str, core::str::Utf8Error>)
        ensures
            r is Ok <==> valid_utf8(until_nul(self.uname@)),
            r matches Ok(s) ==> s@ == decode_utf8(until_nul(self.uname@)),
    {
        parse_null_terminated_string(&self.uname)
    }

    pub fn parse_gname(&self) -> (r: Result<&str, core::str::Utf8Error>)
        ensures
            r is Ok <==> valid_utf8(until_nul(self.gname@)),
            r matches Ok(s) ==> s@ == decode_utf8(until_nul(self.gname@)),
    {
        parse_null_terminated_string(&self.gname)
    }

    pub fn parse_dev_major(&self) -> (r: Result<u32, ParseOctalError>)
        ensures
            octal_field_u32(self.dev_major@, r),
    {
        octal_u32(&self.dev_major)
    }

    pub fn parse_dev_minor(&self) -> (r: Result<u32, ParseOctalError>)
        ensures
            octal_field_u32(self.dev_minor@, r),
    {
        octal_u32(&self.dev_minor)
    }
}

/// Fields contained in the padding of the [`CommonHeaderAdditions`] of a `ustar` header.
pub struct UstarHeaderAdditions {
    /// Path prefix used if name exceeds 100 bytes, null-terminated
    pub prefix: [u8; 155],
    pub pad: [u8; 12],
}

impl UstarHeaderAdditions {
    /// The 167 bytes the fields come from.
    pub open spec fn bytes(&self) -> Seq<u8> {
        self.prefix@ + self.pad@
    }

    pub fn from_bytes(bytes: &[u8]) -> (r: Option<Self>)
        ensures
            r is Some <==> bytes@.len() == 167,
            r matches Some(h) ==> h.bytes() == bytes@,
    {
        if bytes.len() != 167 {
            return None;
        }
        let h = UstarHeaderAdditions {
            prefix: array_from_slice(&bytes[0..155]),
            pad: array_from_slice(&bytes[155..167]),
        };
        proof {
            assert(h.bytes() =~= bytes@);
        }
        Some(h)
    }

    pub fn parse_prefix(&self) -> (r: Result<&str, core::str::Utf8Error>)
        ensures
            r is Ok <==> valid_utf8(until_nul(self.prefix@)),
            r matches Ok(s) ==> s@ == decode_utf8(until_nul(self.prefix@)),
    {
        parse_null_terminated_string(&self.prefix)
    }
}

/// One entry of the sparse map of an old GNU sparse file.
pub struct GnuSparseInstruction {
    /// Offset of the beginning of the chunk.
    pub offset: [u8; 12],
    /// Size of the chunk.
    pub num_bytes: [u8; 12],
}

impl GnuSparseInstruction {
    /// The 24 bytes the fields come from.
    pub open spec fn bytes(&self) -> Seq<u8> {
        self.offset@ + self.num_bytes@
    }

    pub fn from_bytes(bytes: &[u8]) -> (r: Option<Self>)
        ensures
            r is Some <==> bytes@.len() == 24,
            r matches Some(h) ==> h.bytes() == bytes@,
    {
        if bytes.len() != 24 {
            return None;
        }
        let h = GnuSparseInstruction {
            offset: array_from_slice(&bytes[0..12]),
            num_bytes: array_from_slice(&bytes[12..24]),
        };
        proof {
            assert(h.bytes() =~= bytes@);
        }
        Some(h)
    }

    pub fn parse_offset(&self) -> (r: Result<u64, ParseOctalError>)
        ensures
            octal_field_u64(self.offset@, r),
    {
        parse_octal(&self.offset)
    }

    pub fn parse_num_bytes(&self) -> (r: Result<u64, ParseOctalError>)
        ensures
            octal_field_u64(self.num_bytes@, r),
    {
        parse_octal(&self.num_bytes)
    }

    /// Every byte of the entry is zero.
    pub fn is_empty(&self) -> (r: bool)
        ensures
            r == (forall|i: int| 0 <= i < 24 ==> #[trigger] self.bytes()[i] == 0),
    {
        let mut i: usize = 0;
        while i < 12
            invariant
                i <= 12,
                forall|j: int| 0 <= j < i ==> self.offset@[j] == 0,
            decreases 12 - i,
        {
            if self.offset[i] != 0 {
                assert(self.bytes()[i as int] != 0);
                return false;
            }
            i = i + 1;
        }
        let mut k: usize = 0;
        while k < 12
            invariant
                k <= 12,
                forall|j: int| 0 <= j < 12 ==> self.offset@[j] == 0,
                forall|j: int| 0 <= j < k ==> self.num_bytes@[j] == 0,
            decreases 12 - k,
        {
            if self.num_bytes[k] != 0 {
                assert(self.bytes()[12 + k] != 0);
                return false;
            }
            k = k + 1;
        }
        proof {
            assert forall|i: int| 0 <= i < 24 implies #[trigger] self.bytes()[i] == 0 by {
                if i < 12 {
                    assert(self.bytes()[i] == self.offset@[i]);
                } else {
                    assert(self.bytes()[i] == self.num_bytes@[i - 12]);
                }
            }
        }
        true
    }

    /// The entry as an instruction, when both fields are octal numbers.
    pub fn convert_to_sparse_instruction(&self) -> (r: Result<SparseFileInstruction, ParseOctalError>)
        ensures
            r matches Ok(i) ==> octal_value(self.offset@) == Ok::<nat, IntErrorKind>(
                i.offset_before as nat,
            ) && octal_value(self.num_bytes@) == Ok::<nat, IntErrorKind>(i.data_size as nat)
                && valid_utf8(until_nul(self.offset@)) && valid_utf8(until_nul(self.num_bytes@)),
            r is Err ==> !(valid_utf8(until_nul(self.offset@)) && octal_value(self.offset@) is Ok
                && valid_utf8(until_nul(self.num_bytes@)) && octal_value(self.num_bytes@) is Ok),
    {
        let offset_before = match self.parse_offset() {
            Ok(v) => v,
            Err(e) => {
                return Err(e);
            },
        };
        let data_size = match self.parse_num_bytes() {
            Ok(v) => v,
            Err(e) => {
                return Err(e);
            },
        };
        Ok(SparseFileInstruction { offset_before, data_size })
    }
}

/// Reads the sparse map entries stored one after the other in `bytes`.
fn sparse_entries(bytes: &[u8], count: usize) -> (r: Vec<GnuSparseInstruction>)
    requires
        bytes@.len() == 24 * count,
    ensures
        r@.len() == count,
        forall|i: int| 0 <= i < count ==> #[trigger] r@[i].bytes() == bytes@.subrange(24 * i, 24 * i + 24),
{
    let _len = bytes.len();
    let mut entries: Vec<GnuSparseInstruction> = Vec::new();
    let mut i: usize = 0;
    while i < count
        invariant
            bytes@.len() == 24 * count,
            _len == bytes@.len(),
            i <= count,
            entries@.len() == i,
            forall|j: int| 0 <= j < i ==> #[trigger] entries@[j].bytes() == bytes@.subrange(24 * j, 24 * j + 24),
        decreases count - i,
    {
        proof {
            assert(24 * i + 24 <= 24 * count) by (nonlinear_arith)
                requires
                    i < count,
            ;
        }
        let start = 24 * i;
        let entry = GnuSparseInstruction::from_bytes(&bytes[start..start + 24]);
        match entry {
            Some(e) => {
                entries.push(e);
            },
            None => {},
        }
        i = i + 1;
    }
    entries
}

/// Fields contained in the padding of the [`CommonHeaderAdditions`] of a GNU header.
pub struct GnuHeaderAdditions {
    /// Access time in octal ASCII, null-terminated
    pub atime: [u8; 12],
    /// Creation time in octal ASCII, null-terminated
    pub ctime: [u8; 12],
    /// Offset of the start of this volume in octal ASCII, null-terminated.
    /// Used only for multi-volume tar archives
    pub offset: [u8; 12],
    /// Offset to long name data, or 0 if not used
    pub longnames: [u8; 4],
    /// Reserved byte; always set to zero
    pub unused: [u8; 1],
    /// Up to 4 sparse file entries
    pub sparse: Vec<GnuSparseInstruction>,
    /// Non-zero when more sparse entries follow in extended headers
    pub is_extended: [u8; 1],
    /// Actual size of the file before compression, in octal ASCII
    pub real_size: [u8; 12],
    /// Unused padding bytes
    pub padding: [u8; 17],
}

impl GnuHeaderAdditions {
    /// The fields of the 167 bytes after the common fields of a GNU header, or `None` for
    /// another length.
    pub fn from_bytes(bytes: &[u8]) -> (r: Option<Self>)
        ensures
            r is Some <==> bytes@.len() == 167,
            r matches Some(h) ==> {
                &&& h.atime@ == bytes@.subrange(0, 12)
                &&& h.ctime@ == bytes@.subrange(12, 24)
                &&& h.offset@ == bytes@.subrange(24, 36)
                &&& h.longnames@ == bytes@.subrange(36, 40)
                &&& h.sparse@.len() == 4
                &&& forall|i: int| 0 <= i < 4 ==> #[trigger] h.sparse@[i].bytes() == bytes@.subrange(41 + 24 * i, 65 + 24 * i)
                &&& h.is_extended@ == bytes@.subrange(137, 138)
                &&& h.real_size@ == bytes@.subrange(138, 150)
            },
    {
        if bytes.len() != 167 {
            return None;
        }
        let sparse = sparse_entries(&bytes[41..137], 4);
        proof {
            assert forall|i: int| 0 <= i < 4 implies #[trigger] sparse@[i].bytes() == bytes@.subrange(41 + 24 * i, 65 + 24 * i) by {
                assert(bytes@.subrange(41, 137).subrange(24 * i, 24 * i + 24) =~= bytes@.subrange(41 + 24 * i, 65 + 24 * i));
            }
        }
        Some(GnuHeaderAdditions {
            atime: array_from_slice(&bytes[0..12]),
            ctime: array_from_slice(&bytes[12..24]),
            offset: array_from_slice(&bytes[24..36]),
            longnames: array_from_slice(&bytes[36..40]),
            unused: array_from_slice(&bytes[40..41]),
            sparse,
            is_extended: array_from_slice(&bytes[137..138]),
            real_size: array_from_slice(&bytes[138..150]),
            padding: array_from_slice(&bytes[150..167]),
        })
    }

    pub fn parse_atime(&self) -> (r: Result<TimeStamp, ParseOctalError>)
        ensures
            octal_field_time(self.atime@, r),
    {
        octal_time(&self.atime)
    }

    pub fn parse_ctime(&self) -> (r: Result<TimeStamp, ParseOctalError>)
        ensures
            octal_field_time(self.ctime@, r),
    {
        octal_time(&self.ctime)
    }

    pub fn parse_offset(&self) -> (r: Result<u64, ParseOctalError>)
        ensures
            octal_field_u64(self.offset@, r),
    {
        parse_octal(&self.offset)
    }

    pub fn parse_longnames(&self) -> (r: Result<u32, ParseOctalError>)
        ensures
            octal_field_u32(self.longnames@, r),
    {
        octal_u32(&self.longnames)
    }

    pub fn parse_is_extended(&self) -> (r: bool)
        ensures
            r == (self.is_extended@[0] != 0),
    {
        self.is_extended[0] != 0
    }

    pub fn parse_real_size(&self) -> (r: Result<u64, ParseOctalError>)
        ensures
            octal_field_u64(self.real_size@, r),
    {
        parse_octal(&self.real_size)
    }
}

/// A block of sparse map entries that extends an old GNU sparse header.
pub struct GnuHeaderExtSparse {
    pub sparse: Vec<GnuSparseInstruction>,
    pub is_extended: [u8; 1],
    pub padding: [u8; 7],
}

impl GnuHeaderExtSparse {
    /// The fields of a 512-byte extension block, or `None` for another length.
    pub fn from_bytes(bytes: &[u8]) -> (r: Option<Self>)
        ensures
            r is Some <==> bytes@.len() == 512,
            r matches Some(h) ==> {
                &&& h.sparse@.len() == 21
                &&& forall|i: int| 0 <= i < 21 ==> #[trigger] h.sparse@[i].bytes() == bytes@.subrange(24 * i, 24 * i + 24)
                &&& h.is_extended@ == bytes@.subrange(504, 505)
            },
    {
        if bytes.len() != 512 {
            return None;
        }
        let sparse = sparse_entries(&bytes[0..504], 21);
        proof {
            assert forall|i: int| 0 <= i < 21 implies #[trigger] sparse@[i].bytes() == bytes@.subrange(24 * i, 24 * i + 24) by {
                assert(bytes@.subrange(0, 504).subrange(24 * i, 24 * i + 24) =~= bytes@.subrange(24 * i, 24 * i + 24));
            }
        }
        Some(GnuHeaderExtSparse {
            sparse,
            is_extended: array_from_slice(&bytes[504..505]),
            padding: array_from_slice(&bytes[505..512]),
        })
    }

    pub fn parse_is_extended(&self) -> (r: bool)
        ensures
            r == (self.is_extended@[0] != 0),
    {
        self.is_extended[0] != 0
    }
}

} // verus!
