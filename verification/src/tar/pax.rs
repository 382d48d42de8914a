//! The parser of PAX extended headers: records of the form `"%d %s=%s\n"` (length, keyword,
//! value), global ones for all entries that follow and local ones for the next entry.
use vstd::prelude::*;
use vstd::utf8::{decode_utf8, encode_utf8, valid_utf8};

use crate::buffers::LimitedBackingBufferError;
use crate::tar::confident::{ConfidentValue, PaxConfidence, PaxConfidentValue, TarConfidence};
use crate::tar::errors::{
    corrupt_field_to_tar_err, limit_exceeded_to_tar_err, CorruptFieldContext, ErrorSeverity,
    GeneralParseError, LimitExceededContext, PaxParserError, TarParserError, TarParserErrorKind,
};
use crate::tar::inode::{SparseFileInstruction, TimeStamp};
use crate::tar::limited::LimitedVec;
use crate::tar::maps::{LimitedHashMap, StringMap};
use crate::io::is_subsequence;
use crate::tar::parser::InodeBuilder;
use crate::tar::sparse_format::SparseFormat;
use crate::tar::text::{
    parse_u32, parse_u64, parse_uint_spec, parse_usize, str_from_utf8, IntErrorKind, ParseIntError,
};
use crate::tar::violations::{violation, TarViolationHandler, VHW};

verus! {

broadcast use vstd::utf8::group_utf8_lib;

/// The most decimal digits of a record length: those of the largest 64-bit number.
pub const MAX_KV_LENGTH_FIELD_LENGTH: usize = 20;

/// Overrides the `name` field of the header (sparse formats 0.0, 0.1, 1.0).
pub const GNU_SPARSE_NAME_01_01: &'static str = "GNU.sparse.name";
/// Overrides the real size of the file (sparse format 1.0).
pub const GNU_SPARSE_REALSIZE_1_0: &'static str = "GNU.sparse.realsize";
/// The major version of the sparse format.
pub const GNU_SPARSE_MAJOR: &'static str = "GNU.sparse.major";
/// The minor version of the sparse format.
pub const GNU_SPARSE_MINOR: &'static str = "GNU.sparse.minor";
/// Overrides the real size of the file (sparse formats 0.0, 0.1).
pub const GNU_SPARSE_REALSIZE_0_01: &'static str = "GNU.sparse.size";
/// Number of blocks in the sparse map (sparse formats 0.0, 0.1).
pub const GNU_SPARSE_MAP_NUM_BLOCKS_0_01: &'static str = "GNU.sparse.numblocks";
/// Offset of a data block (sparse format 0.0).
pub const GNU_SPARSE_DATA_BLOCK_OFFSET_0_0: &'static str = "GNU.sparse.offset";
/// Size of a data block (sparse format 0.0).
pub const GNU_SPARSE_DATA_BLOCK_SIZE_0_0: &'static str = "GNU.sparse.numbytes";
/// The sparse map as comma-separated decimal values `offset,size[,offset,size,...]` (0.1).
pub const GNU_SPARSE_MAP_0_1: &'static str = "GNU.sparse.map";
pub const ATIME: &'static str = "atime";
pub const CTIME: &'static str = "ctime";
pub const GID: &'static str = "gid";
pub const GNAME: &'static str = "gname";
pub const LINKPATH: &'static str = "linkpath";
pub const MTIME: &'static str = "mtime";
pub const PATH: &'static str = "path";
pub const SIZE: &'static str = "size";
pub const UID: &'static str = "uid";
pub const UNAME: &'static str = "uname";

/// Whether the characters of `s` are those of `literal`.
fn str_is(s: &str, literal: &str) -> (r: bool)
    ensures
        r == (s@ == literal@),
{
    let a = s.as_bytes();
    let b = literal.as_bytes();
    let eq = crate::tar::text::bytes_equal(a, b);
    proof {
        if eq {
            assert(decode_utf8(encode_utf8(s@)) == s@);
            assert(decode_utf8(encode_utf8(literal@)) == literal@);
        }
    }
    eq
}

/// The well-known keywords of PAX records, and all others.
#[derive(Debug, Clone, Copy, PartialEq, Eq, Structural)]
pub enum PaxKey {
    GnuSparseName,
    GnuSparseRealSize1_0,
    GnuSparseMajor,
    GnuSparseMinor,
    GnuSparseRealSize0_01,
    GnuSparseNumBlocks,
    GnuSparseOffset,
    GnuSparseNumBytes,
    GnuSparseMap,
    Atime,
    Gid,
    Gname,
    Linkpath,
    Mtime,
    Ctime,
    Path,
    Size,
    Uid,
    Uname,
    Other,
}

/// The kind of a keyword.
pub open spec fn pax_key(k: Seq<char>) -> PaxKey {
    if k == GNU_SPARSE_NAME_01_01@ {
        PaxKey::GnuSparseName
    } else if k == GNU_SPARSE_REALSIZE_1_0@ {
        PaxKey::GnuSparseRealSize1_0
    } else if k == GNU_SPARSE_MAJOR@ {
        PaxKey::GnuSparseMajor
    } else if k == GNU_SPARSE_MINOR@ {
        PaxKey::GnuSparseMinor
    } else if k == GNU_SPARSE_REALSIZE_0_01@ {
        PaxKey::GnuSparseRealSize0_01
    } else if k == GNU_SPARSE_MAP_NUM_BLOCKS_0_01@ {
        PaxKey::GnuSparseNumBlocks
    } else if k == GNU_SPARSE_DATA_BLOCK_OFFSET_0_0@ {
        PaxKey::GnuSparseOffset
    } else if k == GNU_SPARSE_DATA_BLOCK_SIZE_0_0@ {
        PaxKey::GnuSparseNumBytes
    } else if k == GNU_SPARSE_MAP_0_1@ {
        PaxKey::GnuSparseMap
    } else if k == ATIME@ {
        PaxKey::Atime
    } else if k == GID@ {
        PaxKey::Gid
    } else if k == GNAME@ {
        PaxKey::Gname
    } else if k == LINKPATH@ {
        PaxKey::Linkpath
    } else if k == MTIME@ {
        PaxKey::Mtime
    } else if k == CTIME@ {
        PaxKey::Ctime
    } else if k == PATH@ {
        PaxKey::Path
    } else if k == SIZE@ {
        PaxKey::Size
    } else if k == UID@ {
        PaxKey::Uid
    } else if k == UNAME@ {
        PaxKey::Uname
    } else {
        PaxKey::Other
    }
}

/// The keyword of a PAX record that sets each well-known attribute; none names `Other`.
pub open spec fn pax_keyword(key: PaxKey) -> Seq<char> {
    match key {
        PaxKey::GnuSparseName => "GNU.sparse.name"@,
        PaxKey::GnuSparseRealSize1_0 => "GNU.sparse.realsize"@,
        PaxKey::GnuSparseMajor => "GNU.sparse.major"@,
        PaxKey::GnuSparseMinor => "GNU.sparse.minor"@,
        PaxKey::GnuSparseRealSize0_01 => "GNU.sparse.size"@,
        PaxKey::GnuSparseNumBlocks => "GNU.sparse.numblocks"@,
        PaxKey::GnuSparseOffset => "GNU.sparse.offset"@,
        PaxKey::GnuSparseNumBytes => "GNU.sparse.numbytes"@,
        PaxKey::GnuSparseMap => "GNU.sparse.map"@,
        PaxKey::Atime => "atime"@,
        PaxKey::Gid => "gid"@,
        PaxKey::Gname => "gname"@,
        PaxKey::Linkpath => "linkpath"@,
        PaxKey::Mtime => "mtime"@,
        PaxKey::Ctime => "ctime"@,
        PaxKey::Path => "path"@,
        PaxKey::Size => "size"@,
        PaxKey::Uid => "uid"@,
        PaxKey::Uname => "uname"@,
        PaxKey::Other => Seq::empty(),
    }
}

/// Each well-known keyword is read as the attribute it names: the keyword of an attribute is
/// classified as that attribute.
pub proof fn law_keywords_name_their_keys()
    ensures
        forall|key: PaxKey| key != PaxKey::Other ==> pax_key(#[trigger] pax_keyword(key)) == key,
{
    assert forall|key: PaxKey| key != PaxKey::Other implies pax_key(#[trigger] pax_keyword(key)) == key by {
        lemma_keyword_names_its_key(key);
    }
}

/// The keyword of one well-known attribute is classified as that attribute.
proof fn lemma_keyword_names_its_key(key: PaxKey)
    requires
        key != PaxKey::Other,
    ensures
        pax_key(pax_keyword(key)) == key,
{
    match key {
        PaxKey::GnuSparseName => {
            reveal_strlit("GNU.sparse.name");
        },
        PaxKey::GnuSparseRealSize1_0 => {
            reveal_strlit("GNU.sparse.realsize");
            reveal_strlit("GNU.sparse.name");
            assert("GNU.sparse.name"@.len() == 15 && "GNU.sparse.realsize"@.len() == 19);
            assert("GNU.sparse.name"@ != "GNU.sparse.realsize"@);
        },
        PaxKey::GnuSparseMajor => {
            reveal_strlit("GNU.sparse.major");
            reveal_strlit("GNU.sparse.name");
            assert("GNU.sparse.name"@.len() == 15 && "GNU.sparse.major"@.len() == 16);
            assert("GNU.sparse.name"@ != "GNU.sparse.major"@);
            reveal_strlit("GNU.sparse.realsize");
            assert("GNU.sparse.realsize"@.len() == 19 && "GNU.sparse.major"@.len() == 16);
            assert("GNU.sparse.realsize"@ != "GNU.sparse.major"@);
        },
        PaxKey::GnuSparseMinor => {
            reveal_strlit("GNU.sparse.minor");
            reveal_strlit("GNU.sparse.name");
            assert("GNU.sparse.name"@.len() == 15 && "GNU.sparse.minor"@.len() == 16);
            assert("GNU.sparse.name"@ != "GNU.sparse.minor"@);
            reveal_strlit("GNU.sparse.realsize");
            assert("GNU.sparse.realsize"@.len() == 19 && "GNU.sparse.minor"@.len() == 16);
            assert("GNU.sparse.realsize"@ != "GNU.sparse.minor"@);
            reveal_strlit("GNU.sparse.major");
            assert("GNU.sparse.major"@[12] != "GNU.sparse.minor"@[12]);
            assert("GNU.sparse.major"@ != "GNU.sparse.minor"@);
        },
        PaxKey::GnuSparseRealSize0_01 => {
            reveal_strlit("GNU.sparse.size");
            reveal_strlit("GNU.sparse.name");
            assert("GNU.sparse.name"@[11] != "GNU.sparse.size"@[11]);
            assert("GNU.sparse.name"@ != "GNU.sparse.size"@);
            reveal_strlit("GNU.sparse.realsize");
            assert("GNU.sparse.realsize"@.len() == 19 && "GNU.sparse.size"@.len() == 15);
            assert("GNU.sparse.realsize"@ != "GNU.sparse.size"@);
            reveal_strlit("GNU.sparse.major");
            assert("GNU.sparse.major"@.len() == 16 && "GNU.sparse.size"@.len() == 15);
            assert("GNU.sparse.major"@ != "GNU.sparse.size"@);
            reveal_strlit("GNU.sparse.minor");
            assert("GNU.sparse.minor"@.len() == 16 && "GNU.sparse.size"@.len() == 15);
            assert("GNU.sparse.minor"@ != "GNU.sparse.size"@);
        },
        PaxKey::GnuSparseNumBlocks => {
            reveal_strlit("GNU.sparse.numblocks");
            reveal_strlit("GNU.sparse.name");
            assert("GNU.sparse.name"@.len() == 15 && "GNU.sparse.numblocks"@.len() == 20);
            assert("GNU.sparse.name"@ != "GNU.sparse.numblocks"@);
            reveal_strlit("GNU.sparse.realsize");
            assert("GNU.sparse.realsize"@.len() == 19 && "GNU.sparse.numblocks"@.len() == 20);
            assert("GNU.sparse.realsize"@ != "GNU.sparse.numblocks"@);
            reveal_strlit("GNU.sparse.major");
            assert("GNU.sparse.major"@.len() == 16 && "GNU.sparse.numblocks"@.len() == 20);
            assert("GNU.sparse.major"@ != "GNU.sparse.numblocks"@);
            reveal_strlit("GNU.sparse.minor");
            assert("GNU.sparse.minor"@.len() == 16 && "GNU.sparse.numblocks"@.len() == 20);
            assert("GNU.sparse.minor"@ != "GNU.sparse.numblocks"@);
            reveal_strlit("GNU.sparse.size");
            assert("GNU.sparse.size"@.len() == 15 && "GNU.sparse.numblocks"@.len() == 20);
            assert("GNU.sparse.size"@ != "GNU.sparse.numblocks"@);
        },
        PaxKey::GnuSparseOffset => {
            reveal_strlit("GNU.sparse.offset");
            reveal_strlit("GNU.sparse.name");
            assert("GNU.sparse.name"@.len() == 15 && "GNU.sparse.offset"@.len() == 17);
            assert("GNU.sparse.name"@ != "GNU.sparse.offset"@);
            reveal_strlit("GNU.sparse.realsize");
            assert("GNU.sparse.realsize"@.len() == 19 && "GNU.sparse.offset"@.len() == 17);
            assert("GNU.sparse.realsize"@ != "GNU.sparse.offset"@);
            reveal_strlit("GNU.sparse.major");
            assert("GNU.sparse.major"@.len() == 16 && "GNU.sparse.offset"@.len() == 17);
            assert("GNU.sparse.major"@ != "GNU.sparse.offset"@);
            reveal_strlit("GNU.sparse.minor");
            assert("GNU.sparse.minor"@.len() == 16 && "GNU.sparse.offset"@.len() == 17);
            assert("GNU.sparse.minor"@ != "GNU.sparse.offset"@);
            reveal_strlit("GNU.sparse.size");
            assert("GNU.sparse.size"@.len() == 15 && "GNU.sparse.offset"@.len() == 17);
            assert("GNU.sparse.size"@ != "GNU.sparse.offset"@);
            reveal_strlit("GNU.sparse.numblocks");
            assert("GNU.sparse.numblocks"@.len() == 20 && "GNU.sparse.offset"@.len() == 17);
            assert("GNU.sparse.numblocks"@ != "GNU.sparse.offset"@);
        },
        PaxKey::GnuSparseNumBytes => {
            reveal_strlit("GNU.sparse.numbytes");
            reveal_strlit("GNU.sparse.name");
            assert("GNU.sparse.name"@.len() == 15 && "GNU.sparse.numbytes"@.len() == 19);
            assert("GNU.sparse.name"@ != "GNU.sparse.numbytes"@);
            reveal_strlit("GNU.sparse.realsize");
            assert("GNU.sparse.realsize"@[11] != "GNU.sparse.numbytes"@[11]);
            assert("GNU.sparse.realsize"@ != "GNU.sparse.numbytes"@);
            reveal_strlit("GNU.sparse.major");
            assert("GNU.sparse.major"@.len() == 16 && "GNU.sparse.numbytes"@.len() == 19);
            assert("GNU.sparse.major"@ != "GNU.sparse.numbytes"@);
            reveal_strlit("GNU.sparse.minor");
            assert("GNU.sparse.minor"@.len() == 16 && "GNU.sparse.numbytes"@.len() == 19);
            assert("GNU.sparse.minor"@ != "GNU.sparse.numbytes"@);
            reveal_strlit("GNU.sparse.size");
            assert("GNU.sparse.size"@.len() == 15 && "GNU.sparse.numbytes"@.len() == 19);
            assert("GNU.sparse.size"@ != "GNU.sparse.numbytes"@);
            reveal_strlit("GNU.sparse.numblocks");
            assert("GNU.sparse.numblocks"@.len() == 20 && "GNU.sparse.numbytes"@.len() == 19);
            assert("GNU.sparse.numblocks"@ != "GNU.sparse.numbytes"@);
            reveal_strlit("GNU.sparse.offset");
            assert("GNU.sparse.offset"@.len() == 17 && "GNU.sparse.numbytes"@.len() == 19);
            assert("GNU.sparse.offset"@ != "GNU.sparse.numbytes"@);
        },
        PaxKey::GnuSparseMap => {
            reveal_strlit("GNU.sparse.map");
            reveal_strlit("GNU.sparse.name");
            assert("GNU.sparse.name"@.len() == 15 && "GNU.sparse.map"@.len() == 14);
            assert("GNU.sparse.name"@ != "GNU.sparse.map"@);
            reveal_strlit("GNU.sparse.realsize");
            assert("GNU.sparse.realsize"@.len() == 19 && "GNU.sparse.map"@.len() == 14);
            assert("GNU.sparse.realsize"@ != "GNU.sparse.map"@);
            reveal_strlit("GNU.sparse.major");
            assert("GNU.sparse.major"@.len() == 16 && "GNU.sparse.map"@.len() == 14);
            assert("GNU.sparse.major"@ != "GNU.sparse.map"@);
            reveal_strlit("GNU.sparse.minor");
            assert("GNU.sparse.minor"@.len() == 16 && "GNU.sparse.map"@.len() == 14);
            assert("GNU.sparse.minor"@ != "GNU.sparse.map"@);
            reveal_strlit("GNU.sparse.size");
            assert("GNU.sparse.size"@.len() == 15 && "GNU.sparse.map"@.len() == 14);
            assert("GNU.sparse.size"@ != "GNU.sparse.map"@);
            reveal_strlit("GNU.sparse.numblocks");
            assert("GNU.sparse.numblocks"@.len() == 20 && "GNU.sparse.map"@.len() == 14);
            assert("GNU.sparse.numblocks"@ != "GNU.sparse.map"@);
            reveal_strlit("GNU.sparse.offset");
            assert("GNU.sparse.offset"@.len() == 17 && "GNU.sparse.map"@.len() == 14);
            assert("GNU.sparse.offset"@ != "GNU.sparse.map"@);
            reveal_strlit("GNU.sparse.numbytes");
            assert("GNU.sparse.numbytes"@.len() == 19 && "GNU.sparse.map"@.len() == 14);
            assert("GNU.sparse.numbytes"@ != "GNU.sparse.map"@);
        },
        PaxKey::Atime => {
            reveal_strlit("atime");
            reveal_strlit("GNU.sparse.name");
            assert("GNU.sparse.name"@.len() == 15 && "atime"@.len() == 5);
            assert("GNU.sparse.name"@ != "atime"@);
            reveal_strlit("GNU.sparse.realsize");
            assert("GNU.sparse.realsize"@.len() == 19 && "atime"@.len() == 5);
            assert("GNU.sparse.realsize"@ != "atime"@);
            reveal_strlit("GNU.sparse.major");
            assert("GNU.sparse.major"@.len() == 16 && "atime"@.len() == 5);
            assert("GNU.sparse.major"@ != "atime"@);
            reveal_strlit("GNU.sparse.minor");
            assert("GNU.sparse.minor"@.len() == 16 && "atime"@.len() == 5);
            assert("GNU.sparse.minor"@ != "atime"@);
            reveal_strlit("GNU.sparse.size");
            assert("GNU.sparse.size"@.len() == 15 && "atime"@.len() == 5);
            assert("GNU.sparse.size"@ != "atime"@);
            reveal_strlit("GNU.sparse.numblocks");
            assert("GNU.sparse.numblocks"@.len() == 20 && "atime"@.len() == 5);
            assert("GNU.sparse.numblocks"@ != "atime"@);
            reveal_strlit("GNU.sparse.offset");
            assert("GNU.sparse.offset"@.len() == 17 && "atime"@.len() == 5);
            assert("GNU.sparse.offset"@ != "atime"@);
            reveal_strlit("GNU.sparse.numbytes");
            assert("GNU.sparse.numbytes"@.len() == 19 && "atime"@.len() == 5);
            assert("GNU.sparse.numbytes"@ != "atime"@);
            reveal_strlit("GNU.sparse.map");
            assert("GNU.sparse.map"@.len() == 14 && "atime"@.len() == 5);
            assert("GNU.sparse.map"@ != "atime"@);
        },
        PaxKey::Gid => {
            reveal_strlit("gid");
            reveal_strlit("GNU.sparse.name");
            assert("GNU.sparse.name"@.len() == 15 && "gid"@.len() == 3);
            assert("GNU.sparse.name"@ != "gid"@);
            reveal_strlit("GNU.sparse.realsize");
            assert("GNU.sparse.realsize"@.len() == 19 && "gid"@.len() == 3);
            assert("GNU.sparse.realsize"@ != "gid"@);
            reveal_strlit("GNU.sparse.major");
            assert("GNU.sparse.major"@.len() == 16 && "gid"@.len() == 3);
            assert("GNU.sparse.major"@ != "gid"@);
            reveal_strlit("GNU.sparse.minor");
            assert("GNU.sparse.minor"@.len() == 16 && "gid"@.len() == 3);
            assert("GNU.sparse.minor"@ != "gid"@);
            reveal_strlit("GNU.sparse.size");
            assert("GNU.sparse.size"@.len() == 15 && "gid"@.len() == 3);
            assert("GNU.sparse.size"@ != "gid"@);
            reveal_strlit("GNU.sparse.numblocks");
            assert("GNU.sparse.numblocks"@.len() == 20 && "gid"@.len() == 3);
            assert("GNU.sparse.numblocks"@ != "gid"@);
            reveal_strlit("GNU.sparse.offset");
            assert("GNU.sparse.offset"@.len() == 17 && "gid"@.len() == 3);
            assert("GNU.sparse.offset"@ != "gid"@);
            reveal_strlit("GNU.sparse.numbytes");
            assert("GNU.sparse.numbytes"@.len() == 19 && "gid"@.len() == 3);
            assert("GNU.sparse.numbytes"@ != "gid"@);
            reveal_strlit("GNU.sparse.map");
            assert("GNU.sparse.map"@.len() == 14 && "gid"@.len() == 3);
            assert("GNU.sparse.map"@ != "gid"@);
            reveal_strlit("atime");
            assert("atime"@.len() == 5 && "gid"@.len() == 3);
            assert("atime"@ != "gid"@);
        },
        PaxKey::Gname => {
            reveal_strlit("gname");
            reveal_strlit("GNU.sparse.name");
            assert("GNU.sparse.name"@.len() == 15 && "gname"@.len() == 5);
            assert("GNU.sparse.name"@ != "gname"@);
            reveal_strlit("GNU.sparse.realsize");
            assert("GNU.sparse.realsize"@.len() == 19 && "gname"@.len() == 5);
            assert("GNU.sparse.realsize"@ != "gname"@);
            reveal_strlit("GNU.sparse.major");
            assert("GNU.sparse.major"@.len() == 16 && "gname"@.len() == 5);
            assert("GNU.sparse.major"@ != "gname"@);
            reveal_strlit("GNU.sparse.minor");
            assert("GNU.sparse.minor"@.len() == 16 && "gname"@.len() == 5);
            assert("GNU.sparse.minor"@ != "gname"@);
            reveal_strlit("GNU.sparse.size");
            assert("GNU.sparse.size"@.len() == 15 && "gname"@.len() == 5);
            assert("GNU.sparse.size"@ != "gname"@);
            reveal_strlit("GNU.sparse.numblocks");
            assert("GNU.sparse.numblocks"@.len() == 20 && "gname"@.len() == 5);
            assert("GNU.sparse.numblocks"@ != "gname"@);
            reveal_strlit("GNU.sparse.offset");
            assert("GNU.sparse.offset"@.len() == 17 && "gname"@.len() == 5);
            assert("GNU.sparse.offset"@ != "gname"@);
            reveal_strlit("GNU.sparse.numbytes");
            assert("GNU.sparse.numbytes"@.len() == 19 && "gname"@.len() == 5);
            assert("GNU.sparse.numbytes"@ != "gname"@);
            reveal_strlit("GNU.sparse.map");
            assert("GNU.sparse.map"@.len() == 14 && "gname"@.len() == 5);
            assert("GNU.sparse.map"@ != "gname"@);
            reveal_strlit("atime");
            assert("atime"@[0] != "gname"@[0]);
            assert("atime"@ != "gname"@);
            reveal_strlit("gid");
            assert("gid"@.len() == 3 && "gname"@.len() == 5);
            assert("gid"@ != "gname"@);
        },
        PaxKey::Linkpath => {
            reveal_strlit("linkpath");
            reveal_strlit("GNU.sparse.name");
            assert("GNU.sparse.name"@.len() == 15 && "linkpath"@.len() == 8);
            assert("GNU.sparse.name"@ != "linkpath"@);
            reveal_strlit("GNU.sparse.realsize");
            assert("GNU.sparse.realsize"@.len() == 19 && "linkpath"@.len() == 8);
            assert("GNU.sparse.realsize"@ != "linkpath"@);
            reveal_strlit("GNU.sparse.major");
            assert("GNU.sparse.major"@.len() == 16 && "linkpath"@.len() == 8);
            assert("GNU.sparse.major"@ != "linkpath"@);
            reveal_strlit("GNU.sparse.minor");
            assert("GNU.sparse.minor"@.len() == 16 && "linkpath"@.len() == 8);
            assert("GNU.sparse.minor"@ != "linkpath"@);
            reveal_strlit("GNU.sparse.size");
            assert("GNU.sparse.size"@.len() == 15 && "linkpath"@.len() == 8);
            assert("GNU.sparse.size"@ != "linkpath"@);
            reveal_strlit("GNU.sparse.numblocks");
            assert("GNU.sparse.numblocks"@.len() == 20 && "linkpath"@.len() == 8);
            assert("GNU.sparse.numblocks"@ != "linkpath"@);
            reveal_strlit("GNU.sparse.offset");
            assert("GNU.sparse.offset"@.len() == 17 && "linkpath"@.len() == 8);
            assert("GNU.sparse.offset"@ != "linkpath"@);
            reveal_strlit("GNU.sparse.numbytes");
            assert("GNU.sparse.numbytes"@.len() == 19 && "linkpath"@.len() == 8);
            assert("GNU.sparse.numbytes"@ != "linkpath"@);
            reveal_strlit("GNU.sparse.map");
            assert("GNU.sparse.map"@.len() == 14 && "linkpath"@.len() == 8);
            assert("GNU.sparse.map"@ != "linkpath"@);
            reveal_strlit("atime");
            assert("atime"@.len() == 5 && "linkpath"@.len() == 8);
            assert("atime"@ != "linkpath"@);
            reveal_strlit("gid");
            assert("gid"@.len() == 3 && "linkpath"@.len() == 8);
            assert("gid"@ != "linkpath"@);
            reveal_strlit("gname");
            assert("gname"@.len() == 5 && "linkpath"@.len() == 8);
            assert("gname"@ != "linkpath"@);
        },
        PaxKey::Mtime => {
            reveal_strlit("mtime");
            reveal_strlit("GNU.sparse.name");
            assert("GNU.sparse.name"@.len() == 15 && "mtime"@.len() == 5);
            assert("GNU.sparse.name"@ != "mtime"@);
            reveal_strlit("GNU.sparse.realsize");
            assert("GNU.sparse.realsize"@.len() == 19 && "mtime"@.len() == 5);
            assert("GNU.sparse.realsize"@ != "mtime"@);
            reveal_strlit("GNU.sparse.major");
            assert("GNU.sparse.major"@.len() == 16 && "mtime"@.len() == 5);
            assert("GNU.sparse.major"@ != "mtime"@);
            reveal_strlit("GNU.sparse.minor");
            assert("GNU.sparse.minor"@.len() == 16 && "mtime"@.len() == 5);
            assert("GNU.sparse.minor"@ != "mtime"@);
            reveal_strlit("GNU.sparse.size");
            assert("GNU.sparse.size"@.len() == 15 && "mtime"@.len() == 5);
            assert("GNU.sparse.size"@ != "mtime"@);
            reveal_strlit("GNU.sparse.numblocks");
            assert("GNU.sparse.numblocks"@.len() == 20 && "mtime"@.len() == 5);
            assert("GNU.sparse.numblocks"@ != "mtime"@);
            reveal_strlit("GNU.sparse.offset");
            assert("GNU.sparse.offset"@.len() == 17 && "mtime"@.len() == 5);
            assert("GNU.sparse.offset"@ != "mtime"@);
            reveal_strlit("GNU.sparse.numbytes");
            assert("GNU.sparse.numbytes"@.len() == 19 && "mtime"@.len() == 5);
            assert("GNU.sparse.numbytes"@ != "mtime"@);
            reveal_strlit("GNU.sparse.map");
            assert("GNU.sparse.map"@.len() == 14 && "mtime"@.len() == 5);
            assert("GNU.sparse.map"@ != "mtime"@);
            reveal_strlit("atime");
            assert("atime"@[0] != "mtime"@[0]);
            assert("atime"@ != "mtime"@);
            reveal_strlit("gid");
            assert("gid"@.len() == 3 && "mtime"@.len() == 5);
            assert("gid"@ != "mtime"@);
            reveal_strlit("gname");
            assert("gname"@[0] != "mtime"@[0]);
            assert("gname"@ != "mtime"@);
            reveal_strlit("linkpath");
            assert("linkpath"@.len() == 8 && "mtime"@.len() == 5);
            assert("linkpath"@ != "mtime"@);
        },
        PaxKey::Ctime => {
            reveal_strlit("ctime");
            reveal_strlit("GNU.sparse.name");
            assert("GNU.sparse.name"@.len() == 15 && "ctime"@.len() == 5);
            assert("GNU.sparse.name"@ != "ctime"@);
            reveal_strlit("GNU.sparse.realsize");
            assert("GNU.sparse.realsize"@.len() == 19 && "ctime"@.len() == 5);
            assert("GNU.sparse.realsize"@ != "ctime"@);
            reveal_strlit("GNU.sparse.major");
            assert("GNU.sparse.major"@.len() == 16 && "ctime"@.len() == 5);
            assert("GNU.sparse.major"@ != "ctime"@);
            reveal_strlit("GNU.sparse.minor");
            assert("GNU.sparse.minor"@.len() == 16 && "ctime"@.len() == 5);
            assert("GNU.sparse.minor"@ != "ctime"@);
            reveal_strlit("GNU.sparse.size");
            assert("GNU.sparse.size"@.len() == 15 && "ctime"@.len() == 5);
            assert("GNU.sparse.size"@ != "ctime"@);
            reveal_strlit("GNU.sparse.numblocks");
            assert("GNU.sparse.numblocks"@.len() == 20 && "ctime"@.len() == 5);
            assert("GNU.sparse.numblocks"@ != "ctime"@);
            reveal_strlit("GNU.sparse.offset");
            assert("GNU.sparse.offset"@.len() == 17 && "ctime"@.len() == 5);
            assert("GNU.sparse.offset"@ != "ctime"@);
            reveal_strlit("GNU.sparse.numbytes");
            assert("GNU.sparse.numbytes"@.len() == 19 && "ctime"@.len() == 5);
            assert("GNU.sparse.numbytes"@ != "ctime"@);
            reveal_strlit("GNU.sparse.map");
            assert("GNU.sparse.map"@.len() == 14 && "ctime"@.len() == 5);
            assert("GNU.sparse.map"@ != "ctime"@);
            reveal_strlit("atime");
            assert("atime"@[0] != "ctime"@[0]);
            assert("atime"@ != "ctime"@);
            reveal_strlit("gid");
            assert("gid"@.len() == 3 && "ctime"@.len() == 5);
            assert("gid"@ != "ctime"@);
            reveal_strlit("gname");
            assert("gname"@[0] != "ctime"@[0]);
            assert("gname"@ != "ctime"@);
            reveal_strlit("linkpath");
            assert("linkpath"@.len() == 8 && "ctime"@.len() == 5);
            assert("linkpath"@ != "ctime"@);
            reveal_strlit("mtime");
            assert("mtime"@[0] != "ctime"@[0]);
            assert("mtime"@ != "ctime"@);
        },
        PaxKey::Path => {
            reveal_strlit("path");
            reveal_strlit("GNU.sparse.name");
            assert("GNU.sparse.name"@.len() == 15 && "path"@.len() == 4);
            assert("GNU.sparse.name"@ != "path"@);
            reveal_strlit("GNU.sparse.realsize");
            assert("GNU.sparse.realsize"@.len() == 19 && "path"@.len() == 4);
            assert("GNU.sparse.realsize"@ != "path"@);
            reveal_strlit("GNU.sparse.major");
            assert("GNU.sparse.major"@.len() == 16 && "path"@.len() == 4);
            assert("GNU.sparse.major"@ != "path"@);
            reveal_strlit("GNU.sparse.minor");
            assert("GNU.sparse.minor"@.len() == 16 && "path"@.len() == 4);
            assert("GNU.sparse.minor"@ != "path"@);
            reveal_strlit("GNU.sparse.size");
            assert("GNU.sparse.size"@.len() == 15 && "path"@.len() == 4);
            assert("GNU.sparse.size"@ != "path"@);
            reveal_strlit("GNU.sparse.numblocks");
            assert("GNU.sparse.numblocks"@.len() == 20 && "path"@.len() == 4);
            assert("GNU.sparse.numblocks"@ != "path"@);
            reveal_strlit("GNU.sparse.offset");
            assert("GNU.sparse.offset"@.len() == 17 && "path"@.len() == 4);
            assert("GNU.sparse.offset"@ != "path"@);
            reveal_strlit("GNU.sparse.numbytes");
            assert("GNU.sparse.numbytes"@.len() == 19 && "path"@.len() == 4);
            assert("GNU.sparse.numbytes"@ != "path"@);
            reveal_strlit("GNU.sparse.map");
            assert("GNU.sparse.map"@.len() == 14 && "path"@.len() == 4);
            assert("GNU.sparse.map"@ != "path"@);
            reveal_strlit("atime");
            assert("atime"@.len() == 5 && "path"@.len() == 4);
            assert("atime"@ != "path"@);
            reveal_strlit("gid");
            assert("gid"@.len() == 3 && "path"@.len() == 4);
            assert("gid"@ != "path"@);
            reveal_strlit("gname");
            assert("gname"@.len() == 5 && "path"@.len() == 4);
            assert("gname"@ != "path"@);
            reveal_strlit("linkpath");
            assert("linkpath"@.len() == 8 && "path"@.len() == 4);
            assert("linkpath"@ != "path"@);
            reveal_strlit("mtime");
            assert("mtime"@.len() == 5 && "path"@.len() == 4);
            assert("mtime"@ != "path"@);
            reveal_strlit("ctime");
            assert("ctime"@.len() == 5 && "path"@.len() == 4);
            assert("ctime"@ != "path"@);
        },
        PaxKey::Size => {
            reveal_strlit("size");
            reveal_strlit("GNU.sparse.name");
            assert("GNU.sparse.name"@.len() == 15 && "size"@.len() == 4);
            assert("GNU.sparse.name"@ != "size"@);
            reveal_strlit("GNU.sparse.realsize");
            assert("GNU.sparse.realsize"@.len() == 19 && "size"@.len() == 4);
            assert("GNU.sparse.realsize"@ != "size"@);
            reveal_strlit("GNU.sparse.major");
            assert("GNU.sparse.major"@.len() == 16 && "size"@.len() == 4);
            assert("GNU.sparse.major"@ != "size"@);
            reveal_strlit("GNU.sparse.minor");
            assert("GNU.sparse.minor"@.len() == 16 && "size"@.len() == 4);
            assert("GNU.sparse.minor"@ != "size"@);
            reveal_strlit("GNU.sparse.size");
            assert("GNU.sparse.size"@.len() == 15 && "size"@.len() == 4);
            assert("GNU.sparse.size"@ != "size"@);
            reveal_strlit("GNU.sparse.numblocks");
            assert("GNU.sparse.numblocks"@.len() == 20 && "size"@.len() == 4);
            assert("GNU.sparse.numblocks"@ != "size"@);
            reveal_strlit("GNU.sparse.offset");
            assert("GNU.sparse.offset"@.len() == 17 && "size"@.len() == 4);
            assert("GNU.sparse.offset"@ != "size"@);
            reveal_strlit("GNU.sparse.numbytes");
            assert("GNU.sparse.numbytes"@.len() == 19 && "size"@.len() == 4);
            assert("GNU.sparse.numbytes"@ != "size"@);
            reveal_strlit("GNU.sparse.map");
            assert("GNU.sparse.map"@.len() == 14 && "size"@.len() == 4);
            assert("GNU.sparse.map"@ != "size"@);
            reveal_strlit("atime");
            assert("atime"@.len() == 5 && "size"@.len() == 4);
            assert("atime"@ != "size"@);
            reveal_strlit("gid");
            assert("gid"@.len() == 3 && "size"@.len() == 4);
            assert("gid"@ != "size"@);
            reveal_strlit("gname");
            assert("gname"@.len() == 5 && "size"@.len() == 4);
            assert("gname"@ != "size"@);
            reveal_strlit("linkpath");
            assert("linkpath"@.len() == 8 && "size"@.len() == 4);
            assert("linkpath"@ != "size"@);
            reveal_strlit("mtime");
            assert("mtime"@.len() == 5 && "size"@.len() == 4);
            assert("mtime"@ != "size"@);
            reveal_strlit("ctime");
            assert("ctime"@.len() == 5 && "size"@.len() == 4);
            assert("ctime"@ != "size"@);
            reveal_strlit("path");
            assert("path"@[0] != "size"@[0]);
            assert("path"@ != "size"@);
        },
        PaxKey::Uid => {
            reveal_strlit("uid");
            reveal_strlit("GNU.sparse.name");
            assert("GNU.sparse.name"@.len() == 15 && "uid"@.len() == 3);
            assert("GNU.sparse.name"@ != "uid"@);
            reveal_strlit("GNU.sparse.realsize");
            assert("GNU.sparse.realsize"@.len() == 19 && "uid"@.len() == 3);
            assert("GNU.sparse.realsize"@ != "uid"@);
            reveal_strlit("GNU.sparse.major");
            assert("GNU.sparse.major"@.len() == 16 && "uid"@.len() == 3);
            assert("GNU.sparse.major"@ != "uid"@);
            reveal_strlit("GNU.sparse.minor");
            assert("GNU.sparse.minor"@.len() == 16 && "uid"@.len() == 3);
            assert("GNU.sparse.minor"@ != "uid"@);
            reveal_strlit("GNU.sparse.size");
            assert("GNU.sparse.size"@.len() == 15 && "uid"@.len() == 3);
            assert("GNU.sparse.size"@ != "uid"@);
            reveal_strlit("GNU.sparse.numblocks");
            assert("GNU.sparse.numblocks"@.len() == 20 && "uid"@.len() == 3);
            assert("GNU.sparse.numblocks"@ != "uid"@);
            reveal_strlit("GNU.sparse.offset");
            assert("GNU.sparse.offset"@.len() == 17 && "uid"@.len() == 3);
            assert("GNU.sparse.offset"@ != "uid"@);
            reveal_strlit("GNU.sparse.numbytes");
            assert("GNU.sparse.numbytes"@.len() == 19 && "uid"@.len() == 3);
            assert("GNU.sparse.numbytes"@ != "uid"@);
            reveal_strlit("GNU.sparse.map");
            assert("GNU.sparse.map"@.len() == 14 && "uid"@.len() == 3);
            assert("GNU.sparse.map"@ != "uid"@);
            reveal_strlit("atime");
            assert("atime"@.len() == 5 && "uid"@.len() == 3);
            assert("atime"@ != "uid"@);
            reveal_strlit("gid");
            assert("gid"@[0] != "uid"@[0]);
            assert("gid"@ != "uid"@);
            reveal_strlit("gname");
            assert("gname"@.len() == 5 && "uid"@.len() == 3);
            assert("gname"@ != "uid"@);
            reveal_strlit("linkpath");
            assert("linkpath"@.len() == 8 && "uid"@.len() == 3);
            assert("linkpath"@ != "uid"@);
            reveal_strlit("mtime");
            assert("mtime"@.len() == 5 && "uid"@.len() == 3);
            assert("mtime"@ != "uid"@);
            reveal_strlit("ctime");
            assert("ctime"@.len() == 5 && "uid"@.len() == 3);
            assert("ctime"@ != "uid"@);
            reveal_strlit("path");
            assert("path"@.len() == 4 && "uid"@.len() == 3);
            assert("path"@ != "uid"@);
            reveal_strlit("size");
            assert("size"@.len() == 4 && "uid"@.len() == 3);
            assert("size"@ != "uid"@);
        },
        PaxKey::Uname => {
            reveal_strlit("uname");
            reveal_strlit("GNU.sparse.name");
            assert("GNU.sparse.name"@.len() == 15 && "uname"@.len() == 5);
            assert("GNU.sparse.name"@ != "uname"@);
            reveal_strlit("GNU.sparse.realsize");
            assert("GNU.sparse.realsize"@.len() == 19 && "uname"@.len() == 5);
            assert("GNU.sparse.realsize"@ != "uname"@);
            reveal_strlit("GNU.sparse.major");
            assert("GNU.sparse.major"@.len() == 16 && "uname"@.len() == 5);
            assert("GNU.sparse.major"@ != "uname"@);
            reveal_strlit("GNU.sparse.minor");
            assert("GNU.sparse.minor"@.len() == 16 && "uname"@.len() == 5);
            assert("GNU.sparse.minor"@ != "uname"@);
            reveal_strlit("GNU.sparse.size");
            assert("GNU.sparse.size"@.len() == 15 && "uname"@.len() == 5);
            assert("GNU.sparse.size"@ != "uname"@);
            reveal_strlit("GNU.sparse.numblocks");
            assert("GNU.sparse.numblocks"@.len() == 20 && "uname"@.len() == 5);
            assert("GNU.sparse.numblocks"@ != "uname"@);
            reveal_strlit("GNU.sparse.offset");
            assert("GNU.sparse.offset"@.len() == 17 && "uname"@.len() == 5);
            assert("GNU.sparse.offset"@ != "uname"@);
            reveal_strlit("GNU.sparse.numbytes");
            assert("GNU.sparse.numbytes"@.len() == 19 && "uname"@.len() == 5);
            assert("GNU.sparse.numbytes"@ != "uname"@);
            reveal_strlit("GNU.sparse.map");
            assert("GNU.sparse.map"@.len() == 14 && "uname"@.len() == 5);
            assert("GNU.sparse.map"@ != "uname"@);
            reveal_strlit("atime");
            assert("atime"@[0] != "uname"@[0]);
            assert("atime"@ != "uname"@);
            reveal_strlit("gid");
            assert("gid"@.len() == 3 && "uname"@.len() == 5);
            assert("gid"@ != "uname"@);
            reveal_strlit("gname");
            assert("gname"@[0] != "uname"@[0]);
            assert("gname"@ != "uname"@);
            reveal_strlit("linkpath");
            assert("linkpath"@.len() == 8 && "uname"@.len() == 5);
            assert("linkpath"@ != "uname"@);
            reveal_strlit("mtime");
            assert("mtime"@[0] != "uname"@[0]);
            assert("mtime"@ != "uname"@);
            reveal_strlit("ctime");
            assert("ctime"@[0] != "uname"@[0]);
            assert("ctime"@ != "uname"@);
            reveal_strlit("path");
            assert("path"@.len() == 4 && "uname"@.len() == 5);
            assert("path"@ != "uname"@);
            reveal_strlit("size");
            assert("size"@.len() == 4 && "uname"@.len() == 5);
            assert("size"@ != "uname"@);
            reveal_strlit("uid");
            assert("uid"@.len() == 3 && "uname"@.len() == 5);
            assert("uid"@ != "uname"@);
        },
        PaxKey::Other => {},
    }
}

/// A keyword is classified as a well-known attribute only when it is that attribute's keyword;
/// every other keyword is `Other`.
pub proof fn law_known_keys_are_their_keywords(k: Seq<char>)
    ensures
        pax_key(k) != PaxKey::Other ==> k == pax_keyword(pax_key(k)),
{
    reveal_strlit("GNU.sparse.name");
    reveal_strlit("GNU.sparse.realsize");
    reveal_strlit("GNU.sparse.major");
    reveal_strlit("GNU.sparse.minor");
    reveal_strlit("GNU.sparse.size");
    reveal_strlit("GNU.sparse.numblocks");
    reveal_strlit("GNU.sparse.offset");
    reveal_strlit("GNU.sparse.numbytes");
    reveal_strlit("GNU.sparse.map");
    reveal_strlit("atime");
    reveal_strlit("gid");
    reveal_strlit("gname");
    reveal_strlit("linkpath");
    reveal_strlit("mtime");
    reveal_strlit("ctime");
    reveal_strlit("path");
    reveal_strlit("size");
    reveal_strlit("uid");
    reveal_strlit("uname");
}

/// The kind of a keyword.
pub fn classify_key(k: &str) -> (r: PaxKey)
    ensures
        r == pax_key(k@),
        forall|key: PaxKey| key != PaxKey::Other && k@ == #[trigger] pax_keyword(key) ==> r == key,
        r != PaxKey::Other ==> k@ == pax_keyword(r),
{
    proof {
        law_keywords_name_their_keys();
        law_known_keys_are_their_keywords(k@);
    }
    if str_is(k, GNU_SPARSE_NAME_01_01) {
        PaxKey::GnuSparseName
    } else if str_is(k, GNU_SPARSE_REALSIZE_1_0) {
        PaxKey::GnuSparseRealSize1_0
    } else if str_is(k, GNU_SPARSE_MAJOR) {
        PaxKey::GnuSparseMajor
    } else if str_is(k, GNU_SPARSE_MINOR) {
        PaxKey::GnuSparseMinor
    } else if str_is(k, GNU_SPARSE_REALSIZE_0_01) {
        PaxKey::GnuSparseRealSize0_01
    } else if str_is(k, GNU_SPARSE_MAP_NUM_BLOCKS_0_01) {
        PaxKey::GnuSparseNumBlocks
    } else if str_is(k, GNU_SPARSE_DATA_BLOCK_OFFSET_0_0) {
        PaxKey::GnuSparseOffset
    } else if str_is(k, GNU_SPARSE_DATA_BLOCK_SIZE_0_0) {
        PaxKey::GnuSparseNumBytes
    } else if str_is(k, GNU_SPARSE_MAP_0_1) {
        PaxKey::GnuSparseMap
    } else if str_is(k, ATIME) {
        PaxKey::Atime
    } else if str_is(k, GID) {
        PaxKey::Gid
    } else if str_is(k, GNAME) {
        PaxKey::Gname
    } else if str_is(k, LINKPATH) {
        PaxKey::Linkpath
    } else if str_is(k, MTIME) {
        PaxKey::Mtime
    } else if str_is(k, CTIME) {
        PaxKey::Ctime
    } else if str_is(k, PATH) {
        PaxKey::Path
    } else if str_is(k, SIZE) {
        PaxKey::Size
    } else if str_is(k, UID) {
        PaxKey::Uid
    } else if str_is(k, UNAME) {
        PaxKey::Uname
    } else {
        PaxKey::Other
    }
}

/// The UTF-8 bytes of a string.
pub open spec fn text_bytes(s: Seq<char>) -> Seq<u8> {
    encode_utf8(s)
}

/// The bytes of `s` up to its first `.`, and after it (empty if there is none).
pub open spec fn split_at_dot(s: Seq<u8>) -> (Seq<u8>, Option<Seq<u8>>)
    decreases s.len(),
{
    if s.len() == 0 {
        (s, None)
    } else if s[0] == 0x2e {
        (Seq::empty(), Some(s.skip(1)))
    } else {
        let (head, rest) = split_at_dot(s.skip(1));
        (seq![s[0]] + head, rest)
    }
}

/// A PAX time: decimal seconds, then optionally a dot and decimal nanoseconds (anything after a
/// second dot is ignored).
pub open spec fn pax_time(s: Seq<u8>) -> Result<TimeStamp, IntErrorKind> {
    let (seconds, rest) = split_at_dot(s);
    match parse_uint_spec(seconds, 10, u64::MAX as nat) {
        Err(kind) => Err(kind),
        Ok(sec) => match rest {
            None => Ok(TimeStamp { seconds_since_epoch: sec as u64, nanoseconds: 0 }),
            Some(after) => match parse_uint_spec(split_at_dot(after).0, 10, u32::MAX as nat) {
                Err(kind) => Err(kind),
                Ok(ns) => Ok(TimeStamp { seconds_since_epoch: sec as u64, nanoseconds: ns as u32 }),
            },
        },
    }
}

/// The index of the first `.` of `s[from..]`, or the length.
fn find_dot(s: &[u8], from: usize) -> (r: usize)
    requires
        from <= s@.len(),
    ensures
        from <= r <= s@.len(),
        split_at_dot(s@.skip(from as int)).0 == s@.subrange(from as int, r as int),
        r < s@.len() ==> s@[r as int] == 0x2e && split_at_dot(s@.skip(from as int)).1 == Some(
            s@.skip(r + 1),
        ),
        r == s@.len() ==> split_at_dot(s@.skip(from as int)).1 is None,
    decreases s@.len() - from,
{
    if from == s.len() {
        proof {
            assert(s@.subrange(from as int, from as int) =~= s@.skip(from as int));
        }
        return from;
    }
    if s[from] == 0x2e {
        proof {
            assert(s@.skip(from as int).skip(1) =~= s@.skip(from + 1));
            assert(s@.subrange(from as int, from as int) =~= Seq::<u8>::empty());
        }
        return from;
    }
    let r = find_dot(s, from + 1);
    proof {
        assert(s@.skip(from as int).skip(1) =~= s@.skip(from + 1));
        assert(seq![s@[from as int]] + s@.subrange(from + 1, r as int) =~= s@.subrange(
            from as int,
            r as int,
        ));
    }
    r
}

/// Parses a time value of the form `seconds.nanoseconds` or `seconds`.
pub fn parse_time(value: &[u8]) -> (r: Result<TimeStamp, ParseIntError>)
    ensures
        match pax_time(value@) {
            Ok(t) => r == Ok::<TimeStamp, ParseIntError>(t),
            Err(kind) => r == Err::<TimeStamp, ParseIntError>(ParseIntError { kind }),
        },
{
    let dot = find_dot(value, 0);
    proof {
        assert(value@.skip(0) =~= value@);
    }
    let seconds = match parse_u64(&value[0..dot]) {
        Ok(v) => v,
        Err(e) => {
            return Err(e);
        },
    };
    if dot == value.len() {
        return Ok(TimeStamp { seconds_since_epoch: seconds, nanoseconds: 0 });
    }
    let second_dot = find_dot(value, dot + 1);
    let nanoseconds = match parse_u32(&value[dot + 1..second_dot]) {
        Ok(v) => v,
        Err(e) => {
            return Err(e);
        },
    };
    proof {
        assert(value@.skip(dot + 1) =~= value@.skip(dot + 1).skip(0));
    }
    Ok(TimeStamp { seconds_since_epoch: seconds, nanoseconds })
}

/// The error of a map that has reached its key limit, as an error of the parser.
fn limit_exceeded_to_hashmap_err(
    limit: usize,
    context: LimitExceededContext,
    _error: LimitedBackingBufferError<core::convert::Infallible>,
) -> (r: TarParserErrorKind)
    ensures
        r == (TarParserErrorKind::LimitExceeded { limit, context }),
{
    TarParserErrorKind::LimitExceeded { limit, context }
}

/// A decimal number at most `max`, or the violation that it is none.
fn number_field<VH: TarViolationHandler>(
    vh: &mut VHW<'_, VH>,
    bytes: &[u8],
    max: u64,
    field: CorruptFieldContext,
) -> (r: Result<Option<u64>, TarParserError>)
    ensures
        r matches Ok(Some(v)) ==> parse_uint_spec(bytes@, 10, max as nat) == Ok::<nat, IntErrorKind>(
            v as nat,
        ) && v <= max,
        r matches Ok(None) ==> parse_uint_spec(bytes@, 10, max as nat) is Err,
        parse_uint_spec(bytes@, 10, max as nat) matches Ok(v) ==> r == Ok::<Option<u64>, TarParserError>(
            Some(v as u64),
        ),
        r is Err ==> parse_uint_spec(bytes@, 10, max as nat) is Err,
{
    let parsed = match crate::tar::text::parse_uint(bytes, 10, max) {
        Ok(v) => Ok(v),
        Err(e) => Err(corrupt_field_to_tar_err(field, GeneralParseError::InvalidInteger(e))),
    };
    vh.hpvr(parsed)
}

/// A PAX time, or the violation that it is none.
fn time_field<VH: TarViolationHandler>(
    vh: &mut VHW<'_, VH>,
    bytes: &[u8],
    field: CorruptFieldContext,
) -> (r: Result<Option<TimeStamp>, TarParserError>)
    ensures
        r matches Ok(Some(t)) ==> pax_time(bytes@) == Ok::<TimeStamp, IntErrorKind>(t),
        r matches Ok(None) ==> pax_time(bytes@) is Err,
        pax_time(bytes@) matches Ok(t) ==> r == Ok::<Option<TimeStamp>, TarParserError>(Some(t)),
        r is Err ==> pax_time(bytes@) is Err,
{
    let parsed = match parse_time(bytes) {
        Ok(t) => Ok(t),
        Err(e) => Err(corrupt_field_to_tar_err(field, GeneralParseError::InvalidInteger(e))),
    };
    vh.hpvr(parsed)
}

/// The value that counts, with the confidence of the kind of header it came from.
pub open spec fn pax_held<T>(v: PaxConfidentValue<T>) -> Option<(TarConfidence, T)> {
    match v.local_value() {
        Some(l) => Some((TarConfidence::PaxLocal, l)),
        None => match v.global_value() {
            Some(g) => Some((TarConfidence::PaxGlobal, g)),
            None => None,
        },
    }
}

/// What a confident value holds after an update with `other`.
pub open spec fn updated<T>(held: Option<(TarConfidence, T)>, other: Option<(TarConfidence, T)>) -> Option<(TarConfidence, T)> {
    match other {
        Some((c, v)) => if (held matches Some((cur, _)) && cur.rank() > c.rank()) {
            held
        } else {
            Some((c, v))
        },
        None => held,
    }
}

/// A parser whose version attributes are those of `p` with the local ones forgotten names no
/// sparse format when `p` names none.
pub proof fn lemma_no_sparse_format_after_recover(p: PaxParser, q: PaxParser)
    requires
        q.gnu_sparse_major_value().local_value() is None,
        q.gnu_sparse_major_value().global_value() == p.gnu_sparse_major_value().global_value(),
        q.gnu_sparse_minor_value().local_value() is None,
        q.gnu_sparse_minor_value().global_value() == p.gnu_sparse_minor_value().global_value(),
        p.sparse_format_spec() is None,
    ensures
        q.sparse_format_spec() is None,
{
}

/// Loading the attribute again after the local value is forgotten changes nothing: what counted
/// the first time still counts.
pub proof fn lemma_reload<T>(held: Option<(TarConfidence, T)>, v: PaxConfidentValue<T>, v2: PaxConfidentValue<T>)
    requires
        v2.local_value() is None,
        v2.global_value() == v.global_value(),
    ensures
        updated(updated(held, pax_held(v)), pax_held(v2)) == updated(held, pax_held(v)),
{
}

/// The text value that counts, as a confident value.
fn text_value(v: &PaxConfidentValue<String>) -> (r: ConfidentValue<String>)
    ensures
        r.held() == pax_held(*v),
{
    let mut r = ConfidentValue::new();
    match v.get_with_confidence() {
        Some((c, text)) => {
            r.set(TarConfidence::from_pax(c), text.clone());
        },
        None => {},
    }
    r
}

/// The value that counts, as a confident value.
fn copy_value<T: Copy>(v: &PaxConfidentValue<T>) -> (r: ConfidentValue<T>)
    ensures
        r.held() == pax_held(*v),
{
    let mut r = ConfidentValue::new();
    match v.get_with_confidence() {
        Some((c, value)) => {
            r.set(TarConfidence::from_pax(c), *value);
        },
        None => {},
    }
    r
}

/// A sparse map entry being put together from a `GNU.sparse.offset` and a `GNU.sparse.numbytes`
/// record.
#[derive(Debug, Clone, Copy, PartialEq, Eq)]
pub struct SparseFileInstructionBuilder {
    offset_before: Option<u64>,
    data_size: Option<u64>,
}

impl SparseFileInstructionBuilder {
    /// The offset given so far, if any.
    pub closed spec fn offset(&self) -> Option<u64> {
        self.offset_before
    }

    /// The data size given so far, if any.
    pub closed spec fn size(&self) -> Option<u64> {
        self.data_size
    }

    /// A builder that has been given neither part yet.
    pub fn new() -> (r: Self)
        ensures
            r.offset() is None,
            r.size() is None,
    {
        SparseFileInstructionBuilder { offset_before: None, data_size: None }
    }
}

/// Reading the decimal length of a record.
#[derive(Debug)]
struct StateParsingNewKV {
    kv_digits: LimitedVec<u8>,
}

/// Reading the keyword of a record; `length` bytes of the record are left after the length
/// field and its delimiter.
#[derive(Debug)]
struct StateParsingKey {
    length: usize,
}

/// Reading the value of a record, of which `length_after_equals` bytes are left after the `=`.
#[derive(Debug)]
struct StateParsingValue {
    key: String,
    length_after_equals: usize,
}

#[derive(Debug)]
enum PaxParserState {
    ParsingNewKV(StateParsingNewKV),
    ParsingKey(StateParsingKey),
    ParsingValue(StateParsingValue),
}

/// The state at the start of a record.
fn fresh_state() -> (r: PaxParserState)
    ensures
        r.wf(),
        r.is_fresh(),
{
    PaxParserState::ParsingNewKV(StateParsingNewKV { kv_digits: LimitedVec::new(MAX_KV_LENGTH_FIELD_LENGTH) })
}

impl PaxParserState {
    spec fn wf(&self) -> bool {
        self matches PaxParserState::ParsingNewKV(s) ==> s.kv_digits.limit()
            == MAX_KV_LENGTH_FIELD_LENGTH
    }

    spec fn is_fresh(&self) -> bool {
        self matches PaxParserState::ParsingNewKV(s) && s.kv_digits.items().len() == 0
    }
}

/// The position of the first byte of `s` at or after `from` that is `a` or `b`, or the length of
/// `s` when there is none.
pub open spec fn first_delimiter(s: Seq<u8>, a: u8, b: u8, from: int) -> int
    decreases s.len() - from,
{
    if from < 0 || from >= s.len() {
        s.len() as int
    } else if s[from] == a || s[from] == b {
        from
    } else {
        first_delimiter(s, a, b, from + 1)
    }
}

/// A delimiter with none before it from `from` on is the first one.
proof fn lemma_first_delimiter(s: Seq<u8>, a: u8, b: u8, from: int, d: int)
    requires
        0 <= from <= d < s.len(),
        s[d] == a || s[d] == b,
        forall|i: int| from <= i < d ==> s[i] != a && s[i] != b,
    ensures
        first_delimiter(s, a, b, from) == d,
    decreases d - from,
{
    if from < d {
        lemma_first_delimiter(s, a, b, from + 1, d);
    }
}

/// The first delimiter, when there is one, is a delimiter, and there is none before it.
proof fn lemma_first_delimiter_found(s: Seq<u8>, a: u8, b: u8, from: int)
    requires
        0 <= from,
        first_delimiter(s, a, b, from) < s.len(),
    ensures
        from <= first_delimiter(s, a, b, from),
        s[first_delimiter(s, a, b, from)] == a || s[first_delimiter(s, a, b, from)] == b,
        forall|i: int| from <= i < first_delimiter(s, a, b, from) ==> s[i] != a && s[i] != b,
    decreases s.len() - from,
{
    if from < s.len() && !(s[from] == a || s[from] == b) {
        lemma_first_delimiter_found(s, a, b, from + 1);
    }
}

/// Where the length field of the record that `s` starts with ends: at its first space or
/// newline.
pub open spec fn record_length_end(s: Seq<u8>) -> int {
    first_delimiter(s, 0x20, 0x0a, 0)
}

/// Where the keyword of the record that `s` starts with ends: at the first `=` after the length
/// field.
pub open spec fn record_key_end(s: Seq<u8>) -> int {
    first_delimiter(s, 0x3d, 0x3d, record_length_end(s) + 1)
}

/// The keyword of the record that `s` holds.
pub open spec fn record_key(s: Seq<u8>) -> Seq<u8> {
    s.subrange(record_length_end(s) + 1, record_key_end(s))
}

/// The value of the record that `s` holds: what follows the `=`, up to the final newline.
pub open spec fn record_value(s: Seq<u8>) -> Seq<u8> {
    s.subrange(record_key_end(s) + 1, s.len() - 1)
}

/// `s` is exactly one record that the parser takes whole: a length field of at most
/// `MAX_KV_LENGTH_FIELD_LENGTH` digits that gives the length of `s`, a space, a keyword and a
/// value of at most `max_field` bytes of UTF-8 each, separated by `=`, and a final newline.
pub open spec fn is_whole_record(s: Seq<u8>, max_field: nat) -> bool {
    let length_end = record_length_end(s);
    &&& 0 < length_end <= MAX_KV_LENGTH_FIELD_LENGTH
    &&& record_key_end(s) + 2 <= s.len()
    &&& s[s.len() - 1] == 0x0a
    &&& valid_utf8(s.take(length_end))
    &&& parse_uint_spec(s.take(length_end), 10, usize::MAX as nat) == Ok::<nat, IntErrorKind>(s.len())
    &&& record_key(s).len() <= max_field
    &&& record_value(s).len() <= max_field
    &&& valid_utf8(record_key(s))
    &&& valid_utf8(record_value(s))
}

/// The bytes of a record: the length field, a space, the keyword, `=`, the value and a newline.
pub open spec fn pax_record(length_field: Seq<u8>, key: Seq<u8>, value: Seq<u8>) -> Seq<u8> {
    length_field + seq![0x20u8] + key + seq![0x3du8] + value + seq![0x0au8]
}

/// A record made of a length field of decimal digits that gives the length of the record, a
/// keyword without `=` and a value, both UTF-8 within the limit, is one that the parser takes
/// whole, and its keyword and value are read back as they were put in.
pub proof fn law_record_fields(length_field: Seq<u8>, key: Seq<u8>, value: Seq<u8>, max_field: nat)
    requires
        0 < length_field.len() <= MAX_KV_LENGTH_FIELD_LENGTH,
        forall|i: int| 0 <= i < length_field.len() ==> 0x30 <= #[trigger] length_field[i] <= 0x39,
        valid_utf8(length_field),
        parse_uint_spec(length_field, 10, usize::MAX as nat) == Ok::<nat, IntErrorKind>(
            pax_record(length_field, key, value).len(),
        ),
        forall|i: int| 0 <= i < key.len() ==> #[trigger] key[i] != 0x3d,
        key.len() <= max_field,
        value.len() <= max_field,
        valid_utf8(key),
        valid_utf8(value),
    ensures
        is_whole_record(pax_record(length_field, key, value), max_field),
        record_key(pax_record(length_field, key, value)) == key,
        record_value(pax_record(length_field, key, value)) == value,
{
    let s = pax_record(length_field, key, value);
    let d = length_field.len() as int;
    let e = d + 1 + key.len();
    assert forall|i: int| 0 <= i < d implies s[i] != 0x20 && s[i] != 0x0a by {
        assert(s[i] == length_field[i]);
    }
    assert(s[d] == 0x20);
    lemma_first_delimiter(s, 0x20, 0x0a, 0, d);
    assert forall|i: int| d + 1 <= i < e implies s[i] != 0x3d && s[i] != 0x3d by {
        assert(s[i] == key[i - d - 1]);
    }
    assert(s[e] == 0x3d);
    lemma_first_delimiter(s, 0x3d, 0x3d, d + 1, e);
    assert(s.take(d) =~= length_field);
    assert(s.subrange(d + 1, e) =~= key);
    assert(s.subrange(e + 1, s.len() - 1) =~= value);
}

/// How a copy up to a delimiter ended.
enum CopyUntil {
    /// The delimiter was found and consumed.
    Found,
    /// The input ended first; everything was copied.
    NotFound,
    /// The target filled up before the delimiter.
    Full,
}

/// Copies bytes of `input` from `*pos` into `target` until `delim_a` or `delim_b`, consuming the
/// delimiter but not copying it.
fn copy_until(input: &[u8], pos: &mut usize, target: &mut LimitedVec<u8>, delim_a: u8, delim_b: u8) -> (r: CopyUntil)
    requires
        *old(pos) <= input@.len(),
    ensures
        *old(pos) <= *final(pos) <= input@.len(),
        final(target).limit() == old(target).limit(),
        *old(pos) == input@.len() ==> r is NotFound,
        r is Found ==> {
            let d = final(pos) - 1;
            &&& old(pos) <= d
            &&& (input@[d] == delim_a || input@[d] == delim_b)
            &&& final(target).items() == old(target).items() + input@.subrange(*old(pos) as int, d)
        },
        r is NotFound ==> *final(pos) == input@.len() && final(target).items() == old(
            target,
        ).items() + input@.subrange(*old(pos) as int, input@.len() as int),
        r is Full ==> final(target).items() == old(target).items() + input@.subrange(
            *old(pos) as int,
            *final(pos) as int,
        ),
        forall|i: int|
            *old(pos) <= i < (if r is Found {
                *final(pos) - 1
            } else {
                *final(pos) as int
            }) ==> input@[i] != delim_a && input@[i] != delim_b,
{
    let ghost start = *pos;
    let ghost items0 = target.items();
    loop
        invariant
            start <= *pos <= input@.len(),
            start == *old(pos),
            items0 == old(target).items(),
            target.limit() == old(target).limit(),
            target.items() == items0 + input@.subrange(start as int, *pos as int),
            forall|i: int| start <= i < *pos ==> input@[i] != delim_a && input@[i] != delim_b,
        decreases input@.len() - *pos,
    {
        if *pos == input.len() {
            return CopyUntil::NotFound;
        }
        let b = input[*pos];
        if b == delim_a || b == delim_b {
            *pos = *pos + 1;
            return CopyUntil::Found;
        }
        match target.push(b) {
            Ok(()) => {},
            Err(_) => {
                return CopyUntil::Full;
            },
        }
        *pos = *pos + 1;
        proof {
            assert(target.items() =~= items0 + input@.subrange(start as int, *pos as int));
        }
    }
}

/// The parser of PAX extended headers, and the attributes they set.
///
/// Well-known attributes are kept parsed, each with the value of the last global header and
/// that of the local header of the next entry; other attributes are kept as text.
pub struct PaxParser {
    global_attributes: LimitedHashMap,
    unparsed_global_attributes: LimitedHashMap,
    unparsed_local_attributes: LimitedHashMap,
    gnu_sparse_name_01_01: PaxConfidentValue<String>,
    gnu_sparse_realsize_1_0: PaxConfidentValue<usize>,
    gnu_sparse_major: PaxConfidentValue<u32>,
    gnu_sparse_minor: PaxConfidentValue<u32>,
    gnu_sparse_realsize_0_01: PaxConfidentValue<usize>,
    gnu_sparse_map_local: LimitedVec<SparseFileInstruction>,
    mtime: PaxConfidentValue<TimeStamp>,
    atime: PaxConfidentValue<TimeStamp>,
    ctime: PaxConfidentValue<TimeStamp>,
    gid: PaxConfidentValue<u32>,
    gname: PaxConfidentValue<String>,
    link_path: PaxConfidentValue<String>,
    path: PaxConfidentValue<String>,
    data_size: PaxConfidentValue<usize>,
    uid: PaxConfidentValue<u32>,
    uname: PaxConfidentValue<String>,
    state: PaxParserState,
    current_pax_mode: PaxConfidence,
    sparse_instruction_builder: SparseFileInstructionBuilder,
    pax_key_value_buffer: LimitedVec<u8>,
}

/// A string field of a header stored from a record of the given kind.
pub open spec fn stored_text(
    before: PaxConfidentValue<String>,
    after: PaxConfidentValue<String>,
    confidence: PaxConfidence,
    value: Seq<char>,
) -> bool {
    &&& confidence == PaxConfidence::GLOBAL ==> (after.global_value() matches Some(v) && v@ == value
        && after.local_value() == before.local_value())
    &&& confidence == PaxConfidence::LOCAL ==> (after.local_value() matches Some(v) && v@ == value
        && after.global_value() == before.global_value())
}

/// A parsed field stored from a record of the given kind.
pub open spec fn stored<T>(
    before: PaxConfidentValue<T>,
    after: PaxConfidentValue<T>,
    confidence: PaxConfidence,
    value: T,
) -> bool {
    &&& confidence == PaxConfidence::GLOBAL ==> after.global_value() == Some(value)
        && after.local_value() == before.local_value()
    &&& confidence == PaxConfidence::LOCAL ==> after.local_value() == Some(value)
        && after.global_value() == before.global_value()
}

/// What storing one attribute of a header of the given kind does: a well-known one is stored
/// parsed when it parses, another one as text among the local ones; one of a global header is
/// also kept as text among the global ones, while there is room.
pub open spec fn attribute_stored(
    before: PaxParser,
    after: PaxParser,
    confidence: PaxConfidence,
    key: Seq<char>,
    value: Seq<char>,
) -> bool {
    &&& (confidence == PaxConfidence::GLOBAL && (before.globals().dom().contains(key)
        || before.globals().dom().len() < before.max_globals()) ==> after.globals()
        == before.globals().insert(key, value))
    &&& match pax_key(key) {
        PaxKey::Path => stored_text(before.path_value(), after.path_value(), confidence, value),
        PaxKey::Linkpath => stored_text(
            before.link_path_value(),
            after.link_path_value(),
            confidence,
            value,
        ),
        PaxKey::Uname => stored_text(before.uname_value(), after.uname_value(), confidence, value),
        PaxKey::Gname => stored_text(before.gname_value(), after.gname_value(), confidence, value),
        PaxKey::Uid => match parse_uint_spec(text_bytes(value), 10, u32::MAX as nat) {
            Ok(v) => stored(before.uid_value(), after.uid_value(), confidence, v as u32),
            Err(_) => after.uid_value() == before.uid_value(),
        },
        PaxKey::Gid => match parse_uint_spec(text_bytes(value), 10, u32::MAX as nat) {
            Ok(v) => stored(before.gid_value(), after.gid_value(), confidence, v as u32),
            Err(_) => after.gid_value() == before.gid_value(),
        },
        PaxKey::Size => match parse_uint_spec(text_bytes(value), 10, usize::MAX as nat) {
            Ok(v) => stored(before.size_value(), after.size_value(), confidence, v as usize),
            Err(_) => after.size_value() == before.size_value(),
        },
        PaxKey::Mtime => match pax_time(text_bytes(value)) {
            Ok(t) => stored(before.mtime_value(), after.mtime_value(), confidence, t),
            Err(_) => after.mtime_value() == before.mtime_value(),
        },
        PaxKey::Atime => match pax_time(text_bytes(value)) {
            Ok(t) => stored(before.atime_value(), after.atime_value(), confidence, t),
            Err(_) => after.atime_value() == before.atime_value(),
        },
        PaxKey::Ctime => match pax_time(text_bytes(value)) {
            Ok(t) => stored(before.ctime_value(), after.ctime_value(), confidence, t),
            Err(_) => after.ctime_value() == before.ctime_value(),
        },
        PaxKey::Other => {
            &&& after.path_value() == before.path_value()
            &&& confidence == PaxConfidence::LOCAL && (before.unparsed_locals().dom().contains(key)
                || before.unparsed_locals().dom().len() < before.max_unparsed_locals())
                ==> after.unparsed_locals() == before.unparsed_locals().insert(key, value)
            &&& confidence == PaxConfidence::GLOBAL ==> after.unparsed_locals()
                == before.unparsed_locals()
        },
        PaxKey::GnuSparseName => {
            &&& after.path_value() == before.path_value()
            &&& after.unparsed_locals() == before.unparsed_locals()
            &&& confidence == PaxConfidence::LOCAL ==> stored_text(
                before.gnu_sparse_name_value(),
                after.gnu_sparse_name_value(),
                confidence,
                value,
            )
        },
        PaxKey::GnuSparseRealSize1_0 => {
            &&& after.path_value() == before.path_value()
            &&& after.unparsed_locals() == before.unparsed_locals()
            &&& confidence == PaxConfidence::LOCAL ==> match parse_uint_spec(text_bytes(value), 10, usize::MAX as nat) {
                Ok(v) => stored(
                    before.gnu_sparse_realsize_1_0_value(),
                    after.gnu_sparse_realsize_1_0_value(),
                    confidence,
                    v as usize,
                ),
                Err(_) => after.gnu_sparse_realsize_1_0_value() == before.gnu_sparse_realsize_1_0_value(),
            }
        },
        PaxKey::GnuSparseRealSize0_01 => {
            &&& after.path_value() == before.path_value()
            &&& after.unparsed_locals() == before.unparsed_locals()
            &&& confidence == PaxConfidence::LOCAL ==> match parse_uint_spec(text_bytes(value), 10, usize::MAX as nat) {
                Ok(v) => stored(
                    before.gnu_sparse_realsize_0_01_value(),
                    after.gnu_sparse_realsize_0_01_value(),
                    confidence,
                    v as usize,
                ),
                Err(_) => after.gnu_sparse_realsize_0_01_value() == before.gnu_sparse_realsize_0_01_value(),
            }
        },
        PaxKey::GnuSparseMajor => {
            &&& after.path_value() == before.path_value()
            &&& after.unparsed_locals() == before.unparsed_locals()
            &&& match parse_uint_spec(text_bytes(value), 10, u32::MAX as nat) {
                Ok(v) => stored(before.gnu_sparse_major_value(), after.gnu_sparse_major_value(), confidence, v as u32),
                Err(_) => after.gnu_sparse_major_value() == before.gnu_sparse_major_value(),
            }
        },
        PaxKey::GnuSparseMinor => {
            &&& after.path_value() == before.path_value()
            &&& after.unparsed_locals() == before.unparsed_locals()
            &&& match parse_uint_spec(text_bytes(value), 10, u32::MAX as nat) {
                Ok(v) => stored(before.gnu_sparse_minor_value(), after.gnu_sparse_minor_value(), confidence, v as u32),
                Err(_) => after.gnu_sparse_minor_value() == before.gnu_sparse_minor_value(),
            }
        },
        _ => after.path_value() == before.path_value() && after.unparsed_locals()
            == before.unparsed_locals(),
    }
}

/// The position of the first comma of `s` at or after `i`, or the length of `s` if none.
spec fn next_comma(s: Seq<u8>, i: int) -> int
    decreases s.len() - i,
{
    if i < 0 || i >= s.len() || s[i] == 0x2c {
        i
    } else {
        next_comma(s, i + 1)
    }
}

proof fn lemma_next_comma(s: Seq<u8>, i: int)
    requires
        0 <= i <= s.len(),
    ensures
        i <= next_comma(s, i) <= s.len(),
        forall|j: int| i <= j < next_comma(s, i) ==> s[j] != 0x2c,
        next_comma(s, i) < s.len() ==> s[next_comma(s, i)] == 0x2c,
    decreases s.len() - i,
{
    if i < s.len() && s[i] != 0x2c {
        lemma_next_comma(s, i + 1);
    }
}

proof fn lemma_next_comma_at(s: Seq<u8>, i: int, e: int)
    requires
        0 <= i <= e <= s.len(),
        forall|j: int| i <= j < e ==> s[j] != 0x2c,
        e == s.len() || s[e] == 0x2c,
    ensures
        next_comma(s, i) == e,
    decreases e - i,
{
    if i < e {
        lemma_next_comma_at(s, i + 1, e);
    }
}

/// The parts of `s` from `start` on, between commas.
spec fn comma_parts_from(s: Seq<u8>, start: int) -> Seq<Seq<u8>>
    decreases s.len() - start,
{
    if 0 <= start <= s.len() {
        let end = next_comma(s, start);
        if end >= s.len() {
            seq![s.subrange(start, s.len() as int)]
        } else {
            proof {
                lemma_next_comma(s, start);
            }
            seq![s.subrange(start, end)] + comma_parts_from(s, end + 1)
        }
    } else {
        Seq::empty()
    }
}

/// The decimal `u64` a part holds, if it holds one.
spec fn part_number(part: Seq<u8>) -> Option<u64> {
    match parse_uint_spec(part, 10, u64::MAX as nat) {
        Ok(v) => Some(v as u64),
        Err(_) => None,
    }
}

/// The instructions the parts of a sparse map of the 0.1 format give: an offset and a size for
/// each pair of parts in turn, where both are numbers.
spec fn pairs_of(parts: Seq<Seq<u8>>) -> Seq<SparseFileInstruction>
    decreases parts.len(),
{
    if parts.len() < 2 {
        Seq::empty()
    } else if parts.len() % 2 == 1 {
        pairs_of(parts.drop_last())
    } else {
        let before = pairs_of(parts.take(parts.len() - 2));
        match (part_number(parts[parts.len() - 2]), part_number(parts[parts.len() - 1])) {
            (Some(o), Some(d)) => before.push(SparseFileInstruction { offset_before: o, data_size: d }),
            _ => before,
        }
    }
}

/// The error for a record whose length field `digits` is no decimal number: a fatal corrupt
/// length field, bad UTF-8 or a bad integer; or a buffer that could not grow.
pub open spec fn bad_length_field_error(e: TarParserError, digits: Seq<u8>) -> bool {
    &&& e.severity is Fatal
    &&& e.kind is LimitExceeded || (e.kind matches TarParserErrorKind::CorruptField { field, error }
        && field is PaxKvLength && (if valid_utf8(digits) {
        error is InvalidInteger
    } else {
        error is InvalidUtf8
    }))
}

/// An error of a buffer that could not grow: its limit was reached, or memory could not be
/// reserved.
pub open spec fn is_memory_error(e: TarParserError) -> bool {
    e.kind is LimitExceeded || e.kind is TryReserveError
}

/// An attribute that a parser in the state `before` stores without any violation: a global one
/// finds room among the global attributes; a well-known value parses and stands in a header of
/// the kind it belongs to; another one finds room among the unparsed ones. Of the keywords of the
/// GNU sparse formats 0.0 and 0.1, which build the sparse map, nothing is promised here.
pub open spec fn attribute_acceptable(
    before: PaxParser,
    confidence: PaxConfidence,
    key: Seq<char>,
    value: Seq<char>,
) -> bool {
    &&& confidence == PaxConfidence::GLOBAL ==> before.globals().dom().contains(key)
        || before.globals().dom().len() < before.max_globals()
    &&& match pax_key(key) {
        PaxKey::Path | PaxKey::Linkpath | PaxKey::Uname | PaxKey::Gname => true,
        PaxKey::Uid | PaxKey::Gid | PaxKey::GnuSparseMajor | PaxKey::GnuSparseMinor => parse_uint_spec(
            text_bytes(value),
            10,
            u32::MAX as nat,
        ) is Ok,
        PaxKey::Size => parse_uint_spec(text_bytes(value), 10, usize::MAX as nat) is Ok,
        PaxKey::Mtime | PaxKey::Atime | PaxKey::Ctime => pax_time(text_bytes(value)) is Ok,
        PaxKey::GnuSparseName => confidence == PaxConfidence::LOCAL,
        PaxKey::GnuSparseRealSize1_0 | PaxKey::GnuSparseRealSize0_01 => confidence == PaxConfidence::LOCAL
            && parse_uint_spec(text_bytes(value), 10, usize::MAX as nat) is Ok,
        PaxKey::Other => {
            &&& confidence == PaxConfidence::LOCAL ==> before.unparsed_locals().dom().contains(key)
                || before.unparsed_locals().dom().len() < before.max_unparsed_locals()
            &&& confidence == PaxConfidence::GLOBAL ==> before.unparsed_globals().dom().contains(key)
                || before.unparsed_globals().dom().len() < before.max_unparsed_globals()
        },
        _ => false,
    }
}

impl PaxParser {
    /// The internal state is consistent.
    pub closed spec fn wf(&self) -> bool {
        self.state.wf()
    }

    /// The global attributes seen, as text.
    pub closed spec fn globals(&self) -> Map<Seq<char>, Seq<char>> {
        self.global_attributes.contents()
    }

    /// The attributes of global headers that are not parsed.
    pub closed spec fn unparsed_globals(&self) -> Map<Seq<char>, Seq<char>> {
        self.unparsed_global_attributes.contents()
    }

    /// The attributes of the local header that are not parsed.
    pub closed spec fn unparsed_locals(&self) -> Map<Seq<char>, Seq<char>> {
        self.unparsed_local_attributes.contents()
    }

    /// The most attributes of the local header that are kept unparsed.
    pub closed spec fn max_unparsed_locals(&self) -> usize {
        self.unparsed_local_attributes.limit()
    }

    /// The most attributes of global headers that are kept unparsed.
    pub closed spec fn max_unparsed_globals(&self) -> usize {
        self.unparsed_global_attributes.limit()
    }

    /// The most global attributes kept.
    pub closed spec fn max_globals(&self) -> usize {
        self.global_attributes.limit()
    }

    pub closed spec fn gnu_sparse_name_value(&self) -> PaxConfidentValue<String> {
        self.gnu_sparse_name_01_01
    }

    /// The sparse format the records name.
    /// No attribute sets a path or a sparse format, neither globally nor locally.
    pub closed spec fn holds_no_path(&self) -> bool {
        &&& self.path.global_value() is None
        &&& self.path.local_value() is None
        &&& self.gnu_sparse_major.global_value() is None
        &&& self.gnu_sparse_major.local_value() is None
        &&& self.gnu_sparse_minor.global_value() is None
        &&& self.gnu_sparse_minor.local_value() is None
    }

    /// With no path attribute there is no sparse format either.
    pub proof fn lemma_no_path_no_sparse_format(&self)
        requires
            self.holds_no_path(),
        ensures
            self.sparse_format_spec() is None,
            self.path_value().current() is None,
    {
    }

    /// The major version of the GNU sparse format.
    pub closed spec fn gnu_sparse_major_value(&self) -> PaxConfidentValue<u32> {
        self.gnu_sparse_major
    }

    /// The minor version of the GNU sparse format.
    pub closed spec fn gnu_sparse_minor_value(&self) -> PaxConfidentValue<u32> {
        self.gnu_sparse_minor
    }

    /// The real size of a sparse file of the format 1.0.
    pub closed spec fn gnu_sparse_realsize_1_0_value(&self) -> PaxConfidentValue<usize> {
        self.gnu_sparse_realsize_1_0
    }

    /// The real size of a sparse file of the formats 0.0 and 0.1.
    pub closed spec fn gnu_sparse_realsize_0_01_value(&self) -> PaxConfidentValue<usize> {
        self.gnu_sparse_realsize_0_01
    }

    pub closed spec fn sparse_format_spec(&self) -> Option<SparseFormat> {
        SparseFormat::from_gnu_version(self.gnu_sparse_major.current(), self.gnu_sparse_minor.current())
    }

    pub closed spec fn path_value(&self) -> PaxConfidentValue<String> {
        self.path
    }

    pub closed spec fn link_path_value(&self) -> PaxConfidentValue<String> {
        self.link_path
    }

    pub closed spec fn uname_value(&self) -> PaxConfidentValue<String> {
        self.uname
    }

    pub closed spec fn gname_value(&self) -> PaxConfidentValue<String> {
        self.gname
    }

    pub closed spec fn uid_value(&self) -> PaxConfidentValue<u32> {
        self.uid
    }

    pub closed spec fn gid_value(&self) -> PaxConfidentValue<u32> {
        self.gid
    }

    pub closed spec fn size_value(&self) -> PaxConfidentValue<usize> {
        self.data_size
    }

    pub closed spec fn mtime_value(&self) -> PaxConfidentValue<TimeStamp> {
        self.mtime
    }

    pub closed spec fn atime_value(&self) -> PaxConfidentValue<TimeStamp> {
        self.atime
    }

    pub closed spec fn ctime_value(&self) -> PaxConfidentValue<TimeStamp> {
        self.ctime
    }

    /// The sparse map of the local header.
    pub closed spec fn sparse_map(&self) -> Seq<SparseFileInstruction> {
        self.gnu_sparse_map_local.items()
    }

    /// The most entries a sparse map takes.
    pub closed spec fn max_sparse_map(&self) -> usize {
        self.gnu_sparse_map_local.limit()
    }

    /// The kind of header being parsed.
    pub closed spec fn mode(&self) -> PaxConfidence {
        self.current_pax_mode
    }

    /// The parser stands at the start of a record.
    pub closed spec fn at_record_start(&self) -> bool {
        self.state.is_fresh()
    }

    /// Every attribute is the same in both parsers; only what is read of a record may differ.
    pub closed spec fn same_attributes(&self, other: &Self) -> bool {
        &&& self.global_attributes == other.global_attributes
        &&& self.unparsed_global_attributes == other.unparsed_global_attributes
        &&& self.unparsed_local_attributes == other.unparsed_local_attributes
        &&& self.gnu_sparse_name_01_01 == other.gnu_sparse_name_01_01
        &&& self.gnu_sparse_realsize_1_0 == other.gnu_sparse_realsize_1_0
        &&& self.gnu_sparse_major == other.gnu_sparse_major
        &&& self.gnu_sparse_minor == other.gnu_sparse_minor
        &&& self.gnu_sparse_realsize_0_01 == other.gnu_sparse_realsize_0_01
        &&& self.gnu_sparse_map_local == other.gnu_sparse_map_local
        &&& self.mtime == other.mtime
        &&& self.atime == other.atime
        &&& self.ctime == other.ctime
        &&& self.gid == other.gid
        &&& self.gname == other.gname
        &&& self.link_path == other.link_path
        &&& self.path == other.path
        &&& self.data_size == other.data_size
        &&& self.uid == other.uid
        &&& self.uname == other.uname
        &&& self.current_pax_mode == other.current_pax_mode
        &&& self.sparse_instruction_builder == other.sparse_instruction_builder
        &&& self.pax_key_value_buffer.limit() == other.pax_key_value_buffer.limit()
    }

    /// The most bytes of a keyword or a value.
    pub closed spec fn max_field_len(&self) -> usize {
        self.pax_key_value_buffer.limit()
    }

    /// The parser keeps only the attributes a record does not name, and what is read of records.
    pub closed spec fn same_attributes_but_state(&self, other: &Self) -> bool {
        &&& self.global_attributes == other.global_attributes
        &&& self.unparsed_global_attributes == other.unparsed_global_attributes
        &&& self.unparsed_local_attributes == other.unparsed_local_attributes
    }

    /// A parser with no attributes, that takes records of the given sizes and counts.
    pub fn new(
        max_global_attributes: usize,
        max_unparsed_global_attributes: usize,
        max_unparsed_local_attributes: usize,
        max_pax_key_value_length: usize,
        max_sparse_file_instructions: usize,
    ) -> (r: Self)
        ensures
            r.wf(),
            r.at_record_start(),
            r.mode() == PaxConfidence::LOCAL,
            r.globals() == Map::<Seq<char>, Seq<char>>::empty(),
            r.unparsed_locals() == Map::<Seq<char>, Seq<char>>::empty(),
            r.max_unparsed_locals() == max_unparsed_local_attributes,
            r.max_globals() == max_global_attributes,
            r.max_sparse_map() == max_sparse_file_instructions,
            r.sparse_map() == Seq::<SparseFileInstruction>::empty(),
            r.holds_no_path(),
    {
        PaxParser {
            global_attributes: LimitedHashMap::new(max_global_attributes),
            unparsed_global_attributes: LimitedHashMap::new(max_unparsed_global_attributes),
            unparsed_local_attributes: LimitedHashMap::new(max_unparsed_local_attributes),
            gnu_sparse_name_01_01: PaxConfidentValue::new(),
            gnu_sparse_realsize_1_0: PaxConfidentValue::new(),
            gnu_sparse_major: PaxConfidentValue::new(),
            gnu_sparse_minor: PaxConfidentValue::new(),
            gnu_sparse_realsize_0_01: PaxConfidentValue::new(),
            gnu_sparse_map_local: LimitedVec::new(max_sparse_file_instructions),
            mtime: PaxConfidentValue::new(),
            atime: PaxConfidentValue::new(),
            ctime: PaxConfidentValue::new(),
            gid: PaxConfidentValue::new(),
            gname: PaxConfidentValue::new(),
            link_path: PaxConfidentValue::new(),
            path: PaxConfidentValue::new(),
            data_size: PaxConfidentValue::new(),
            uid: PaxConfidentValue::new(),
            uname: PaxConfidentValue::new(),
            state: fresh_state(),
            current_pax_mode: PaxConfidence::LOCAL,
            sparse_instruction_builder: SparseFileInstructionBuilder::new(),
            pax_key_value_buffer: LimitedVec::new(max_pax_key_value_length),
        }
    }

    /// A parser that has taken the given global attributes, in the order in which the map is
    /// walked.
    pub fn try_new<VH: TarViolationHandler>(
        vh: &mut VHW<'_, VH>,
        initial_global_extended_attributes: StringMap,
        max_global_attributes: usize,
        max_unparsed_global_attributes: usize,
        max_unparsed_local_attributes: usize,
        max_pax_key_value_length: usize,
        max_sparse_file_instructions: usize,
    ) -> (r: Result<Self, TarParserError>)
        ensures
            r matches Ok(p) ==> {
                &&& p.wf()
                &&& p.at_record_start()
                &&& p.mode() == PaxConfidence::LOCAL
                &&& p.unparsed_locals() == Map::<Seq<char>, Seq<char>>::empty()
                &&& p.max_unparsed_locals() == max_unparsed_local_attributes
                &&& p.max_globals() == max_global_attributes
                &&& p.max_sparse_map() == max_sparse_file_instructions
                &&& p.sparse_map().len() <= p.max_sparse_map()
            },
            initial_global_extended_attributes.contents().dom().len() == 0 ==> (r matches Ok(p)
                && p.holds_no_path() && p.sparse_map().len() == 0),
    {
        let mut parser = PaxParser::new(
            max_global_attributes,
            max_unparsed_global_attributes,
            max_unparsed_local_attributes,
            max_pax_key_value_length,
            max_sparse_file_instructions,
        );
        let entries = initial_global_extended_attributes.entries();
        let mut i: usize = 0;
        while i < entries.len()
            invariant
                parser.wf(),
                parser.at_record_start(),
                parser.mode() == PaxConfidence::LOCAL,
                parser.unparsed_locals() == Map::<Seq<char>, Seq<char>>::empty(),
                parser.max_unparsed_locals() == max_unparsed_local_attributes,
                parser.max_globals() == max_global_attributes,
                parser.max_sparse_map() == max_sparse_file_instructions,
                entries@.len() == initial_global_extended_attributes.contents().dom().len(),
                parser.sparse_map().len() <= parser.max_sparse_map(),
                entries@.len() == 0 ==> parser.holds_no_path() && parser.sparse_map().len() == 0,
            decreases entries@.len() - i,
        {
            let key = entries[i].0.clone();
            let value = entries[i].1.clone();
            match parser.ingest_attribute(vh, PaxConfidence::GLOBAL, key, value) {
                Ok(()) => {},
                Err(e) => {
                    return Err(e);
                },
            }
            i = i + 1;
        }
        Ok(parser)
    }

    /// The global attributes seen so far, as text.
    pub fn global_extended_attributes(&self) -> (r: &StringMap)
        ensures
            r.contents() == self.globals(),
    {
        self.global_attributes.as_hash_map()
    }

    /// The sparse format the `GNU.sparse.major` and `GNU.sparse.minor` attributes name.
    pub fn get_sparse_format(&self) -> (r: Option<SparseFormat>)
        ensures
            r == self.sparse_format_spec(),
    {
        let major = match self.gnu_sparse_major.get() {
            Some(v) => Some(*v),
            None => None,
        };
        let minor = match self.gnu_sparse_minor.get() {
            Some(v) => Some(*v),
            None => None,
        };
        SparseFormat::try_from_gnu_version(major, minor)
    }

    /// Sets the kind of header the next records come from.
    pub fn set_current_pax_mode(&mut self, pax_confidence: PaxConfidence)
        ensures
            final(self).mode() == pax_confidence,
            final(self).wf() == old(self).wf(),
            final(self).at_record_start() == old(self).at_record_start(),
            final(self).globals() == old(self).globals(),
            final(self).unparsed_locals() == old(self).unparsed_locals(),
            final(self).max_unparsed_locals() == old(self).max_unparsed_locals(),
            final(self).max_globals() == old(self).max_globals(),
            final(self).max_sparse_map() == old(self).max_sparse_map(),
            final(self).sparse_map() == old(self).sparse_map(),
    {
        self.current_pax_mode = pax_confidence;
    }

    /// Forgets the attributes of the local header and any record half read.
    pub fn recover(&mut self)
        ensures
            final(self).wf(),
            final(self).at_record_start(),
            final(self).unparsed_locals() == Map::<Seq<char>, Seq<char>>::empty(),
            final(self).sparse_map() == Seq::<SparseFileInstruction>::empty(),
            final(self).path_value().local_value() is None,
            final(self).link_path_value().local_value() is None,
            final(self).uname_value().local_value() is None,
            final(self).gname_value().local_value() is None,
            final(self).uid_value().local_value() is None,
            final(self).gid_value().local_value() is None,
            final(self).size_value().local_value() is None,
            final(self).mtime_value().local_value() is None,
            final(self).globals() == old(self).globals(),
            final(self).path_value().global_value() == old(self).path_value().global_value(),
            final(self).link_path_value().global_value() == old(self).link_path_value().global_value(),
            final(self).uname_value().global_value() == old(self).uname_value().global_value(),
            final(self).gname_value().global_value() == old(self).gname_value().global_value(),
            final(self).uid_value().global_value() == old(self).uid_value().global_value(),
            final(self).gid_value().global_value() == old(self).gid_value().global_value(),
            final(self).size_value().global_value() == old(self).size_value().global_value(),
            final(self).mtime_value().global_value() == old(self).mtime_value().global_value(),
            final(self).atime_value().local_value() is None,
            final(self).atime_value().global_value() == old(self).atime_value().global_value(),
            final(self).ctime_value().local_value() is None,
            final(self).ctime_value().global_value() == old(self).ctime_value().global_value(),
            final(self).gnu_sparse_name_value().local_value() is None,
            final(self).gnu_sparse_name_value().global_value() == old(self).gnu_sparse_name_value().global_value(),
            final(self).gnu_sparse_major_value().local_value() is None,
            final(self).gnu_sparse_major_value().global_value() == old(self).gnu_sparse_major_value().global_value(),
            final(self).gnu_sparse_minor_value().local_value() is None,
            final(self).gnu_sparse_minor_value().global_value() == old(self).gnu_sparse_minor_value().global_value(),
            final(self).gnu_sparse_realsize_1_0_value().local_value() is None,
            final(self).gnu_sparse_realsize_1_0_value().global_value() == old(
                self,
            ).gnu_sparse_realsize_1_0_value().global_value(),
            final(self).gnu_sparse_realsize_0_01_value().local_value() is None,
            final(self).gnu_sparse_realsize_0_01_value().global_value() == old(
                self,
            ).gnu_sparse_realsize_0_01_value().global_value(),
            final(self).mode() == old(self).mode(),
            final(self).max_unparsed_locals() == old(self).max_unparsed_locals(),
            final(self).max_globals() == old(self).max_globals(),
            final(self).max_sparse_map() == old(self).max_sparse_map(),
            old(self).holds_no_path() ==> final(self).holds_no_path(),
    {
        self.unparsed_local_attributes.clear();
        self.gnu_sparse_name_01_01.reset_local();
        self.gnu_sparse_realsize_1_0.reset_local();
        self.gnu_sparse_major.reset_local();
        self.gnu_sparse_minor.reset_local();
        self.gnu_sparse_realsize_0_01.reset_local();
        self.gnu_sparse_map_local.clear();
        self.mtime.reset_local();
        self.atime.reset_local();
        self.ctime.reset_local();
        self.gid.reset_local();
        self.gname.reset_local();
        self.link_path.reset_local();
        self.path.reset_local();
        self.data_size.reset_local();
        self.uid.reset_local();
        self.uname.reset_local();
        self.state = fresh_state();
        self.sparse_instruction_builder = SparseFileInstructionBuilder::new();
    }

    /// Adds the entry of the sparse map put together so far, once it has an offset and a size.
    fn try_finish_sparse_instruction(&mut self) -> (r: Result<(), TarParserErrorKind>)
        ensures
            final(self).max_sparse_map() == old(self).max_sparse_map(),
            final(self).sparse_map().len() <= final(self).max_sparse_map() || final(self).sparse_map()
                == old(self).sparse_map(),
            r is Err ==> final(self).sparse_map() == old(self).sparse_map(),
            final(self).wf() == old(self).wf(),
            final(self).at_record_start() == old(self).at_record_start(),
            final(self).mode() == old(self).mode(),
            final(self).same_attributes_but_state(old(self)),
            final(self).path_value() == old(self).path_value(),
            (old(self).sparse_instruction_builder.offset_before, old(self).sparse_instruction_builder.data_size) matches (
                Some(o),
                Some(d),
            ) ==> (r is Ok ==> final(self).sparse_map() == old(self).sparse_map().push(
                SparseFileInstruction { offset_before: o, data_size: d },
            )) && (old(self).sparse_map().len() >= old(self).max_sparse_map() ==> r is Err),
            !(old(self).sparse_instruction_builder.offset_before is Some
                && old(self).sparse_instruction_builder.data_size is Some) ==> r is Ok && final(self).sparse_map()
                == old(self).sparse_map(),
    {
        match (self.sparse_instruction_builder.offset_before, self.sparse_instruction_builder.data_size) {
            (Some(offset_before), Some(data_size)) => {
                let instruction = SparseFileInstruction { offset_before, data_size };
                let limit = self.gnu_sparse_map_local.max_len();
                match self.gnu_sparse_map_local.push(instruction) {
                    Ok(()) => {},
                    Err(e) => {
                        return Err(
                            limit_exceeded_to_tar_err(
                                limit,
                                LimitExceededContext::TooManySparseFileInstructions,
                                e,
                            ),
                        );
                    },
                }
                self.sparse_instruction_builder = SparseFileInstructionBuilder::new();
                Ok(())
            },
            _ => Ok(()),
        }
    }

    /// Reads a sparse map of the 0.1 format: comma-separated decimal values
    /// `offset,size[,offset,size,...]`.
    fn parse_gnu_sparse_map_0_1<VH: TarViolationHandler>(
        &mut self,
        vh: &mut VHW<'_, VH>,
        value: &[u8],
    ) -> (r: Result<(), TarParserError>)
        ensures
            final(self).max_sparse_map() == old(self).max_sparse_map(),
            final(self).sparse_map().len() <= final(self).max_sparse_map() || final(self).sparse_map()
                == old(self).sparse_map(),
            final(self).wf() == old(self).wf(),
            final(self).at_record_start() == old(self).at_record_start(),
            final(self).mode() == old(self).mode(),
            final(self).same_attributes_but_state(old(self)),
            final(self).path_value() == old(self).path_value(),
            ({
                let parts = comma_parts_from(value@, 0);
                &&& r is Ok ==> old(self).sparse_map().is_prefix_of(final(self).sparse_map()) && is_subsequence(
                    final(self).sparse_map().skip(old(self).sparse_map().len() as int),
                    pairs_of(parts),
                )
                &&& parts.len() % 2 == 1 && part_number(parts.last()) is Some ==> r is Err
            }),
    {
        let mut offset: Option<u64> = None;
        let mut len_parts: usize = 0;
        let mut part_index: usize = 0;
        let mut start: usize = 0;
        let ghost initial_map = self.sparse_map();
        let ghost parts = comma_parts_from(value@, 0);
        let ghost mut k: int = 0;
        proof {
            assert(parts.take(0) + comma_parts_from(value@, 0) =~= parts);
            assert(self.sparse_map().skip(initial_map.len() as int) =~= Seq::<SparseFileInstruction>::empty());
            assert(parts.take(0).len() == 0);
        }
        loop
            invariant_except_break
                0 <= k <= start,
                part_index == k,
                parts.take(k) + comma_parts_from(value@, start as int) == parts,
            invariant
                start <= value@.len(),
                initial_map == old(self).sparse_map(),
                parts == comma_parts_from(value@, 0),
                0 <= k <= parts.len(),
                k % 2 == 0 ==> offset is None,
                k % 2 == 1 ==> offset == part_number(parts[k - 1]),
                initial_map.is_prefix_of(self.sparse_map()),
                is_subsequence(self.sparse_map().skip(initial_map.len() as int), pairs_of(parts.take(k))),
                self.max_sparse_map() == old(self).max_sparse_map(),
                self.sparse_map().len() <= self.max_sparse_map() || self.sparse_map() == old(self).sparse_map(),
                self.wf() == old(self).wf(),
                self.at_record_start() == old(self).at_record_start(),
                self.mode() == old(self).mode(),
                self.same_attributes_but_state(old(self)),
                self.path_value() == old(self).path_value(),
            ensures
                k == parts.len(),
            decreases value@.len() - start,
        {
            let mut end = start;
            while end < value.len() && value[end] != 0x2c
                invariant
                    start <= end <= value@.len(),
                    forall|j: int| start <= j < end ==> value@[j] != 0x2c,
                decreases value@.len() - end,
            {
                end = end + 1;
            }
            let part = &value[start..end];
            let ghost map0 = self.sparse_map();
            let ghost added0 = map0.skip(initial_map.len() as int);
            proof {
                lemma_next_comma_at(value@, start as int, end as int);
                if end < value.len() {
                    assert(comma_parts_from(value@, start as int) == seq![part@] + comma_parts_from(value@, end + 1));
                } else {
                    assert(comma_parts_from(value@, start as int) == seq![part@]);
                }
                assert((parts.take(k) + comma_parts_from(value@, start as int))[k] == part@);
                assert(parts[k] == part@);
                assert(parts.take(k + 1).drop_last() =~= parts.take(k));
                assert(parts.take(k + 1).last() == part@);
            }
            len_parts = part_index;
            let ghost mut did_push = false;
            let ghost mut item = SparseFileInstruction { offset_before: 0, data_size: 0 };
            if part_index % 2 == 0 {
                offset = match vh.hpvr(
                    match parse_u64(part) {
                        Ok(v) => Ok(v),
                        Err(e) => Err(
                            corrupt_field_to_tar_err(
                                CorruptFieldContext::GnuSparseMapOffsetValue(SparseFormat::Gnu0_1),
                                GeneralParseError::InvalidInteger(e),
                            ),
                        ),
                    },
                ) {
                    Ok(v) => v,
                    Err(e) => {
                        return Err(e);
                    },
                };
            } else {
                match offset {
                    Some(offset_before) => {
                        let size = match vh.hpvr(
                            match parse_u64(part) {
                                Ok(v) => Ok(v),
                                Err(e) => Err(
                                    corrupt_field_to_tar_err(
                                        CorruptFieldContext::GnuSparseMapSizeValue(
                                            SparseFormat::Gnu0_1,
                                        ),
                                        GeneralParseError::InvalidInteger(e),
                                    ),
                                ),
                            },
                        ) {
                            Ok(v) => v,
                            Err(e) => {
                                return Err(e);
                            },
                        };
                        match size {
                            Some(data_size) => {
                                let limit = self.gnu_sparse_map_local.max_len();
                                let pushed = match self.gnu_sparse_map_local.push(
                                    SparseFileInstruction { offset_before, data_size },
                                ) {
                                    Ok(()) => Ok(()),
                                    Err(e) => Err(
                                        limit_exceeded_to_tar_err(
                                            limit,
                                            LimitExceededContext::TooManySparseFileInstructions,
                                            e,
                                        ),
                                    ),
                                };
                                proof {
                                    item = SparseFileInstruction { offset_before, data_size };
                                    did_push = pushed is Ok;
                                }
                                match vh.hpvr(pushed) {
                                    Ok(_) => {},
                                    Err(e) => {
                                        return Err(e);
                                    },
                                }
                            },
                            None => {},
                        }
                    },
                    None => {},
                }
                offset = None;
            }
            proof {
                let t = parts.take(k + 1);
                let p0 = pairs_of(parts.take(k));
                let added = self.sparse_map().skip(initial_map.len() as int);
                if k % 2 == 0 {
                    assert(pairs_of(t) == p0);
                    assert(added =~= added0);
                } else {
                    assert(t.take(k - 1) =~= parts.take(k - 1));
                    assert(parts.take(k).drop_last() =~= parts.take(k - 1));
                    assert(pairs_of(parts.take(k)) == pairs_of(parts.take(k - 1)));
                    assert(t[k - 1] == parts[k - 1]);
                    assert(t[k] == parts[k]);
                    let p1 = pairs_of(t);
                    assert(p1 == p0 || p1 == p0.push(item));
                    if did_push {
                        assert(p1 == p0.push(item));
                        assert(added =~= added0.push(item));
                        assert(added.drop_last() =~= added0);
                        assert(p1.drop_last() =~= p0);
                        assert(is_subsequence(added, p1));
                    } else {
                        assert(added =~= added0);
                        if p1 == p0.push(item) {
                            assert(p1.drop_last() =~= p0);
                        }
                        assert(is_subsequence(added, p1));
                    }
                }
            }
            if part_index < usize::MAX {
                part_index = part_index + 1;
            }
            if end >= value.len() {
                proof {
                    assert(parts.take(k + 1) =~= parts);
                    k = k + 1;
                }
                break;
            }
            proof {
                assert(parts.take(k + 1) + comma_parts_from(value@, end + 1) =~= parts);
                k = k + 1;
            }
            start = end + 1;
        }
        proof {
            assert(parts.take(k) =~= parts);
            if parts.len() % 2 == 1 {
                assert(parts[k - 1] == parts.last());
            }
        }
        match offset {
            Some(_) => Err(
                TarParserError::new(
                    TarParserErrorKind::PaxParserError(PaxParserError::GnuSparseMapMalformed(len_parts)),
                    ErrorSeverity::Fatal,
                ),
            ),
            None => Ok(()),
        }
    }

    /// Stores one attribute of a header of the given kind: a well-known one parsed, another one
    /// as text. An attribute of a global header is also kept as text among the global ones.
    /// A value that does not parse, or a keyword that only a local header may carry, is a
    /// violation.
    #[verifier::spinoff_prover]
    #[verifier::rlimit(80)]
    pub fn ingest_attribute<VH: TarViolationHandler>(
        &mut self,
        vh: &mut VHW<'_, VH>,
        confidence: PaxConfidence,
        key: String,
        value: String,
    ) -> (r: Result<(), TarParserError>)
        ensures
            final(self).wf() == old(self).wf(),
            final(self).at_record_start() == old(self).at_record_start(),
            final(self).mode() == old(self).mode(),
            final(self).max_unparsed_locals() == old(self).max_unparsed_locals(),
            final(self).max_globals() == old(self).max_globals(),
            final(self).max_sparse_map() == old(self).max_sparse_map(),
            final(self).sparse_map().len() <= final(self).max_sparse_map() || final(self).sparse_map()
                == old(self).sparse_map(),
            confidence == PaxConfidence::LOCAL ==> final(self).globals() == old(self).globals(),
            confidence == PaxConfidence::GLOBAL || pax_key(key@) != PaxKey::Other ==> final(self).unparsed_locals() == old(self).unparsed_locals(),
            r is Ok ==> attribute_stored(*old(self), *final(self), confidence, key@, value@),
            attribute_acceptable(*old(self), confidence, key@, value@) ==> r is Ok,
    {
        if confidence == PaxConfidence::GLOBAL {
            let limit = self.global_attributes.max_keys();
            let inserted = match self.global_attributes.insert(key.clone(), value.clone()) {
                Ok(_) => Ok(()),
                Err(e) => Err(limit_exceeded_to_hashmap_err(limit, LimitExceededContext::PaxTooManyGlobalAttributes, e)),
            };
            match vh.hpvr(inserted) {
                Ok(_) => {},
                Err(e) => {
                    return Err(e);
                },
            }
        }
        let kind = classify_key(key.as_str());
        let bytes = value.as_str().as_bytes();
        match kind {
            PaxKey::GnuSparseName => {
                if confidence == PaxConfidence::LOCAL {
                    self.gnu_sparse_name_01_01.insert_with_confidence(confidence, value);
                } else {
                    return self.wrong_context(vh, GNU_SPARSE_NAME_01_01, confidence);
                }
            },
            PaxKey::GnuSparseRealSize1_0 => {
                if confidence == PaxConfidence::LOCAL {
                    match number_field(vh, bytes, usize::MAX as u64, CorruptFieldContext::GnuSparseRealFileSize(SparseFormat::Gnu1_0)) {
                        Ok(Some(v)) => {
                            self.gnu_sparse_realsize_1_0.insert_with_confidence(confidence, v as usize);
                        },
                        Ok(None) => {},
                        Err(e) => {
                            return Err(e);
                        },
                    }
                } else {
                    return self.wrong_context(vh, GNU_SPARSE_REALSIZE_1_0, confidence);
                }
            },
            PaxKey::GnuSparseMajor => {
                match number_field(vh, bytes, u32::MAX as u64, CorruptFieldContext::GnuSparseMajorVersion) {
                    Ok(Some(v)) => {
                        self.gnu_sparse_major.insert_with_confidence(confidence, v as u32);
                    },
                    Ok(None) => {},
                    Err(e) => {
                        return Err(e);
                    },
                }
            },
            PaxKey::GnuSparseMinor => {
                match number_field(vh, bytes, u32::MAX as u64, CorruptFieldContext::GnuSparseMinorVersion) {
                    Ok(Some(v)) => {
                        self.gnu_sparse_minor.insert_with_confidence(confidence, v as u32);
                    },
                    Ok(None) => {},
                    Err(e) => {
                        return Err(e);
                    },
                }
            },
            PaxKey::GnuSparseRealSize0_01 => {
                if confidence == PaxConfidence::LOCAL {
                    match number_field(vh, bytes, usize::MAX as u64, CorruptFieldContext::GnuSparseRealFileSize(SparseFormat::Gnu0_1)) {
                        Ok(Some(v)) => {
                            self.gnu_sparse_realsize_0_01.insert_with_confidence(confidence, v as usize);
                        },
                        Ok(None) => {},
                        Err(e) => {
                            return Err(e);
                        },
                    }
                } else {
                    return self.wrong_context(vh, GNU_SPARSE_REALSIZE_0_01, confidence);
                }
            },
            PaxKey::GnuSparseNumBlocks => {
                match number_field(vh, bytes, usize::MAX as u64, CorruptFieldContext::GnuSparseNumberOfMaps(SparseFormat::Gnu0_1)) {
                    Ok(Some(v)) => {
                        let limit = self.gnu_sparse_map_local.max_len();
                        let resized = match self.gnu_sparse_map_local.resize(v as usize, SparseFileInstruction { offset_before: 0, data_size: 0 }) {
                            Ok(()) => Ok(()),
                            Err(e) => Err(limit_exceeded_to_tar_err(limit, LimitExceededContext::TooManySparseFileInstructions, e)),
                        };
                        match vh.hpvr(resized) {
                            Ok(_) => {},
                            Err(e) => {
                                return Err(e);
                            },
                        }
                    },
                    Ok(None) => {},
                    Err(e) => {
                        return Err(e);
                    },
                }
            },
            PaxKey::GnuSparseOffset => {
                if confidence == PaxConfidence::LOCAL {
                    self.gnu_sparse_major.insert_with_confidence(PaxConfidence::LOCAL, 0);
                    self.gnu_sparse_minor.insert_with_confidence(PaxConfidence::LOCAL, 0);
                    match number_field(vh, bytes, u64::MAX, CorruptFieldContext::GnuSparseMapOffsetValue(SparseFormat::Gnu0_0)) {
                        Ok(Some(v)) => {
                            self.sparse_instruction_builder.offset_before = Some(v);
                        },
                        Ok(None) => {},
                        Err(e) => {
                            return Err(e);
                        },
                    }
                    let finished = self.try_finish_sparse_instruction();
                    match vh.hpvr(finished) {
                        Ok(_) => {},
                        Err(e) => {
                            return Err(e);
                        },
                    }
                } else {
                    return self.wrong_context(vh, GNU_SPARSE_DATA_BLOCK_OFFSET_0_0, confidence);
                }
            },
            PaxKey::GnuSparseNumBytes => {
                if confidence == PaxConfidence::LOCAL {
                    self.gnu_sparse_major.insert_with_confidence(PaxConfidence::LOCAL, 0);
                    self.gnu_sparse_minor.insert_with_confidence(PaxConfidence::LOCAL, 0);
                    match number_field(vh, bytes, u64::MAX, CorruptFieldContext::GnuSparseMapSizeValue(SparseFormat::Gnu0_0)) {
                        Ok(Some(v)) => {
                            self.sparse_instruction_builder.data_size = Some(v);
                        },
                        Ok(None) => {},
                        Err(e) => {
                            return Err(e);
                        },
                    }
                    let finished = self.try_finish_sparse_instruction();
                    match vh.hpvr(finished) {
                        Ok(_) => {},
                        Err(e) => {
                            return Err(e);
                        },
                    }
                } else {
                    return self.wrong_context(vh, GNU_SPARSE_DATA_BLOCK_SIZE_0_0, confidence);
                }
            },
            PaxKey::GnuSparseMap => {
                if confidence == PaxConfidence::LOCAL {
                    self.gnu_sparse_major.insert_with_confidence(PaxConfidence::LOCAL, 0);
                    self.gnu_sparse_minor.insert_with_confidence(PaxConfidence::LOCAL, 1);
                    match self.parse_gnu_sparse_map_0_1(vh, bytes) {
                        Ok(()) => {},
                        Err(e) => {
                            return Err(e);
                        },
                    }
                } else {
                    return self.wrong_context(vh, GNU_SPARSE_MAP_0_1, confidence);
                }
            },
            PaxKey::Atime => {
                match time_field(vh, bytes, CorruptFieldContext::PaxWellKnownAtime) {
                    Ok(Some(t)) => {
                        self.atime.insert_with_confidence(confidence, t);
                    },
                    Ok(None) => {},
                    Err(e) => {
                        return Err(e);
                    },
                }
            },
            PaxKey::Gid => {
                match number_field(vh, bytes, u32::MAX as u64, CorruptFieldContext::PaxWellKnownGid) {
                    Ok(Some(v)) => {
                        self.gid.insert_with_confidence(confidence, v as u32);
                    },
                    Ok(None) => {},
                    Err(e) => {
                        return Err(e);
                    },
                }
            },
            PaxKey::Gname => {
                self.gname.insert_with_confidence(confidence, value);
            },
            PaxKey::Linkpath => {
                self.link_path.insert_with_confidence(confidence, value);
            },
            PaxKey::Mtime => {
                match time_field(vh, bytes, CorruptFieldContext::PaxWellKnownMtime) {
                    Ok(Some(t)) => {
                        self.mtime.insert_with_confidence(confidence, t);
                    },
                    Ok(None) => {},
                    Err(e) => {
                        return Err(e);
                    },
                }
            },
            PaxKey::Ctime => {
                match time_field(vh, bytes, CorruptFieldContext::PaxWellKnownCtime) {
                    Ok(Some(t)) => {
                        self.ctime.insert_with_confidence(confidence, t);
                    },
                    Ok(None) => {},
                    Err(e) => {
                        return Err(e);
                    },
                }
            },
            PaxKey::Path => {
                self.path.insert_with_confidence(confidence, value);
            },
            PaxKey::Size => {
                match number_field(vh, bytes, usize::MAX as u64, CorruptFieldContext::PaxWellKnownSize) {
                    Ok(Some(v)) => {
                        self.data_size.insert_with_confidence(confidence, v as usize);
                    },
                    Ok(None) => {},
                    Err(e) => {
                        return Err(e);
                    },
                }
            },
            PaxKey::Uid => {
                match number_field(vh, bytes, u32::MAX as u64, CorruptFieldContext::PaxWellKnownUid) {
                    Ok(Some(v)) => {
                        self.uid.insert_with_confidence(confidence, v as u32);
                    },
                    Ok(None) => {},
                    Err(e) => {
                        return Err(e);
                    },
                }
            },
            PaxKey::Uname => {
                self.uname.insert_with_confidence(confidence, value);
            },
            PaxKey::Other => {
                match confidence {
                    PaxConfidence::GLOBAL => {
                        let limit = self.unparsed_global_attributes.max_keys();
                        let inserted = match self.unparsed_global_attributes.insert(key, value) {
                            Ok(_) => Ok(()),
                            Err(e) => Err(limit_exceeded_to_hashmap_err(limit, LimitExceededContext::PaxTooManyUnparsedGlobalAttributes, e)),
                        };
                        match vh.hpvr(inserted) {
                            Ok(_) => {},
                            Err(e) => {
                                return Err(e);
                            },
                        }
                    },
                    PaxConfidence::LOCAL => {
                        let limit = self.unparsed_local_attributes.max_keys();
                        let inserted = match self.unparsed_local_attributes.insert(key, value) {
                            Ok(_) => Ok(()),
                            Err(e) => Err(limit_exceeded_to_hashmap_err(limit, LimitExceededContext::PaxTooManyUnparsedLocalAttributes, e)),
                        };
                        match vh.hpvr(inserted) {
                            Ok(_) => {},
                            Err(e) => {
                                return Err(e);
                            },
                        }
                    },
                }
            },
        }
        Ok(())
    }

    /// Reports a keyword that only a local header may carry, found in a global one.
    fn wrong_context<VH: TarViolationHandler>(&self, vh: &mut VHW<'_, VH>, key: &'static str, confidence: PaxConfidence) -> (r: Result<(), TarParserError>)
        ensures
            r == Ok::<(), TarParserError>(()) || r == Err::<(), TarParserError>(
                violation(
                    TarParserErrorKind::PaxParserError(
                        PaxParserError::WellKnownKeyAppearedInWrongPaxContext {
                            key,
                            expected_context: PaxConfidence::LOCAL,
                            actual_context: confidence,
                        },
                    ),
                ),
            ),
    {
        vh.hpve(
            TarParserErrorKind::PaxParserError(
                PaxParserError::WellKnownKeyAppearedInWrongPaxContext {
                    key,
                    expected_context: PaxConfidence::LOCAL,
                    actual_context: confidence,
                },
            ),
        )
    }

    /// Reads the decimal length of a record, up to the space after it.
    fn state_parsing_new_kv<VH: TarViolationHandler>(
        &mut self,
        vh: &mut VHW<'_, VH>,
        input: &[u8],
        pos: &mut usize,
        state: StateParsingNewKV,
    ) -> (r: Result<PaxParserState, TarParserError>)
        requires
            *old(pos) <= input@.len(),
        ensures
            *old(pos) <= *final(pos) <= input@.len(),
            r matches Ok(s) ==> (state.kv_digits.limit() == MAX_KV_LENGTH_FIELD_LENGTH ==> s.wf()),
            final(self).same_attributes(old(self)),
            *old(pos) == input@.len() ==> *final(pos) == *old(pos) && (r matches Ok(
                PaxParserState::ParsingNewKV(s2),
            ) && s2.kv_digits.items() == state.kv_digits.items() && s2.kv_digits.limit()
                == state.kv_digits.limit()),
            state.kv_digits.items().len() == 0 && ({
                let sp = first_delimiter(input@, 0x20, 0x0a, *old(pos) as int);
                let digits = input@.subrange(*old(pos) as int, sp);
                &&& sp < input@.len()
                &&& sp - *old(pos) <= state.kv_digits.limit()
                &&& valid_utf8(digits)
                &&& parse_uint_spec(digits, 10, usize::MAX as nat) matches Ok(length)
                &&& length > digits.len() + 1
            }) && r is Ok ==> ({
                let sp = first_delimiter(input@, 0x20, 0x0a, *old(pos) as int);
                let digits = input@.subrange(*old(pos) as int, sp);
                &&& *final(pos) == sp + 1
                &&& r matches Ok(PaxParserState::ParsingKey(k))
                &&& k.length == parse_uint_spec(digits, 10, usize::MAX as nat)->Ok_0 - digits.len() - 1
                &&& final(self).pax_key_value_buffer.items().len() == 0
            }),
            state.kv_digits.items().len() == 0 && ({
                let sp = first_delimiter(input@, 0x20, 0x0a, *old(pos) as int);
                let digits = input@.subrange(*old(pos) as int, sp);
                &&& sp < input@.len()
                &&& sp - *old(pos) <= state.kv_digits.limit()
                &&& valid_utf8(digits)
                &&& parse_uint_spec(digits, 10, usize::MAX as nat) matches Ok(length)
                &&& length > digits.len() + 1
            }) ==> (r matches Err(e) ==> is_memory_error(e)),
            state.kv_digits.items().len() == 0 && ({
                let sp = first_delimiter(input@, 0x20, 0x0a, *old(pos) as int);
                let digits = input@.subrange(*old(pos) as int, sp);
                &&& sp < input@.len()
                &&& sp - *old(pos) <= state.kv_digits.limit()
                &&& (!valid_utf8(digits) || parse_uint_spec(digits, 10, usize::MAX as nat) is Err)
            }) ==> (r matches Err(e) && bad_length_field_error(
                e,
                input@.subrange(*old(pos) as int, first_delimiter(input@, 0x20, 0x0a, *old(pos) as int)),
            )),
            final(self).wf() == old(self).wf(),
            final(self).mode() == old(self).mode(),
            final(self).same_attributes_but_state(old(self)),
            final(self).path_value() == old(self).path_value(),
            final(self).sparse_map() == old(self).sparse_map(),
            final(self).max_sparse_map() == old(self).max_sparse_map(),
            final(self).max_unparsed_locals() == old(self).max_unparsed_locals(),
            final(self).max_globals() == old(self).max_globals(),
    {
        let mut state = state;
        let ghost start = *pos;
        let ghost fresh_field = state.kv_digits.items().len() == 0;
        match copy_until(input, pos, &mut state.kv_digits, 0x20, 0x0a) {
            CopyUntil::Found => {
                proof {
                    lemma_first_delimiter(input@, 0x20, 0x0a, start as int, *pos - 1);
                }
            },
            CopyUntil::NotFound => {
                proof {
                    if first_delimiter(input@, 0x20, 0x0a, start as int) < input@.len() {
                        lemma_first_delimiter_found(input@, 0x20, 0x0a, start as int);
                    }
                }
                return Ok(PaxParserState::ParsingNewKV(state));
            },
            CopyUntil::Full => {
                return Err(
                    TarParserError::new(
                        TarParserErrorKind::LimitExceeded {
                            limit: MAX_KV_LENGTH_FIELD_LENGTH,
                            context: LimitExceededContext::PaxLengthFieldDecimalStringTooLong,
                        },
                        ErrorSeverity::Fatal,
                    ),
                );
            },
        }
        let digits = state.kv_digits.as_slice();
        let checked = match str_from_utf8(digits) {
            Ok(_) => Ok(()),
            Err(e) => Err(corrupt_field_to_tar_err(CorruptFieldContext::PaxKvLength, GeneralParseError::InvalidUtf8(e))),
        };
        match vh.hfvr(checked) {
            Ok(()) => {},
            Err(e) => {
                return Err(e);
            },
        }
        let parsed = match parse_usize(digits) {
            Ok(v) => Ok(v),
            Err(e) => Err(corrupt_field_to_tar_err(CorruptFieldContext::PaxKvLength, GeneralParseError::InvalidInteger(e))),
        };
        let length = match vh.hfvr(parsed) {
            Ok(v) => v,
            Err(e) => {
                return Err(e);
            },
        };
        let digit_count = digits.len();
        if length <= digit_count || length - digit_count <= 1 {
            return Ok(fresh_state());
        }
        self.pax_key_value_buffer.clear();
        Ok(PaxParserState::ParsingKey(StateParsingKey { length: length - digit_count - 1 }))
    }

    /// Reads the keyword of a record, up to the `=` after it.
    fn state_parsing_key<VH: TarViolationHandler>(
        &mut self,
        vh: &mut VHW<'_, VH>,
        input: &[u8],
        pos: &mut usize,
        state: StateParsingKey,
    ) -> (r: Result<PaxParserState, TarParserError>)
        requires
            *old(pos) <= input@.len(),
        ensures
            *old(pos) <= *final(pos) <= input@.len(),
            r matches Ok(s) ==> s.wf(),
            final(self).wf() == old(self).wf(),
            final(self).mode() == old(self).mode(),
            final(self).same_attributes_but_state(old(self)),
            final(self).path_value() == old(self).path_value(),
            final(self).sparse_map() == old(self).sparse_map(),
            final(self).max_sparse_map() == old(self).max_sparse_map(),
            final(self).max_unparsed_locals() == old(self).max_unparsed_locals(),
            final(self).max_globals() == old(self).max_globals(),
            final(self).same_attributes(old(self)),
            old(self).pax_key_value_buffer.items().len() == 0 && ({
                let eq = first_delimiter(input@, 0x3d, 0x3d, *old(pos) as int);
                let key = input@.subrange(*old(pos) as int, eq);
                &&& eq < input@.len()
                &&& key.len() <= old(self).pax_key_value_buffer.limit()
                &&& state.length > key.len() + 1
                &&& valid_utf8(key)
            }) && r is Ok ==> ({
                let eq = first_delimiter(input@, 0x3d, 0x3d, *old(pos) as int);
                let key = input@.subrange(*old(pos) as int, eq);
                &&& *final(pos) == eq + 1
                &&& r matches Ok(PaxParserState::ParsingValue(v))
                &&& v.key@ == decode_utf8(key)
                &&& v.length_after_equals == state.length - key.len() - 1
                &&& final(self).pax_key_value_buffer.items().len() == 0
            }),
            old(self).pax_key_value_buffer.items().len() == 0 && ({
                let eq = first_delimiter(input@, 0x3d, 0x3d, *old(pos) as int);
                let key = input@.subrange(*old(pos) as int, eq);
                &&& eq < input@.len()
                &&& key.len() <= old(self).pax_key_value_buffer.limit()
                &&& state.length > key.len() + 1
                &&& valid_utf8(key)
            }) ==> (r matches Err(e) ==> is_memory_error(e)),
    {
        let ghost start = *pos;
        match copy_until(input, pos, &mut self.pax_key_value_buffer, 0x3d, 0x3d) {
            CopyUntil::Found => {
                proof {
                    lemma_first_delimiter(input@, 0x3d, 0x3d, start as int, *pos - 1);
                }
            },
            CopyUntil::NotFound => {
                proof {
                    if first_delimiter(input@, 0x3d, 0x3d, start as int) < input@.len() {
                        lemma_first_delimiter_found(input@, 0x3d, 0x3d, start as int);
                    }
                }
                return Ok(PaxParserState::ParsingKey(state));
            },
            CopyUntil::Full => {
                let limit = self.pax_key_value_buffer.max_len();
                return vh.hfve(
                    TarParserErrorKind::LimitExceeded {
                        limit,
                        context: LimitExceededContext::PaxKvKeyTooLong,
                    },
                );
            },
        }
        let key_len = self.pax_key_value_buffer.len();
        if state.length <= key_len || state.length - key_len <= 1 {
            return Ok(fresh_state());
        }
        let length_after_equals = state.length - key_len - 1;
        let key = {
            let key_bytes = self.pax_key_value_buffer.as_slice();
            let checked = match str_from_utf8(key_bytes) {
                Ok(k) => Ok(k),
                Err(e) => Err(corrupt_field_to_tar_err(CorruptFieldContext::PaxKvKey, GeneralParseError::InvalidUtf8(e))),
            };
            match vh.hfvr(checked) {
                Ok(k) => k.to_owned(),
                Err(e) => {
                    return Err(e);
                },
            }
        };
        self.pax_key_value_buffer.clear();
        Ok(PaxParserState::ParsingValue(StateParsingValue { key, length_after_equals }))
    }

    /// Reads the value of a record and the newline after it, then stores the attribute.
    fn state_parsing_value<VH: TarViolationHandler>(
        &mut self,
        vh: &mut VHW<'_, VH>,
        input: &[u8],
        pos: &mut usize,
        state: StateParsingValue,
    ) -> (r: Result<PaxParserState, TarParserError>)
        requires
            *old(pos) <= input@.len(),
        ensures
            *old(pos) <= *final(pos) <= input@.len(),
            r matches Ok(s) ==> s.wf(),
            final(self).wf() == old(self).wf(),
            final(self).mode() == old(self).mode(),
            final(self).max_sparse_map() == old(self).max_sparse_map(),
            final(self).sparse_map().len() <= final(self).max_sparse_map() || final(self).sparse_map()
                == old(self).sparse_map(),
            final(self).max_unparsed_locals() == old(self).max_unparsed_locals(),
            final(self).max_globals() == old(self).max_globals(),
            old(self).pax_key_value_buffer.items().len() == 0 && ({
                let value = input@.subrange(*old(pos) as int, input@.len() - 1);
                &&& *old(pos) < input@.len()
                &&& state.length_after_equals == input@.len() - *old(pos)
                &&& input@[input@.len() - 1] == 0x0a
                &&& value.len() <= old(self).pax_key_value_buffer.limit()
                &&& valid_utf8(value)
            }) && r is Ok ==> ({
                &&& *final(pos) == input@.len()
                &&& r matches Ok(s) && s.is_fresh()
                &&& attribute_stored(
                    *old(self),
                    *final(self),
                    old(self).mode(),
                    state.key@,
                    decode_utf8(input@.subrange(*old(pos) as int, input@.len() - 1)),
                )
            }),
            old(self).pax_key_value_buffer.items().len() == 0 && ({
                let value = input@.subrange(*old(pos) as int, input@.len() - 1);
                &&& *old(pos) < input@.len()
                &&& state.length_after_equals == input@.len() - *old(pos)
                &&& input@[input@.len() - 1] == 0x0a
                &&& value.len() <= old(self).pax_key_value_buffer.limit()
                &&& valid_utf8(value)
                &&& attribute_acceptable(*old(self), old(self).mode(), state.key@, decode_utf8(value))
            }) ==> (r matches Err(e) ==> is_memory_error(e)),
    {
        let value_len = if state.length_after_equals > 0 {
            state.length_after_equals - 1
        } else {
            0
        };
        let have = self.pax_key_value_buffer.len();
        let needed = if value_len > have {
            value_len - have
        } else {
            0
        };
        let available = input.len() - *pos;
        let take = if needed < available {
            needed
        } else {
            available
        };
        let start = *pos;
        let limit = self.pax_key_value_buffer.max_len();
        let extended = match self.pax_key_value_buffer.extend_from_slice(&input[start..start + take]) {
            Ok(()) => Ok(()),
            Err(e) => Err(limit_exceeded_to_tar_err(limit, LimitExceededContext::PaxKvValueTooLong, e)),
        };
        *pos = start + take;
        match vh.hfvr(extended) {
            Ok(()) => {},
            Err(e) => {
                return Err(e);
            },
        }
        if self.pax_key_value_buffer.len() < value_len {
            return Ok(PaxParserState::ParsingValue(state));
        }
        if *pos >= input.len() {
            return Ok(PaxParserState::ParsingValue(state));
        }
        if input[*pos] != 0x0a {
            match vh.hpve(TarParserErrorKind::PaxParserError(PaxParserError::KeyValuePairMissingNewline)) {
                Ok(()) => {},
                Err(e) => {
                    return Err(e);
                },
            }
        } else {
            *pos = *pos + 1;
        }
        let value = {
            let value_bytes = self.pax_key_value_buffer.as_slice();
            let checked = match str_from_utf8(value_bytes) {
                Ok(v) => Ok(v),
                Err(e) => Err(corrupt_field_to_tar_err(CorruptFieldContext::PaxKvValue, GeneralParseError::InvalidUtf8(e))),
            };
            match vh.hfvr(checked) {
                Ok(v) => v.to_owned(),
                Err(e) => {
                    return Err(e);
                },
            }
        };
        let mode = self.current_pax_mode;
        match self.ingest_attribute(vh, mode, state.key, value) {
            Ok(()) => {},
            Err(e) => {
                return Err(e);
            },
        }
        Ok(fresh_state())
    }

    /// Parses as much of `input_buffer` as the state allows and returns the number of bytes
    /// consumed; a record may be split over calls in any way.
    /// After an error the parser stands at the start of a record.
    /// Given exactly one whole record at the start of a record, it takes all of it, stores the
    /// attribute the record names, and stands at the start of the next record.
    pub fn parse<VH: TarViolationHandler>(&mut self, vh: &mut VHW<'_, VH>, input_buffer: &[u8]) -> (r: Result<usize, TarParserError>)
        ensures
            old(self).wf() ==> final(self).wf(),
            r matches Ok(n) ==> n <= input_buffer@.len(),
            final(self).mode() == old(self).mode(),
            final(self).max_sparse_map() == old(self).max_sparse_map(),
            old(self).sparse_map().len() <= old(self).max_sparse_map() ==> final(self).sparse_map().len()
                <= final(self).max_sparse_map(),
            final(self).max_unparsed_locals() == old(self).max_unparsed_locals(),
            final(self).max_globals() == old(self).max_globals(),
            old(self).wf() && old(self).at_record_start() && is_whole_record(
                input_buffer@,
                old(self).max_field_len() as nat,
            ) && r is Ok ==> {
                &&& r == Ok::<usize, TarParserError>(input_buffer@.len() as usize)
                &&& final(self).at_record_start()
                &&& attribute_stored(
                    *old(self),
                    *final(self),
                    old(self).mode(),
                    decode_utf8(record_key(input_buffer@)),
                    decode_utf8(record_value(input_buffer@)),
                )
            },
            old(self).wf() && old(self).at_record_start() && is_whole_record(
                input_buffer@,
                old(self).max_field_len() as nat,
            ) && attribute_acceptable(
                *old(self),
                old(self).mode(),
                decode_utf8(record_key(input_buffer@)),
                decode_utf8(record_value(input_buffer@)),
            ) ==> (r matches Err(e) ==> is_memory_error(e)),
            old(self).wf() && old(self).at_record_start() && record_length_end(input_buffer@) < input_buffer@.len()
                && record_length_end(input_buffer@) <= MAX_KV_LENGTH_FIELD_LENGTH && (!valid_utf8(
                input_buffer@.take(record_length_end(input_buffer@)),
            ) || parse_uint_spec(input_buffer@.take(record_length_end(input_buffer@)), 10, usize::MAX as nat)
                is Err) ==> (r matches Err(e) && bad_length_field_error(e, input_buffer@.take(record_length_end(input_buffer@)))),
    {
        let mut pos: usize = 0;
        let ghost input = input_buffer@;
        let ghost len = input_buffer@.len() as int;
        let ghost whole = old(self).wf() && old(self).at_record_start() && is_whole_record(
            input,
            old(self).max_field_len() as nat,
        );
        let ghost sp = record_length_end(input);
        let ghost eq = record_key_end(input);
        proof {
            if whole {
                lemma_first_delimiter_found(input, 0x3d, 0x3d, sp + 1);
                assert(input.subrange(0, sp) =~= input.take(sp));
            }
        }
        let ghost bad_length = old(self).wf() && old(self).at_record_start() && record_length_end(input)
            < input.len() && record_length_end(input) <= MAX_KV_LENGTH_FIELD_LENGTH && (!valid_utf8(
            input.take(record_length_end(input)),
        ) || parse_uint_spec(input.take(record_length_end(input)), 10, usize::MAX as nat) is Err);
        proof {
            if bad_length {
                assert(input.subrange(0, record_length_end(input)) =~= input.take(record_length_end(input)));
            }
        }
        loop
            invariant
                pos <= input_buffer@.len(),
                input == input_buffer@,
                pos == 0 ==> *self == *old(self),
                bad_length == (old(self).wf() && old(self).at_record_start() && record_length_end(input)
                    < input.len() && record_length_end(input) <= MAX_KV_LENGTH_FIELD_LENGTH && (!valid_utf8(
                    input.take(record_length_end(input)),
                ) || parse_uint_spec(input.take(record_length_end(input)), 10, usize::MAX as nat) is Err)),
                bad_length ==> input.subrange(0, record_length_end(input)) == input.take(record_length_end(input)),
                bad_length ==> pos == 0,
                len == input.len(),
                old(self).wf() ==> self.wf(),
                self.mode() == old(self).mode(),
                self.max_sparse_map() == old(self).max_sparse_map(),
                old(self).sparse_map().len() <= old(self).max_sparse_map() ==> self.sparse_map().len()
                    <= self.max_sparse_map(),
                self.max_unparsed_locals() == old(self).max_unparsed_locals(),
                self.max_globals() == old(self).max_globals(),
                whole == (old(self).wf() && old(self).at_record_start() && is_whole_record(
                    input,
                    old(self).max_field_len() as nat,
                )),
                sp == record_length_end(input),
                eq == record_key_end(input),
                whole ==> sp + 1 <= eq && eq + 2 <= len,
                whole ==> input.subrange(0, sp) == input.take(sp),
                whole ==> {
                    ||| (pos == 0 && self.at_record_start() && self.same_attributes(old(self)))
                    ||| {
                        &&& pos == sp + 1
                        &&& self.state matches PaxParserState::ParsingKey(k)
                        &&& k.length == len - sp - 1
                        &&& self.pax_key_value_buffer.items().len() == 0
                        &&& self.same_attributes(old(self))
                    }
                    ||| {
                        &&& pos == eq + 1
                        &&& self.state matches PaxParserState::ParsingValue(v)
                        &&& v.key@ == decode_utf8(record_key(input))
                        &&& v.length_after_equals == len - eq - 1
                        &&& self.pax_key_value_buffer.items().len() == 0
                        &&& self.same_attributes(old(self))
                    }
                    ||| (pos == len && self.at_record_start() && attribute_stored(
                        *old(self),
                        *self,
                        old(self).mode(),
                        decode_utf8(record_key(input)),
                        decode_utf8(record_value(input)),
                    ))
                },
            decreases input_buffer@.len() - pos,
        {
            let mut state = fresh_state();
            core::mem::swap(&mut state, &mut self.state);
            let before = pos;
            let ghost at_head = *self;
            let next = match state {
                PaxParserState::ParsingNewKV(s) => self.state_parsing_new_kv(vh, input_buffer, &mut pos, s),
                PaxParserState::ParsingKey(s) => self.state_parsing_key(vh, input_buffer, &mut pos, s),
                PaxParserState::ParsingValue(s) => self.state_parsing_value(vh, input_buffer, &mut pos, s),
            };
            match next {
                Ok(s) => {
                    self.state = s;
                },
                Err(e) => {
                    proof {
                        if whole && attribute_acceptable(
                            *old(self),
                            old(self).mode(),
                            decode_utf8(record_key(input)),
                            decode_utf8(record_value(input)),
                        ) {
                            assert(attribute_acceptable(
                                at_head,
                                old(self).mode(),
                                decode_utf8(record_key(input)),
                                decode_utf8(record_value(input)),
                            ));
                            assert(is_memory_error(e));
                        }
                    }
                    return Err(e);
                },
            }
            if pos == before {
                return Ok(pos);
            }
        }
    }

    /// Gives the builder of the next entry the attributes that count, each with the confidence of
    /// the kind of header it came from, where the builder holds nothing more trusted.
    pub fn load_pax_attributes_into_inode_builder(&self, inode_builder: &mut InodeBuilder)
        ensures
            final(inode_builder).file_path.held() == updated(
                if old(inode_builder).sparse_format is None && self.sparse_format_spec() is Some {
                    updated(old(inode_builder).file_path.held(), pax_held(self.gnu_sparse_name_value()))
                } else {
                    old(inode_builder).file_path.held()
                },
                pax_held(self.path_value()),
            ),
            final(inode_builder).link_target.held() == updated(
                old(inode_builder).link_target.held(),
                pax_held(self.link_path_value()),
            ),
            final(inode_builder).uname.held() == updated(old(inode_builder).uname.held(), pax_held(self.uname_value())),
            final(inode_builder).gname.held() == updated(old(inode_builder).gname.held(), pax_held(self.gname_value())),
            final(inode_builder).uid.held() == updated(old(inode_builder).uid.held(), pax_held(self.uid_value())),
            final(inode_builder).gid.held() == updated(old(inode_builder).gid.held(), pax_held(self.gid_value())),
            final(inode_builder).mtime.held() == updated(old(inode_builder).mtime.held(), pax_held(self.mtime_value())),
            final(inode_builder).atime.held() == updated(old(inode_builder).atime.held(), pax_held(self.atime_value())),
            final(inode_builder).ctime.held() == updated(old(inode_builder).ctime.held(), pax_held(self.ctime_value())),
            final(inode_builder).data_after_header_size.held() == updated(
                old(inode_builder).data_after_header_size.held(),
                pax_held(self.size_value()),
            ),
            final(inode_builder).sparse_format == (if old(inode_builder).sparse_format is None {
                self.sparse_format_spec()
            } else {
                old(inode_builder).sparse_format
            }),
            final(inode_builder).mode == old(inode_builder).mode,
            final(inode_builder).dev_major == old(inode_builder).dev_major,
            final(inode_builder).dev_minor == old(inode_builder).dev_minor,
            final(inode_builder).contiguous_file == old(inode_builder).contiguous_file,
            final(inode_builder).data == old(inode_builder).data,
            ({
                let newly = old(inode_builder).sparse_format is None && self.sparse_format_spec() is Some;
                let from_map = newly && (self.sparse_format_spec() == Some(SparseFormat::Gnu0_0)
                    || self.sparse_format_spec() == Some(SparseFormat::Gnu0_1));
                &&& final(inode_builder).sparse_file_instructions.items() == (if from_map {
                    self.sparse_map()
                } else {
                    old(inode_builder).sparse_file_instructions.items()
                })
                &&& final(inode_builder).sparse_file_instructions.limit() == (if from_map {
                    self.max_sparse_map()
                } else {
                    old(inode_builder).sparse_file_instructions.limit()
                })
                &&& final(inode_builder).sparse_real_size.held() == (if newly {
                    updated(
                        old(inode_builder).sparse_real_size.held(),
                        pax_held(
                            if self.gnu_sparse_realsize_1_0_value().current() is Some {
                                self.gnu_sparse_realsize_1_0_value()
                            } else {
                                self.gnu_sparse_realsize_0_01_value()
                            },
                        ),
                    )
                } else {
                    old(inode_builder).sparse_real_size.held()
                })
            }),
    {
        match self.get_sparse_format() {
            Some(sparse_format) => {
                if inode_builder.sparse_format.is_none() {
                    inode_builder.sparse_format = Some(sparse_format);
                    inode_builder.file_path.update_with(text_value(&self.gnu_sparse_name_01_01));
                    let real_size = if self.gnu_sparse_realsize_1_0.get().is_some() {
                        copy_value(&self.gnu_sparse_realsize_1_0)
                    } else {
                        copy_value(&self.gnu_sparse_realsize_0_01)
                    };
                    inode_builder.sparse_real_size.update_with(real_size);
                    if sparse_format == SparseFormat::Gnu0_0 || sparse_format == SparseFormat::Gnu0_1 {
                        inode_builder.sparse_file_instructions = LimitedVec::from_vec(
                            self.gnu_sparse_map_local.max_len(),
                            self.gnu_sparse_map_local.to_vec(),
                        );
                    }
                }
            },
            None => {},
        }
        inode_builder.file_path.update_with(text_value(&self.path));
        inode_builder.mtime.update_with(copy_value(&self.mtime));
        inode_builder.atime.update_with(copy_value(&self.atime));
        inode_builder.ctime.update_with(copy_value(&self.ctime));
        inode_builder.gid.update_with(copy_value(&self.gid));
        inode_builder.gname.update_with(text_value(&self.gname));
        inode_builder.link_target.update_with(text_value(&self.link_path));
        inode_builder.data_after_header_size.update_with(copy_value(&self.data_size));
        inode_builder.uid.update_with(copy_value(&self.uid));
        inode_builder.uname.update_with(text_value(&self.uname));
    }

    /// The global attributes and the unparsed local ones, as one map; the unparsed local ones
    /// are taken out of the parser.
    pub fn drain_local_unparsed_attributes(&mut self) -> (r: StringMap)
        ensures
            final(self).unparsed_locals() == Map::<Seq<char>, Seq<char>>::empty(),
            forall|k: Seq<char>|
                old(self).unparsed_locals().dom().contains(k) ==> #[trigger] r.contents().dom().contains(k)
                    && r.contents()[k] == old(self).unparsed_locals()[k],
            forall|k: Seq<char>|
                !old(self).unparsed_locals().dom().contains(k) ==> (#[trigger] r.contents().dom().contains(k)
                    <==> old(self).globals().dom().contains(k)) && (r.contents().dom().contains(k)
                    ==> r.contents()[k] == old(self).globals()[k]),
            final(self).globals() == old(self).globals(),
            final(self).wf() == old(self).wf(),
            final(self).at_record_start() == old(self).at_record_start(),
            final(self).mode() == old(self).mode(),
            final(self).max_unparsed_locals() == old(self).max_unparsed_locals(),
            final(self).holds_no_path() == old(self).holds_no_path(),
            final(self).max_globals() == old(self).max_globals(),
            final(self).max_sparse_map() == old(self).max_sparse_map(),
            final(self).sparse_map() == old(self).sparse_map(),
    {
        let mut combined = self.global_attributes.as_hash_map().duplicate();
        let locals = self.unparsed_local_attributes.entries();
        let ghost globals0 = old(self).globals();
        let ghost locals0 = old(self).unparsed_locals();
        let mut i: usize = 0;
        while i < locals.len()
            invariant
                i <= locals@.len(),
                forall|j: int|
                    0 <= j < locals@.len() ==> locals0.dom().contains(#[trigger] locals@[j].0@)
                        && locals0[locals@[j].0@] == locals@[j].1@,
                forall|j: int, l: int|
                    0 <= j < l < locals@.len() ==> #[trigger] locals@[j].0@ != #[trigger] locals@[l].0@,
                forall|j: int|
                    0 <= j < i ==> #[trigger] combined.contents().dom().contains(locals@[j].0@)
                        && combined.contents()[locals@[j].0@] == locals@[j].1@,
                forall|k: Seq<char>|
                    (forall|j: int| 0 <= j < i ==> #[trigger] locals@[j].0@ != k) ==> (
                    #[trigger] combined.contents().dom().contains(k) <==> globals0.dom().contains(k))
                        && (combined.contents().dom().contains(k) ==> combined.contents()[k]
                        == globals0[k]),
            decreases locals@.len() - i,
        {
            let k = locals[i].0.clone();
            let v = locals[i].1.clone();
            proof {
                assert forall|j: int| 0 <= j < i implies locals@[j].0@ != locals@[i as int].0@ by {
                    assert(locals@[j].0@ != locals@[i as int].0@);
                }
            }
            let ghost before = combined.contents();
            let ghost ki = locals@[i as int].0@;
            let ghost vi = locals@[i as int].1@;
            combined.insert(k, v);
            proof {
                assert(combined.contents() == before.insert(ki, vi));
                assert forall|j: int| 0 <= j < i + 1 implies #[trigger] combined.contents().dom().contains(
                    locals@[j].0@,
                ) && combined.contents()[locals@[j].0@] == locals@[j].1@ by {
                    if j < i {
                        assert(locals@[j].0@ != ki);
                        assert(before.dom().contains(locals@[j].0@));
                    }
                }
                assert forall|kk: Seq<char>|
                    (forall|j: int| 0 <= j < i + 1 ==> #[trigger] locals@[j].0@ != kk) implies (
                    #[trigger] combined.contents().dom().contains(kk) <==> globals0.dom().contains(kk))
                    && (combined.contents().dom().contains(kk) ==> combined.contents()[kk] == globals0[kk]) by {
                    assert(locals@[i as int].0@ != kk);
                    assert(forall|j: int| 0 <= j < i ==> #[trigger] locals@[j].0@ != kk);
                }
            }
            i = i + 1;
        }
        proof {
            assert forall|k: Seq<char>|
                locals0.dom().contains(k) implies #[trigger] combined.contents().dom().contains(k)
                && combined.contents()[k] == locals0[k] by {
                let j = choose|j: int| 0 <= j < locals@.len() && locals@[j].0@ == k;
                assert(combined.contents().dom().contains(locals@[j].0@));
            }
            assert forall|k: Seq<char>|
                !locals0.dom().contains(k) implies (#[trigger] combined.contents().dom().contains(k)
                <==> globals0.dom().contains(k)) && (combined.contents().dom().contains(k)
                ==> combined.contents()[k] == globals0[k]) by {
                assert forall|j: int| 0 <= j < i implies #[trigger] locals@[j].0@ != k by {
                    assert(locals0.dom().contains(locals@[j].0@));
                }
            }
        }
        self.unparsed_local_attributes.clear();
        combined
    }
}


impl PaxParser {
    /// The path set by `path` records.
    pub fn path(&self) -> (r: &PaxConfidentValue<String>)
        ensures
            *r == self.path_value(),
    {
        &self.path
    }

    /// The group name set by `gname` records.
    pub fn gname(&self) -> (r: &PaxConfidentValue<String>)
        ensures
            *r == self.gname_value(),
    {
        &self.gname
    }

    /// The user id set by `uid` records.
    pub fn uid(&self) -> (r: &PaxConfidentValue<u32>)
        ensures
            *r == self.uid_value(),
    {
        &self.uid
    }

    /// The modification time set by `mtime` records.
    pub fn mtime(&self) -> (r: &PaxConfidentValue<TimeStamp>)
        ensures
            *r == self.mtime_value(),
    {
        &self.mtime
    }

    /// The access time set by `atime` records.
    pub fn atime(&self) -> (r: &PaxConfidentValue<TimeStamp>)
        ensures
            *r == self.atime_value(),
    {
        &self.atime
    }

    /// The change time set by `ctime` records.
    pub fn ctime(&self) -> (r: &PaxConfidentValue<TimeStamp>)
        ensures
            *r == self.ctime_value(),
    {
        &self.ctime
    }

    /// The sparse map of the local header.
    pub fn gnu_sparse_map_local(&self) -> (r: &LimitedVec<SparseFileInstruction>)
        ensures
            r.items() == self.sparse_map(),
            r.limit() == self.max_sparse_map(),
    {
        &self.gnu_sparse_map_local
    }

    /// The attributes of local headers that are not parsed.
    pub fn unparsed_local_attributes(&self) -> (r: &LimitedHashMap)
        ensures
            r.contents() == self.unparsed_locals(),
    {
        &self.unparsed_local_attributes
    }

    /// The attributes of global headers that are not parsed.
    pub fn unparsed_global_attributes(&self) -> (r: &LimitedHashMap)
        ensures
            r.contents() == self.unparsed_globals(),
    {
        &self.unparsed_global_attributes
    }

    /// Whether the parser waits for the start of a record.
    pub fn is_at_record_start(&self) -> (r: bool)
        ensures
            r == self.at_record_start(),
    {
        match &self.state {
            PaxParserState::ParsingNewKV(s) => s.kv_digits.len() == 0,
            _ => false,
        }
    }
}
} // verus!
