//! The errors of the tar parser and the fields and limits they name.
use vstd::prelude::*;
use vstd::string::StringExecFns;

use crate::buffers::LimitedBackingBufferError;
use crate::tar::confident::PaxConfidence;
use crate::tar::header::TarHeaderChecksumError;
use crate::tar::sparse_format::SparseFormat;
use crate::tar::text::{ParseIntError, ParseOctalError};

verus! {

/// The error of reserving memory in a `hashbrown` collection.
#[verifier::external_type_specification]
#[verifier::external_body]
pub struct ExHashbrownTryReserveError(hashbrown::TryReserveError);

/// `hashbrown::TryReserveError::clone`, derived in its crate: an equal copy.
pub assume_specification[ <hashbrown::TryReserveError as core::clone::Clone>::clone ](
    e: &hashbrown::TryReserveError,
) -> (r: hashbrown::TryReserveError)
    ensures
        r == *e,
;

/// `TryReserveError::clone` of the standard library, derived: an equal copy.
pub assume_specification[ <std::collections::TryReserveError as core::clone::Clone>::clone ](
    e: &std::collections::TryReserveError,
) -> (r: std::collections::TryReserveError)
    ensures
        r == *e,
;

/// `Utf8Error::clone` of the standard library, derived on a `Copy` type: an equal copy.
pub assume_specification[ <core::str::Utf8Error as core::clone::Clone>::clone ](
    e: &core::str::Utf8Error,
) -> (r: core::str::Utf8Error)
    ensures
        r == *e,
;

/// Why a field could not be read.
#[derive(Debug, Clone, PartialEq, Eq)]
pub enum GeneralParseError {
    InvalidOctalNumber(ParseOctalError),
    InvalidUtf8(core::str::Utf8Error),
    InvalidInteger(ParseIntError),
}

/// An error of a header block as a whole.
#[derive(Debug, Clone, PartialEq, Eq)]
pub enum TarHeaderParserError {
    /// The header has a magic string and version that no known format uses.
    UnknownHeaderMagicVersion { magic: [u8; 6], version: [u8; 2] },
    CorruptHeaderChecksum(TarHeaderChecksumError),
}

/// The field a [`TarParserErrorKind::CorruptField`] error is about.
#[derive(Debug, Copy, Clone, PartialEq, Eq, Structural)]
pub enum CorruptFieldContext {
    HeaderSize,
    HeaderName,
    HeaderMode,
    HeaderUid,
    HeaderGid,
    HeaderMtime,
    HeaderLinkname,
    HeaderUname,
    HeaderGname,
    HeaderDevMajor,
    HeaderDevMinor,
    HeaderAtime,
    HeaderCtime,
    HeaderRealSize,
    HeaderPrefix,
    GnuSparseNumberOfMaps(SparseFormat),
    GnuSparseMapOffsetValue(SparseFormat),
    GnuSparseMapSizeValue(SparseFormat),
    GnuSparseRealFileSize(SparseFormat),
    GnuSparseMajorVersion,
    GnuSparseMinorVersion,
    PaxWellKnownAtime,
    PaxWellKnownGid,
    PaxWellKnownMtime,
    PaxWellKnownCtime,
    PaxWellKnownSize,
    PaxWellKnownUid,
    PaxKvLength,
    PaxKvValue,
    PaxKvKey,
}

impl CorruptFieldContext {
    /// The name of the field, as error messages show it.
    pub open spec fn name_text(&self) -> Seq<char> {
        match self {
            CorruptFieldContext::HeaderSize => "header.size"@,
            CorruptFieldContext::HeaderName => "header.name"@,
            CorruptFieldContext::HeaderMode => "header.mode"@,
            CorruptFieldContext::HeaderUid => "header.uid"@,
            CorruptFieldContext::HeaderGid => "header.gid"@,
            CorruptFieldContext::HeaderMtime => "header.mtime"@,
            CorruptFieldContext::HeaderLinkname => "header.linkname"@,
            CorruptFieldContext::HeaderUname => "header.uname"@,
            CorruptFieldContext::HeaderGname => "header.gname"@,
            CorruptFieldContext::HeaderDevMajor => "header.dev_major"@,
            CorruptFieldContext::HeaderDevMinor => "header.dev_minor"@,
            CorruptFieldContext::HeaderAtime => "header.atime"@,
            CorruptFieldContext::HeaderCtime => "header.ctime"@,
            CorruptFieldContext::HeaderRealSize => "header.real_size"@,
            CorruptFieldContext::HeaderPrefix => "header.prefix"@,
            CorruptFieldContext::GnuSparseNumberOfMaps(v) => "gnu_sparse."@ + v.version_text()
                + ".number_of_maps"@,
            CorruptFieldContext::GnuSparseMapOffsetValue(v) => "gnu_sparse."@ + v.version_text()
                + ".map_entry.offset"@,
            CorruptFieldContext::GnuSparseMapSizeValue(v) => "gnu_sparse."@ + v.version_text()
                + ".map_entry.size"@,
            CorruptFieldContext::GnuSparseRealFileSize(v) => "gnu_sparse."@ + v.version_text()
                + ".real_file_size"@,
            CorruptFieldContext::GnuSparseMajorVersion => "gnu_sparse.major_version"@,
            CorruptFieldContext::GnuSparseMinorVersion => "gnu_sparse.minor_version"@,
            CorruptFieldContext::PaxWellKnownAtime => "pax.well_known.atime"@,
            CorruptFieldContext::PaxWellKnownGid => "pax.well_known.gid"@,
            CorruptFieldContext::PaxWellKnownMtime => "pax.well_known.mtime"@,
            CorruptFieldContext::PaxWellKnownCtime => "pax.well_known.ctime"@,
            CorruptFieldContext::PaxWellKnownSize => "pax.well_known.size"@,
            CorruptFieldContext::PaxWellKnownUid => "pax.well_known.uid"@,
            CorruptFieldContext::PaxKvLength => "pax.length_field"@,
            CorruptFieldContext::PaxKvValue => "pax.value_field"@,
            CorruptFieldContext::PaxKvKey => "pax.key_field"@,
        }
    }

    /// The name of the field, as error messages show it.
    pub fn field_name(&self) -> (r: String)
        ensures
            r@ == self.name_text(),
    {
        match self {
            CorruptFieldContext::HeaderSize => String::from_str("header.size"),
            CorruptFieldContext::HeaderName => String::from_str("header.name"),
            CorruptFieldContext::HeaderMode => String::from_str("header.mode"),
            CorruptFieldContext::HeaderUid => String::from_str("header.uid"),
            CorruptFieldContext::HeaderGid => String::from_str("header.gid"),
            CorruptFieldContext::HeaderMtime => String::from_str("header.mtime"),
            CorruptFieldContext::HeaderLinkname => String::from_str("header.linkname"),
            CorruptFieldContext::HeaderUname => String::from_str("header.uname"),
            CorruptFieldContext::HeaderGname => String::from_str("header.gname"),
            CorruptFieldContext::HeaderDevMajor => String::from_str("header.dev_major"),
            CorruptFieldContext::HeaderDevMinor => String::from_str("header.dev_minor"),
            CorruptFieldContext::HeaderAtime => String::from_str("header.atime"),
            CorruptFieldContext::HeaderCtime => String::from_str("header.ctime"),
            CorruptFieldContext::HeaderRealSize => String::from_str("header.real_size"),
            CorruptFieldContext::HeaderPrefix => String::from_str("header.prefix"),
            CorruptFieldContext::GnuSparseNumberOfMaps(v) => sparse_field_name(v, ".number_of_maps"),
            CorruptFieldContext::GnuSparseMapOffsetValue(v) => sparse_field_name(v, ".map_entry.offset"),
            CorruptFieldContext::GnuSparseMapSizeValue(v) => sparse_field_name(v, ".map_entry.size"),
            CorruptFieldContext::GnuSparseRealFileSize(v) => sparse_field_name(v, ".real_file_size"),
            CorruptFieldContext::GnuSparseMajorVersion => String::from_str("gnu_sparse.major_version"),
            CorruptFieldContext::GnuSparseMinorVersion => String::from_str("gnu_sparse.minor_version"),
            CorruptFieldContext::PaxWellKnownAtime => String::from_str("pax.well_known.atime"),
            CorruptFieldContext::PaxWellKnownGid => String::from_str("pax.well_known.gid"),
            CorruptFieldContext::PaxWellKnownMtime => String::from_str("pax.well_known.mtime"),
            CorruptFieldContext::PaxWellKnownCtime => String::from_str("pax.well_known.ctime"),
            CorruptFieldContext::PaxWellKnownSize => String::from_str("pax.well_known.size"),
            CorruptFieldContext::PaxWellKnownUid => String::from_str("pax.well_known.uid"),
            CorruptFieldContext::PaxKvLength => String::from_str("pax.length_field"),
            CorruptFieldContext::PaxKvValue => String::from_str("pax.value_field"),
            CorruptFieldContext::PaxKvKey => String::from_str("pax.key_field"),
        }
    }
}

/// `gnu_sparse.`, the name of the format, then `suffix`.
fn sparse_field_name(format: &SparseFormat, suffix: &str) -> (r: String)
    ensures
        r@ == "gnu_sparse."@ + format.version_text() + suffix@,
{
    let mut name = String::from_str("gnu_sparse.");
    let version = format.to_version_string();
    name.append(version.as_str());
    name.append(suffix);
    name
}

/// The limit a [`TarParserErrorKind::LimitExceeded`] error is about.
#[derive(Debug, Copy, Clone, PartialEq, Eq, Structural)]
pub enum LimitExceededContext {
    GnuSparse1_0MapDecimalStringTooLong,
    GnuSparse1_0MapOffsetEntryDecimalStringTooLong,
    GnuSparse1_0MapSizeEntryDecimalStringTooLong,
    TooManySparseFileInstructions,
    PaxLengthFieldDecimalStringTooLong,
    PaxKvKeyTooLong,
    PaxKvValueTooLong,
    PaxTooManyUnparsedGlobalAttributes,
    PaxTooManyUnparsedLocalAttributes,
    PaxTooManyGlobalAttributes,
}

impl LimitExceededContext {
    /// The unit the limit counts and a description of the limit.
    pub open spec fn unit_and_description(&self) -> (Seq<char>, Seq<char>) {
        match self {
            LimitExceededContext::GnuSparse1_0MapDecimalStringTooLong => (
                "bytes"@,
                "The decimal string for the number of sparse maps is too long"@,
            ),
            LimitExceededContext::GnuSparse1_0MapOffsetEntryDecimalStringTooLong => (
                "bytes"@,
                "The decimal string for a sparse map offset entry is too long"@,
            ),
            LimitExceededContext::GnuSparse1_0MapSizeEntryDecimalStringTooLong => (
                "bytes"@,
                "The decimal string for a sparse map size entry is too long"@,
            ),
            LimitExceededContext::TooManySparseFileInstructions => (
                "sparse file instructions"@,
                "Too many sparse file instructions"@,
            ),
            LimitExceededContext::PaxLengthFieldDecimalStringTooLong => (
                "bytes"@,
                "The decimal string for the PAX length field is too long"@,
            ),
            LimitExceededContext::PaxKvKeyTooLong => ("bytes"@, "The PAX key string is too long"@),
            LimitExceededContext::PaxKvValueTooLong => (
                "bytes"@,
                "The PAX value string is too long"@,
            ),
            LimitExceededContext::PaxTooManyUnparsedGlobalAttributes => (
                "unparsed global PAX attributes"@,
                "Too many unparsed global PAX attributes"@,
            ),
            LimitExceededContext::PaxTooManyUnparsedLocalAttributes => (
                "unparsed local PAX attributes"@,
                "Too many unparsed local PAX attributes"@,
            ),
            LimitExceededContext::PaxTooManyGlobalAttributes => (
                "global PAX attributes"@,
                "Too many global PAX attributes"@,
            ),
        }
    }

    /// The name of the place the limit applies to.
    pub open spec fn place(&self) -> Seq<char> {
        match self {
            LimitExceededContext::GnuSparse1_0MapDecimalStringTooLong => "gnu_sparse.1.0.map.number_of_maps"@,
            LimitExceededContext::GnuSparse1_0MapOffsetEntryDecimalStringTooLong => "gnu_sparse.1.0.map_entry.offset"@,
            LimitExceededContext::GnuSparse1_0MapSizeEntryDecimalStringTooLong => "gnu_sparse.1.0.map_entry.size"@,
            LimitExceededContext::TooManySparseFileInstructions => "sparse_file_instructions"@,
            LimitExceededContext::PaxLengthFieldDecimalStringTooLong => "pax.length_field"@,
            LimitExceededContext::PaxKvKeyTooLong => "pax.key_field"@,
            LimitExceededContext::PaxKvValueTooLong => "pax.value_field"@,
            LimitExceededContext::PaxTooManyUnparsedGlobalAttributes => "pax.unparsed_global_attributes"@,
            LimitExceededContext::PaxTooManyUnparsedLocalAttributes => "pax.unparsed_local_attributes"@,
            LimitExceededContext::PaxTooManyGlobalAttributes => "pax.global_attributes"@,
        }
    }

    /// The unit the limit counts and a description of the limit.
    pub fn context_unit(&self) -> (r: (&'static str, &'static str))
        ensures
            (r.0@, r.1@) == self.unit_and_description(),
    {
        match self {
            LimitExceededContext::GnuSparse1_0MapDecimalStringTooLong => (
                "bytes",
                "The decimal string for the number of sparse maps is too long",
            ),
            LimitExceededContext::GnuSparse1_0MapOffsetEntryDecimalStringTooLong => (
                "bytes",
                "The decimal string for a sparse map offset entry is too long",
            ),
            LimitExceededContext::GnuSparse1_0MapSizeEntryDecimalStringTooLong => (
                "bytes",
                "The decimal string for a sparse map size entry is too long",
            ),
            LimitExceededContext::TooManySparseFileInstructions => (
                "sparse file instructions",
                "Too many sparse file instructions",
            ),
            LimitExceededContext::PaxLengthFieldDecimalStringTooLong => (
                "bytes",
                "The decimal string for the PAX length field is too long",
            ),
            LimitExceededContext::PaxKvKeyTooLong => ("bytes", "The PAX key string is too long"),
            LimitExceededContext::PaxKvValueTooLong => ("bytes", "The PAX value string is too long"),
            LimitExceededContext::PaxTooManyUnparsedGlobalAttributes => (
                "unparsed global PAX attributes",
                "Too many unparsed global PAX attributes",
            ),
            LimitExceededContext::PaxTooManyUnparsedLocalAttributes => (
                "unparsed local PAX attributes",
                "Too many unparsed local PAX attributes",
            ),
            LimitExceededContext::PaxTooManyGlobalAttributes => (
                "global PAX attributes",
                "Too many global PAX attributes",
            ),
        }
    }

    /// The name of the place the limit applies to.
    pub fn context_str(&self) -> (r: &'static str)
        ensures
            r@ == self.place(),
    {
        match self {
            LimitExceededContext::GnuSparse1_0MapDecimalStringTooLong => "gnu_sparse.1.0.map.number_of_maps",
            LimitExceededContext::GnuSparse1_0MapOffsetEntryDecimalStringTooLong => "gnu_sparse.1.0.map_entry.offset",
            LimitExceededContext::GnuSparse1_0MapSizeEntryDecimalStringTooLong => "gnu_sparse.1.0.map_entry.size",
            LimitExceededContext::TooManySparseFileInstructions => "sparse_file_instructions",
            LimitExceededContext::PaxLengthFieldDecimalStringTooLong => "pax.length_field",
            LimitExceededContext::PaxKvKeyTooLong => "pax.key_field",
            LimitExceededContext::PaxKvValueTooLong => "pax.value_field",
            LimitExceededContext::PaxTooManyUnparsedGlobalAttributes => "pax.unparsed_global_attributes",
            LimitExceededContext::PaxTooManyUnparsedLocalAttributes => "pax.unparsed_local_attributes",
            LimitExceededContext::PaxTooManyGlobalAttributes => "pax.global_attributes",
        }
    }
}

/// Memory could not be reserved, in a standard or a `hashbrown` collection.
#[derive(Debug, Clone, PartialEq, Eq)]
pub enum GeneralTryReserveError {
    AllocTryReserveError(std::collections::TryReserveError),
    HashBrownTryReserveError(hashbrown::TryReserveError),
}

/// How bad an error is.
#[derive(Debug, Clone, Copy, PartialEq, Eq, Structural)]
pub enum ErrorSeverity {
    Fatal,
    Recoverable,
}

/// An error of the PAX parser.
#[derive(Debug, Clone, PartialEq, Eq)]
pub enum PaxParserError {
    /// A key-value record does not end in a newline.
    KeyValuePairMissingNewline,
    /// A GNU sparse map has an odd number of parts; the index of the last part is given.
    GnuSparseMapMalformed(usize),
    /// A key that only a local header may set appeared in a global one.
    WellKnownKeyAppearedInWrongPaxContext {
        key: &'static str,
        expected_context: PaxConfidence,
        actual_context: PaxConfidence,
    },
}

/// What went wrong in the tar parser.
#[derive(Debug, Clone, PartialEq, Eq)]
pub enum TarParserErrorKind {
    HeaderParserError(TarHeaderParserError),
    PaxParserError(PaxParserError),
    /// A limit of the parser was reached.
    LimitExceeded { limit: usize, context: LimitExceededContext },
    /// Memory could not be reserved.
    TryReserveError { try_reserve_error: GeneralTryReserveError, context: LimitExceededContext },
    /// A field could not be read.
    CorruptField { field: CorruptFieldContext, error: GeneralParseError },
}

/// An error of the tar parser and how bad it is.
#[derive(Debug, Clone, PartialEq, Eq)]
pub struct TarParserError {
    pub kind: TarParserErrorKind,
    pub severity: ErrorSeverity,
}

impl TarParserError {
    pub fn new(kind: TarParserErrorKind, severity: ErrorSeverity) -> (r: Self)
        ensures
            r == (TarParserError { kind, severity }),
    {
        TarParserError { kind, severity }
    }

    pub fn is_fatal(&self) -> (r: bool)
        ensures
            r == (self.severity == ErrorSeverity::Fatal),
    {
        match self.severity {
            ErrorSeverity::Fatal => true,
            ErrorSeverity::Recoverable => false,
        }
    }
}

/// The error that a field could not be read.
pub fn corrupt_field_to_tar_err(field: CorruptFieldContext, error: GeneralParseError) -> (r:
    TarParserErrorKind)
    ensures
        r == (TarParserErrorKind::CorruptField { field, error }),
{
    TarParserErrorKind::CorruptField { field, error }
}

/// The error of a limited buffer, as an error of the parser at the given limit and place.
pub fn limit_exceeded_to_tar_err(
    limit: usize,
    context: LimitExceededContext,
    error: LimitedBackingBufferError<std::collections::TryReserveError>,
) -> (r: TarParserErrorKind)
    ensures
        error is MemoryLimitExceeded ==> r == (TarParserErrorKind::LimitExceeded { limit, context }),
        error matches LimitedBackingBufferError::ResizeError(e) ==> r
            == (TarParserErrorKind::TryReserveError {
            try_reserve_error: GeneralTryReserveError::AllocTryReserveError(e),
            context,
        }),
{
    match error {
        LimitedBackingBufferError::MemoryLimitExceeded(_) => TarParserErrorKind::LimitExceeded {
            limit,
            context,
        },
        LimitedBackingBufferError::ResizeError(e) => TarParserErrorKind::TryReserveError {
            try_reserve_error: GeneralTryReserveError::AllocTryReserveError(e),
            context,
        },
    }
}

} // verus!
