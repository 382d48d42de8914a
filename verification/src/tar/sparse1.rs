//! The sparse map of the GNU sparse format 1.0, stored at the start of the data of a file: decimal
//! numbers, one per line, first the number of entries, then an offset and a size for each entry,
//! padded to the next 512-byte block.
use vstd::prelude::*;

use crate::tar::errors::{
    corrupt_field_to_tar_err, CorruptFieldContext, GeneralParseError, LimitExceededContext,
    TarParserError, TarParserErrorKind,
};
use crate::tar::inode::SparseFileInstruction;
use crate::tar::limited::LimitedVec;
use crate::tar::sparse_format::SparseFormat;
use crate::tar::text::{parse_u64, parse_uint_spec, parse_usize, str_from_utf8, IntErrorKind};
use crate::tar::violations::{TarViolationHandler, VHW};
use vstd::utf8::valid_utf8;

verus! {

/// The most decimal digits of a number of the map: those of the largest 64-bit number.
pub const MAX_VALUE_STRING_LENGTH: usize = 20;

/// Reading the entries of the map, `remaining_maps` of them still to come.
#[derive(Debug)]
struct StateParsingMapEntry {
    remaining_maps: usize,
    parsed_offset_before: Option<u64>,
}

/// Skipping the padding after the map.
#[derive(Debug)]
struct StateSkippingPadding {
    remaining_padding: usize,
}

#[derive(Debug)]
enum ParserState {
    ParsingNumberOfMaps,
    ParsingMapEntry(StateParsingMapEntry),
    SkippingPadding(StateSkippingPadding),
    Finished,
}

/// The padding that takes `n` bytes to the next multiple of 512.
pub open spec fn padding_to_block(n: nat) -> nat {
    ((512 - n % 512) % 512) as nat
}

/// The padding that takes `n` bytes to the next multiple of 512.
pub fn block_padding(n: usize) -> (r: usize)
    ensures
        r == padding_to_block(n as nat),
        r < 512,
        (n + r) % 512 == 0,
{
    let rem = n % 512;
    let r = (512 - rem) % 512;
    proof {
        assert((n + r) % 512 == 0) by (nonlinear_arith)
            requires
                rem == n % 512,
                r == (512 - rem) % 512,
                0 <= rem < 512,
        ;
    }
    r
}

/// Reads the sparse map of the GNU sparse format 1.0 from the data of a file, in pieces of any
/// size.
///
/// While it is possible in principle to recover from a corrupt map and extract the data after
/// it, this parser does not try.
#[derive(Debug)]
pub struct GnuSparse1_0Parser {
    state: ParserState,
    /// The bytes of the data consumed so far.
    bytes_read: usize,
    /// The digits of the number being read.
    value_digits: LimitedVec<u8>,
}

/// How a read of digits up to a newline ended.
enum Digits {
    Found,
    NotFound,
    Full,
}

/// No newline among `bytes`.
pub open spec fn no_newline(bytes: Seq<u8>) -> bool {
    forall|i: int| 0 <= i < bytes.len() ==> bytes[i] != 0x0a
}

/// Copies bytes of `input` from `*pos` into `target` up to a newline, which is consumed but not
/// copied.
fn digits_until_newline(input: &[u8], pos: &mut usize, target: &mut LimitedVec<u8>) -> (r: Digits)
    requires
        *old(pos) <= input@.len(),
    ensures
        *old(pos) <= *final(pos) <= input@.len(),
        final(target).limit() == old(target).limit(),
        r is Found ==> *final(pos) > *old(pos) && input@[*final(pos) - 1] == 0x0a && no_newline(
            input@.subrange(*old(pos) as int, *final(pos) - 1),
        ) && final(target).items() == old(target).items() + input@.subrange(
            *old(pos) as int,
            *final(pos) - 1,
        ),
        !(r is Found) ==> no_newline(input@.subrange(*old(pos) as int, *final(pos) as int))
            && final(target).items() == old(target).items() + input@.subrange(
            *old(pos) as int,
            *final(pos) as int,
        ),
        r is NotFound ==> *final(pos) == input@.len(),
        r is Full ==> *final(pos) < input@.len() && input@[*final(pos) as int] != 0x0a,
{
    proof {
        assert(old(target).items() + input@.subrange(*pos as int, *pos as int) =~= old(target).items());
    }
    loop
        invariant
            *old(pos) <= *pos <= input@.len(),
            target.limit() == old(target).limit(),
            no_newline(input@.subrange(*old(pos) as int, *pos as int)),
            target.items() == old(target).items() + input@.subrange(*old(pos) as int, *pos as int),
        decreases input@.len() - *pos,
    {
        let ghost p0 = *pos;
        if *pos == input.len() {
            return Digits::NotFound;
        }
        let b = input[*pos];
        if b == 0x0a {
            *pos = *pos + 1;
            return Digits::Found;
        }
        match target.push(b) {
            Ok(()) => {},
            Err(_) => {
                return Digits::Full;
            },
        }
        *pos = *pos + 1;
        proof {
            assert(input@.subrange(*old(pos) as int, *pos as int) =~= input@.subrange(
                *old(pos) as int,
                p0 as int,
            ).push(b));
        }
    }
}

impl GnuSparse1_0Parser {
    /// The internal state is consistent.
    pub closed spec fn wf(&self) -> bool {
        self.value_digits.limit() == MAX_VALUE_STRING_LENGTH
    }

    /// The bytes of the data consumed so far.
    pub closed spec fn consumed(&self) -> usize {
        self.bytes_read
    }

    /// The bytes of the data consumed so far.
    pub fn bytes_read(&self) -> (r: usize)
        ensures
            r == self.consumed(),
    {
        self.bytes_read
    }

    /// The parser reads the entries of the map.
    pub closed spec fn reading_entries(&self) -> bool {
        self.state is ParsingMapEntry
    }

    /// The offset read for the entry being read, whose size comes next.
    pub closed spec fn pending_offset(&self) -> Option<u64> {
        match self.state {
            ParserState::ParsingMapEntry(e) => e.parsed_offset_before,
            _ => None,
        }
    }

    /// The entries of the map still to be read, while reading them.
    pub closed spec fn remaining_entries(&self) -> nat {
        match self.state {
            ParserState::ParsingMapEntry(e) => e.remaining_maps as nat,
            _ => 0,
        }
    }

    /// The digits of the number being read, before its newline.
    pub closed spec fn digits(&self) -> Seq<u8> {
        self.value_digits.items()
    }

    /// The parser has read the whole map.
    pub closed spec fn finished(&self) -> bool {
        self.state is Finished
    }

    /// The parser has not read anything.
    pub closed spec fn at_start(&self) -> bool {
        &&& self.state is ParsingNumberOfMaps
        &&& self.bytes_read == 0
        &&& self.value_digits.items().len() == 0
    }

    pub fn new() -> (r: Self)
        ensures
            r.wf(),
            r.at_start(),
            r.consumed() == 0,
    {
        GnuSparse1_0Parser {
            state: ParserState::ParsingNumberOfMaps,
            bytes_read: 0,
            value_digits: LimitedVec::new(MAX_VALUE_STRING_LENGTH),
        }
    }

    /// Gets ready for the map of another file.
    pub fn reset(&mut self)
        ensures
            final(self).wf(),
            final(self).at_start(),
            final(self).consumed() == 0,
    {
        *self = GnuSparse1_0Parser::new();
    }

    /// Reads the decimal digits of a number up to a newline and parses it.
    /// `Ok(None)` means that the input ended before the newline.
    fn read_number<VH: TarViolationHandler>(
        &mut self,
        vh: &mut VHW<'_, VH>,
        input: &[u8],
        pos: &mut usize,
        max: u64,
        field: CorruptFieldContext,
        too_long: LimitExceededContext,
    ) -> (r: Result<Option<u64>, TarParserError>)
        requires
            *old(pos) <= input@.len(),
        ensures
            final(self).wf() == old(self).wf(),
            *old(pos) <= *final(pos) <= input@.len(),
            final(self).consumed() == old(self).consumed(),
            final(self).state == old(self).state,
            r matches Ok(Some(v)) ==> v <= max,
            r is Ok ==> final(self).value_digits.limit() == old(self).value_digits.limit(),
            r matches Ok(None) ==> *final(pos) == input@.len() && no_newline(
                input@.subrange(*old(pos) as int, *final(pos) as int),
            ) && final(self).value_digits.items() == old(self).value_digits.items() + input@.subrange(
                *old(pos) as int,
                *final(pos) as int,
            ),
            r matches Ok(Some(v)) ==> {
                let line = old(self).value_digits.items() + input@.subrange(*old(pos) as int, *final(pos) - 1);
                &&& *final(pos) > *old(pos)
                &&& input@[*final(pos) - 1] == 0x0a
                &&& no_newline(input@.subrange(*old(pos) as int, *final(pos) - 1))
                &&& parse_uint_spec(line, 10, max as nat) == Ok::<nat, IntErrorKind>(v as nat)
                &&& final(self).value_digits.items().len() == 0
            },
            r is Err ==> {
                let line = old(self).value_digits.items() + input@.subrange(*old(pos) as int, *final(pos) - 1);
                ||| *final(pos) < input@.len() && input@[*final(pos) as int] != 0x0a && no_newline(
                    input@.subrange(*old(pos) as int, *final(pos) as int),
                )
                ||| *final(pos) > *old(pos) && input@[*final(pos) - 1] == 0x0a && no_newline(
                    input@.subrange(*old(pos) as int, *final(pos) - 1),
                ) && (!valid_utf8(line) || parse_uint_spec(line, 10, max as nat) is Err)
            },
    {
        match digits_until_newline(input, pos, &mut self.value_digits) {
            Digits::Found => {},
            Digits::NotFound => {
                return Ok(None);
            },
            Digits::Full => {
                return vh.hfve(
                    TarParserErrorKind::LimitExceeded {
                        limit: MAX_VALUE_STRING_LENGTH,
                        context: too_long,
                    },
                );
            },
        }
        let digits = self.value_digits.as_slice();
        let checked = match str_from_utf8(digits) {
            Ok(_) => Ok(()),
            Err(e) => Err(corrupt_field_to_tar_err(field, GeneralParseError::InvalidUtf8(e))),
        };
        match vh.hfvr(checked) {
            Ok(()) => {},
            Err(e) => {
                return Err(e);
            },
        }
        let parsed = match crate::tar::text::parse_uint(digits, 10, max) {
            Ok(v) => Ok(v),
            Err(e) => Err(corrupt_field_to_tar_err(field, GeneralParseError::InvalidInteger(e))),
        };
        let value = match vh.hfvr(parsed) {
            Ok(v) => v,
            Err(e) => {
                return Err(e);
            },
        };
        self.value_digits.clear();
        Ok(Some(value))
    }

    fn state_parsing_number_of_maps<VH: TarViolationHandler>(
        &mut self,
        vh: &mut VHW<'_, VH>,
        input: &[u8],
        pos: &mut usize,
    ) -> (r: Result<ParserState, TarParserError>)
        requires
            *old(pos) <= input@.len(),
        ensures
            final(self).wf() == old(self).wf(),
            *old(pos) <= *final(pos) <= input@.len(),
            final(self).consumed() == old(self).consumed(),
            r matches Ok(s) ==> {
                let line = old(self).value_digits.items() + input@.subrange(*old(pos) as int, *final(pos) - 1);
                match s {
                    ParserState::ParsingNumberOfMaps => *final(pos) == input@.len() && no_newline(
                        input@.subrange(*old(pos) as int, *final(pos) as int),
                    ) && final(self).value_digits.items() == old(self).value_digits.items()
                        + input@.subrange(*old(pos) as int, *final(pos) as int),
                    ParserState::Finished => input@[*final(pos) - 1] == 0x0a && parse_uint_spec(
                        line,
                        10,
                        usize::MAX as nat,
                    ) == Ok::<nat, IntErrorKind>(0),
                    ParserState::ParsingMapEntry(e) => input@[*final(pos) - 1] == 0x0a && e.remaining_maps
                        > 0 && e.parsed_offset_before is None && parse_uint_spec(line, 10, usize::MAX as nat)
                        == Ok::<nat, IntErrorKind>(e.remaining_maps as nat),
                    ParserState::SkippingPadding(_) => false,
                }
            },
            r is Err ==> {
                let line = old(self).value_digits.items() + input@.subrange(*old(pos) as int, *final(pos) - 1);
                ||| *final(pos) < input@.len() && input@[*final(pos) as int] != 0x0a
                ||| *final(pos) > *old(pos) && input@[*final(pos) - 1] == 0x0a && (!valid_utf8(line)
                    || parse_uint_spec(line, 10, usize::MAX as nat) is Err)
            },
    {
        let number_of_maps = match self.read_number(
            vh,
            input,
            pos,
            usize::MAX as u64,
            CorruptFieldContext::GnuSparseNumberOfMaps(SparseFormat::Gnu1_0),
            LimitExceededContext::GnuSparse1_0MapDecimalStringTooLong,
        ) {
            Ok(Some(n)) => n as usize,
            Ok(None) => {
                return Ok(ParserState::ParsingNumberOfMaps);
            },
            Err(e) => {
                return Err(e);
            },
        };
        if number_of_maps == 0 {
            return Ok(ParserState::Finished);
        }
        Ok(ParserState::ParsingMapEntry(StateParsingMapEntry { remaining_maps: number_of_maps, parsed_offset_before: None }))
    }

    fn state_parsing_map_entry<VH: TarViolationHandler>(
        &mut self,
        vh: &mut VHW<'_, VH>,
        input: &[u8],
        pos: &mut usize,
        state: StateParsingMapEntry,
        sparse_file_instructions: &mut LimitedVec<SparseFileInstruction>,
        initial_position: usize,
    ) -> (r: Result<ParserState, TarParserError>)
        requires
            initial_position <= *old(pos) <= input@.len(),
        ensures
            final(self).wf() == old(self).wf(),
            *old(pos) <= *final(pos) <= input@.len(),
            final(self).consumed() == old(self).consumed(),
            final(sparse_file_instructions).limit() == old(sparse_file_instructions).limit(),
            old(sparse_file_instructions).items().len() <= old(sparse_file_instructions).limit()
                ==> final(sparse_file_instructions).items().len() <= final(
                sparse_file_instructions).limit(),
            final(sparse_file_instructions).items().len() >= old(sparse_file_instructions).items().len(),
            final(sparse_file_instructions).items().take(old(sparse_file_instructions).items().len() as int)
                == old(sparse_file_instructions).items(),
            r is Ok && no_newline(input@.subrange(*old(pos) as int, *final(pos) as int)) ==> r == Ok::<
                ParserState,
                TarParserError,
            >(ParserState::ParsingMapEntry(state)) && *final(pos) == input@.len()
                && final(sparse_file_instructions).items() == old(sparse_file_instructions).items()
                && final(self).value_digits.items() == old(self).value_digits.items() + input@.subrange(
                *old(pos) as int,
                *final(pos) as int,
            ),
            r matches Ok(s) ==> !no_newline(input@.subrange(*old(pos) as int, *final(pos) as int)) ==> {
                let line = old(self).value_digits.items() + input@.subrange(*old(pos) as int, *final(pos) - 1);
                let consumed = old(self).bytes_read + (*final(pos) - initial_position);
                let padding = padding_to_block(
                    (if consumed <= usize::MAX {
                        consumed
                    } else {
                        usize::MAX as int
                    }) as nat,
                );
                parse_uint_spec(line, 10, u64::MAX as nat) matches Ok(v) && match state.parsed_offset_before {
                    None => {
                        &&& final(sparse_file_instructions).items() == old(sparse_file_instructions).items()
                        &&& state.remaining_maps == 0 ==> (s matches ParserState::SkippingPadding(p)
                            && p.remaining_padding == padding)
                        &&& state.remaining_maps > 0 ==> s == ParserState::ParsingMapEntry(
                            StateParsingMapEntry {
                                remaining_maps: state.remaining_maps,
                                parsed_offset_before: Some(v as u64),
                            },
                        )
                    },
                    Some(o) => {
                        &&& final(sparse_file_instructions).items() == old(sparse_file_instructions).items().push(
                            SparseFileInstruction { offset_before: o, data_size: v as u64 },
                        )
                        &&& state.remaining_maps <= 1 ==> (s matches ParserState::SkippingPadding(p)
                            && p.remaining_padding == padding)
                        &&& state.remaining_maps > 1 ==> s == ParserState::ParsingMapEntry(
                            StateParsingMapEntry {
                                remaining_maps: (state.remaining_maps - 1) as usize,
                                parsed_offset_before: None,
                            },
                        )
                    },
                }
            },
            r is Err ==> {
                let line = old(self).value_digits.items() + input@.subrange(*old(pos) as int, *final(pos) - 1);
                ||| *final(pos) < input@.len() && input@[*final(pos) as int] != 0x0a
                ||| *final(pos) > *old(pos) && input@[*final(pos) - 1] == 0x0a && (!valid_utf8(line)
                    || parse_uint_spec(line, 10, u64::MAX as nat) is Err || state.parsed_offset_before is Some)
            },
    {
        let mut state = state;
        let ghost op = *pos;
        let (field, too_long) = match state.parsed_offset_before {
            None => (
                CorruptFieldContext::GnuSparseMapOffsetValue(SparseFormat::Gnu1_0),
                LimitExceededContext::GnuSparse1_0MapOffsetEntryDecimalStringTooLong,
            ),
            Some(_) => (
                CorruptFieldContext::GnuSparseMapSizeValue(SparseFormat::Gnu1_0),
                LimitExceededContext::GnuSparse1_0MapSizeEntryDecimalStringTooLong,
            ),
        };
        let value = match self.read_number(vh, input, pos, u64::MAX, field, too_long) {
            Ok(Some(v)) => v,
            Ok(None) => {
                proof {
                    assert(sparse_file_instructions.items().take(sparse_file_instructions.items().len() as int)
                        =~= sparse_file_instructions.items());
                }
                return Ok(ParserState::ParsingMapEntry(state));
            },
            Err(e) => {
                proof {
                    assert(sparse_file_instructions.items().take(sparse_file_instructions.items().len() as int)
                        =~= sparse_file_instructions.items());
                }
                return Err(e);
            },
        };
        let ghost before = sparse_file_instructions.items();
        proof {
            let sub = input@.subrange(op as int, *pos as int);
            assert(sub[sub.len() - 1] == 0x0a);
            assert(!no_newline(sub));
        }
        match state.parsed_offset_before {
            Some(offset_before) => {
                let limit = sparse_file_instructions.max_len();
                match sparse_file_instructions.push(SparseFileInstruction { offset_before, data_size: value }) {
                    Ok(()) => {},
                    Err(_) => {
                        proof {
                            assert(before.take(before.len() as int) =~= before);
                        }
                        return vh.hfve(
                            TarParserErrorKind::LimitExceeded {
                                limit,
                                context: LimitExceededContext::TooManySparseFileInstructions,
                            },
                        );
                    },
                }
                proof {
                    assert(sparse_file_instructions.items().take(before.len() as int) =~= before);
                }
                state.parsed_offset_before = None;
                if state.remaining_maps > 0 {
                    state.remaining_maps = state.remaining_maps - 1;
                }
            },
            None => {
                proof {
                    assert(before.take(before.len() as int) =~= before);
                }
                state.parsed_offset_before = Some(value);
            },
        }
        if state.remaining_maps == 0 {
            let consumed = self.bytes_read.saturating_add(*pos - initial_position);
            let remaining_padding = block_padding(consumed);
            return Ok(ParserState::SkippingPadding(StateSkippingPadding { remaining_padding }));
        }
        Ok(ParserState::ParsingMapEntry(state))
    }

    /// Parses one step of the map from `input` at `*pos`, moving `*pos` past what it consumed.
    /// Returns whether the whole map, with its padding, has been read.
    pub fn parse<VH: TarViolationHandler>(
        &mut self,
        vh: &mut VHW<'_, VH>,
        input: &[u8],
        pos: &mut usize,
        sparse_file_instructions: &mut LimitedVec<SparseFileInstruction>,
    ) -> (r: Result<bool, TarParserError>)
        requires
            *old(pos) <= input@.len(),
        ensures
            final(self).wf() == old(self).wf(),
            *old(pos) <= *final(pos) <= input@.len(),
            r is Ok ==> final(self).consumed() == (if old(self).consumed() + (*final(pos) - *old(pos))
                <= usize::MAX {
                old(self).consumed() + (*final(pos) - *old(pos))
            } else {
                usize::MAX as int
            }),
            r matches Ok(done) ==> done == final(self).finished(),
            final(sparse_file_instructions).limit() == old(sparse_file_instructions).limit(),
            old(sparse_file_instructions).items().len() <= old(sparse_file_instructions).limit()
                ==> final(sparse_file_instructions).items().len() <= final(
                sparse_file_instructions).limit(),
            final(sparse_file_instructions).items().take(old(sparse_file_instructions).items().len() as int)
                == old(sparse_file_instructions).items(),
            final(sparse_file_instructions).items().len() >= old(sparse_file_instructions).items().len(),
            *old(pos) == input@.len() ==> r is Ok,
            r is Err ==> (*final(pos) < input@.len() && input@[*final(pos) as int] != 0x0a) || (*final(pos)
                > *old(pos) && input@[*final(pos) - 1] == 0x0a),
            old(self).finished() ==> r == Ok::<bool, TarParserError>(true) && *final(pos) == *old(pos)
                && final(sparse_file_instructions).items() == old(sparse_file_instructions).items(),
            old(self).reading_entries() && r is Ok && no_newline(
                input@.subrange(*old(pos) as int, *final(pos) as int),
            ) ==> *final(pos) == input@.len() && final(sparse_file_instructions).items() == old(
                sparse_file_instructions,
            ).items() && final(self).digits() == old(self).digits() + input@.subrange(
                *old(pos) as int,
                *final(pos) as int,
            ),
            old(self).reading_entries() && r is Ok && !no_newline(
                input@.subrange(*old(pos) as int, *final(pos) as int),
            ) ==> {
                let line = old(self).digits() + input@.subrange(*old(pos) as int, *final(pos) - 1);
                parse_uint_spec(line, 10, u64::MAX as nat) matches Ok(v) && match old(self).pending_offset() {
                    None => {
                        &&& final(sparse_file_instructions).items() == old(sparse_file_instructions).items()
                        &&& old(self).remaining_entries() > 0 ==> final(self).reading_entries()
                            && final(self).pending_offset() == Some(v as u64)
                            && final(self).remaining_entries() == old(self).remaining_entries()
                        &&& old(self).remaining_entries() == 0 ==> !final(self).reading_entries()
                    },
                    Some(o) => {
                        &&& final(sparse_file_instructions).items() == old(sparse_file_instructions).items().push(
                            SparseFileInstruction { offset_before: o, data_size: v as u64 },
                        )
                        &&& old(self).remaining_entries() > 1 ==> final(self).reading_entries()
                            && final(self).pending_offset() is None
                            && final(self).remaining_entries() == old(self).remaining_entries() - 1
                        &&& old(self).remaining_entries() <= 1 ==> !final(self).reading_entries()
                    },
                }
            },
    {
        let mut state = ParserState::Finished;
        core::mem::swap(&mut state, &mut self.state);
        let initial_position = *pos;
        let next = match state {
            ParserState::ParsingNumberOfMaps => {
                proof {
                    assert(sparse_file_instructions.items().take(sparse_file_instructions.items().len() as int)
                        =~= sparse_file_instructions.items());
                }
                self.state_parsing_number_of_maps(vh, input, pos)
            },
            ParserState::ParsingMapEntry(s) => self.state_parsing_map_entry(
                vh,
                input,
                pos,
                s,
                sparse_file_instructions,
                initial_position,
            ),
            ParserState::SkippingPadding(mut s) => {
                proof {
                    assert(sparse_file_instructions.items().take(sparse_file_instructions.items().len() as int)
                        =~= sparse_file_instructions.items());
                }
                let available = input.len() - *pos;
                let skipped = if s.remaining_padding < available {
                    s.remaining_padding
                } else {
                    available
                };
                *pos = *pos + skipped;
                s.remaining_padding = s.remaining_padding - skipped;
                if s.remaining_padding == 0 {
                    Ok(ParserState::Finished)
                } else {
                    Ok(ParserState::SkippingPadding(s))
                }
            },
            ParserState::Finished => {
                proof {
                    assert(sparse_file_instructions.items().take(sparse_file_instructions.items().len() as int)
                        =~= sparse_file_instructions.items());
                }
                Ok(ParserState::Finished)
            },
        };
        let consumed = *pos - initial_position;
        self.bytes_read = self.bytes_read.saturating_add(consumed);
        match next {
            Ok(s) => {
                self.state = s;
                Ok(self.state.is_finished())
            },
            Err(e) => Err(e),
        }
    }
}

impl ParserState {
    fn is_finished(&self) -> (r: bool)
        ensures
            r == (*self is Finished),
    {
        match self {
            ParserState::Finished => true,
            _ => false,
        }
    }
}

} // verus!
