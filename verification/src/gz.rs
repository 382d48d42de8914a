//! The header of a gzip member (RFC 1952), of which only the modification time is kept.
use vstd::prelude::*;

use crate::io::{write_all, Write, WriteAllError};

verus! {

/// The gzip header, with only the `MTIME` field parsed.
#[derive(Debug, Clone)]
pub struct GzHeader {
    pub mtime: u32,
}

/// Why a gzip header could not be read.
#[derive(Debug)]
pub enum GzHeaderError {
    InvalidHeader(&'static str),
    /// Fewer than the 10 bytes of the fixed part.
    BufferTooShort,
    /// The first two bytes are not `0x1F 0x8B`; they are given.
    InvalidMagicNumbers(u8, u8),
    /// The compression method is not deflate (`0x08`); it is given.
    InvalidCompressionMethod(u8),
    /// The `FEXTRA` flag is set but the length of the extra field is cut off.
    OptionalFieldTooShort,
    /// The optional fields end past the end of the input.
    OptionalFieldOutOfBounds,
}

/// The little-endian number of four bytes.
pub open spec fn le_u32(b0: u8, b1: u8, b2: u8, b3: u8) -> int {
    b0 + 256 * b1 + 65536 * b2 + 16777216 * b3
}

/// The position after the first zero byte of `s` at or after `from`; past the end of `s` the
/// search stops, and the position after it is given.
pub open spec fn after_zero(s: Seq<u8>, from: int) -> int
    decreases s.len() - from,
{
    if 0 <= from < s.len() && s[from] != 0 {
        after_zero(s, from + 1)
    } else {
        from + 1
    }
}

/// Where the header that `s` starts with ends: after the fixed part and the optional fields
/// its flags announce (`FEXTRA`, `FNAME`, `FCOMMENT`, `FHCRC`).
pub open spec fn gz_header_end(s: Seq<u8>) -> int {
    let flags = s[3];
    let after_extra = if flags & 0x04 != 0 {
        12 + s[10] + 256 * s[11]
    } else {
        10
    };
    let after_name = if flags & 0x08 != 0 {
        after_zero(s, after_extra)
    } else {
        after_extra
    };
    let after_comment = if flags & 0x10 != 0 {
        after_zero(s, after_name)
    } else {
        after_name
    };
    if flags & 0x02 != 0 {
        after_comment + 2
    } else {
        after_comment
    }
}

/// What reading a gzip header from the start of `s` gives: its length and modification time,
/// or the first problem found.
pub open spec fn gz_parse(s: Seq<u8>) -> Result<(int, int), GzHeaderError> {
    if s.len() < 10 {
        Err(GzHeaderError::BufferTooShort)
    } else if s[0] != 0x1F || s[1] != 0x8B {
        Err(GzHeaderError::InvalidMagicNumbers(s[0], s[1]))
    } else if s[2] != 0x08 {
        Err(GzHeaderError::InvalidCompressionMethod(s[2]))
    } else if s[3] & 0x04 != 0 && s.len() < 12 {
        Err(GzHeaderError::OptionalFieldTooShort)
    } else if gz_header_end(s) > s.len() {
        Err(GzHeaderError::OptionalFieldOutOfBounds)
    } else {
        Ok((gz_header_end(s), le_u32(s[4], s[5], s[6], s[7])))
    }
}

/// The minimal header written for a modification time: deflate, no flags, Unix.
pub open spec fn gz_header_bytes(mtime: u32) -> Seq<u8> {
    seq![
        0x1Fu8,
        0x8Bu8,
        0x08u8,
        0x00u8,
        (mtime % 256) as u8,
        ((mtime / 256) % 256) as u8,
        ((mtime / 65536) % 256) as u8,
        (mtime / 16777216) as u8,
        0x00u8,
        0x03u8,
    ]
}

/// The position after the first zero byte at or after `from`, as `after_zero` says.
fn skip_zero_terminated(input: &[u8], from: usize) -> (r: usize)
    requires
        from <= input@.len() + 70000,
        input@.len() <= isize::MAX,
    ensures
        r == after_zero(input@, from as int),
        r <= (if from > input@.len() {
            from as int
        } else {
            input@.len() as int
        }) + 1,
{
    let mut offset = from;
    while offset < input.len() && input[offset] != 0
        invariant
            from <= offset,
            offset == from || offset <= input@.len(),
            offset <= input@.len() + 70000,
            input@.len() <= isize::MAX,
            after_zero(input@, offset as int) == after_zero(input@, from as int),
        decreases input@.len() - offset,
    {
        offset = offset + 1;
    }
    offset + 1
}

impl GzHeader {
    /// Parses a gzip header from the start of a buffer.
    /// Returns `Ok((header_length, GzHeader))` if successful, otherwise the first problem found.
    pub fn parse(input_buffer: &[u8]) -> (r: Result<(usize, GzHeader), GzHeaderError>)
        requires
            input_buffer@.len() <= isize::MAX,
        ensures
            r matches Ok((n, h)) ==> gz_parse(input_buffer@) == Ok::<(int, int), GzHeaderError>(
                (n as int, h.mtime as int),
            ),
            r matches Err(e) ==> gz_parse(input_buffer@) == Err::<(int, int), GzHeaderError>(e),
    {
        if input_buffer.len() < 10 {
            return Err(GzHeaderError::BufferTooShort);
        }
        if input_buffer[0] != 0x1F || input_buffer[1] != 0x8B {
            return Err(GzHeaderError::InvalidMagicNumbers(input_buffer[0], input_buffer[1]));
        }
        if input_buffer[2] != 0x08 {
            return Err(GzHeaderError::InvalidCompressionMethod(input_buffer[2]));
        }
        let flags = input_buffer[3];
        let mtime: u32 = input_buffer[4] as u32 + (input_buffer[5] as u32) * 256 + (input_buffer[6] as u32) * 65536
            + (input_buffer[7] as u32) * 16777216;
        let mut offset: usize = 10;
        if flags & 0x04 != 0 {
            if input_buffer.len() < 12 {
                return Err(GzHeaderError::OptionalFieldTooShort);
            }
            let extra_length = input_buffer[10] as usize + (input_buffer[11] as usize) * 256;
            offset = 12 + extra_length;
        }
        if flags & 0x08 != 0 {
            offset = skip_zero_terminated(input_buffer, offset);
        }
        if flags & 0x10 != 0 {
            offset = skip_zero_terminated(input_buffer, offset);
        }
        if flags & 0x02 != 0 {
            offset = offset + 2;
        }
        if offset > input_buffer.len() {
            return Err(GzHeaderError::OptionalFieldOutOfBounds);
        }
        Ok((offset, GzHeader { mtime }))
    }

    /// Writes a minimal gzip header to the given writer: deflate compression, no optional fields,
    /// the modification time, and Unix as the system. The three parts are handed over in turn:
    /// the magic, method and flags, then the time, then the extra flags and the system.
    pub fn write<W: Write + ?Sized>(&self, w: &mut W) -> (r: Result<(), WriteAllError<W::WriteError>>)
        ensures
            r matches Err(WriteAllError::ZeroWrite { bytes_written }) ==> bytes_written < 4,
            r is Ok ==> (*final(w)).accepted() == (*old(w)).accepted() + gz_header_bytes(self.mtime),
            r matches Err(WriteAllError::ZeroWrite { bytes_written }) ==> {
                let b = gz_header_bytes(self.mtime);
                ||| (*final(w)).accepted() == (*old(w)).accepted() + b.take(bytes_written as int)
                ||| (*final(w)).accepted() == (*old(w)).accepted() + b.take(4 + bytes_written)
                ||| (*final(w)).accepted() == (*old(w)).accepted() + b.take(8 + bytes_written)
            },
    {
        let bytes = self.header_bytes();
        let ghost b = bytes@;
        let first = &bytes.as_slice()[0..4];
        proof {
            assert(first@ =~= b.take(4));
            assert forall|k: int| 0 <= k <= 4 implies #[trigger] first@.take(k) == b.take(k) by {
                assert(first@.take(k) =~= b.take(k));
            }
        }
        match write_all(w, first, false) {
            Ok(()) => {},
            Err(e) => {
                return Err(e);
            },
        }
        let ghost a1 = (*w).accepted();
        let second = &bytes.as_slice()[4..8];
        proof {
            assert forall|k: int| 0 <= k <= 4 implies b.take(4) + #[trigger] second@.take(k) == b.take(4 + k) by {
                assert(b.take(4) + second@.take(k) =~= b.take(4 + k));
            }
        }
        match write_all(w, second, false) {
            Ok(()) => {},
            Err(e) => {
                proof {
                    if let WriteAllError::ZeroWrite { bytes_written } = e {
                        assert(b.take(4) + second@.take(bytes_written as int) == b.take(4 + bytes_written));
                    }
                }
                return Err(e);
            },
        }
        let third = &bytes.as_slice()[8..10];
        proof {
            assert(b.take(4) + second@.take(4) == b.take(8));
            assert(second@.take(4) =~= second@);
            assert forall|k: int| 0 <= k <= 2 implies b.take(8) + #[trigger] third@.take(k) == b.take(8 + k) by {
                assert(b.take(8) + third@.take(k) =~= b.take(8 + k));
            }
            assert(third@.take(2) =~= third@);
            assert(b.take(10) =~= b);
        }
        let r = write_all(w, third, false);
        proof {
            if let Err(WriteAllError::ZeroWrite { bytes_written }) = r {
                assert(b.take(8) + third@.take(bytes_written as int) == b.take(8 + bytes_written));
            }
        }
        r
    }

    /// The bytes of the minimal header for this modification time.
    fn header_bytes(&self) -> (r: [u8; 10])
        ensures
            r@ == gz_header_bytes(self.mtime),
    {
        let m = self.mtime;
        let r: [u8; 10] = [
            0x1F,
            0x8B,
            0x08,
            0x00,
            (m % 256) as u8,
            ((m / 256) % 256) as u8,
            ((m / 65536) % 256) as u8,
            (m / 16777216) as u8,
            0x00,
            0x03,
        ];
        proof {
            assert(r@ =~= gz_header_bytes(self.mtime));
        }
        r
    }
}

/// The little-endian bytes of a number give the number back.
proof fn lemma_le_u32_bytes(m: u32)
    ensures
        le_u32(
            (m % 256) as u8,
            ((m / 256) % 256) as u8,
            ((m / 65536) % 256) as u8,
            (m / 16777216) as u8,
        ) == m,
{
    assert(m == m % 256 + 256 * ((m / 256) % 256) + 65536 * ((m / 65536) % 256) + 16777216 * (m / 16777216))
        by (nonlinear_arith);
}

/// A header written by [`GzHeader::write`], followed by anything, reads back as a 10-byte
/// header with the same modification time.
pub proof fn law_written_header_reads_back(mtime: u32, rest: Seq<u8>)
    ensures
        gz_parse(gz_header_bytes(mtime) + rest) == Ok::<(int, int), GzHeaderError>((10, mtime as int)),
{
    let s = gz_header_bytes(mtime) + rest;
    assert(s[3] == 0u8);
    assert(0u8 & 0x04 == 0) by (bit_vector);
    assert(0u8 & 0x08 == 0) by (bit_vector);
    assert(0u8 & 0x10 == 0) by (bit_vector);
    assert(0u8 & 0x02 == 0) by (bit_vector);
    lemma_le_u32_bytes(mtime);
}

} // verus!
