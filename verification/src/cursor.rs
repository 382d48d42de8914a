//! An in-memory stream over a [`BackingBuffer`] with a position, readable, writable and seekable.
use vstd::prelude::*;

use crate::buffers::{resized, BackingBuffer, BackingBufferMut};
use crate::io::{Read, Write};

verus! {

/// Where a seek is measured from.
#[derive(Clone, Copy, Debug, PartialEq, Eq)]
pub enum SeekFrom {
    Start(usize),
    End(isize),
    Current(isize),
}

/// Trait for streams whose position can be moved.
pub trait Seek {
    type SeekError;

    fn seek(&mut self, style: SeekFrom) -> Result<usize, Self::SeekError>;
}

/// Error of a [`Cursor`] seek.
#[derive(Debug, PartialEq, Eq)]
pub enum CursorSeekError {
    OutOfBounds { position: usize, length: usize, offset: SeekFrom },
}

/// Error of an exact read: the data ended early, the buffer limit was hit, or the source failed.
#[derive(Debug, PartialEq, Eq)]
pub enum ReadExactError<U> {
    UnexpectedEof { min_readable_bytes: usize, bytes_requested: usize },
    MemoryLimitExceeded(usize),
    Io(U),
}

/// The smaller of two integers.
pub open spec fn min_int(a: int, b: int) -> int {
    if a <= b {
        a
    } else {
        b
    }
}

/// `s` with the bytes from `at` on replaced by `data`, as far as `data` reaches.
pub open spec fn overwrite(s: Seq<u8>, at: int, data: Seq<u8>) -> Seq<u8> {
    s.take(at) + data + s.skip(at + data.len())
}

/// A position in a byte buffer; reading and writing happen at that position and advance it.
pub struct Cursor<B> {
    backing_buffer: B,
    position: usize,
    /// The bytes read from the cursor so far.
    given: Ghost<Seq<u8>>,
    /// The bytes written to the cursor so far.
    taken: Ghost<Seq<u8>>,
}

impl<B> Cursor<B> {
    /// The buffer behind the cursor.
    pub closed spec fn buffer(&self) -> B {
        self.backing_buffer
    }

    /// The position of the cursor.
    pub closed spec fn pos(&self) -> usize {
        self.position
    }

    /// The bytes read from the cursor so far, in order.
    pub closed spec fn read_log(&self) -> Seq<u8> {
        self.given@
    }

    /// The bytes written to the cursor so far, in order.
    pub closed spec fn write_log(&self) -> Seq<u8> {
        self.taken@
    }

    pub fn new(backing_buffer: B) -> (r: Self)
        ensures
            r.buffer() == backing_buffer,
            r.pos() == 0,
            r.read_log() == Seq::<u8>::empty(),
            r.write_log() == Seq::<u8>::empty(),
    {
        Cursor { backing_buffer, position: 0, given: Ghost(Seq::empty()), taken: Ghost(Seq::empty()) }
    }

    pub fn position(&self) -> (r: usize)
        ensures
            r == self.pos(),
    {
        self.position
    }

    pub fn set_position(&mut self, position: usize)
        ensures
            final(self).pos() == position,
            final(self).buffer() == old(self).buffer(),
            final(self).read_log() == old(self).read_log(),
            final(self).write_log() == old(self).write_log(),
    {
        self.position = position;
    }

    pub fn backing_buffer(&self) -> (r: &B)
        ensures
            *r == self.buffer(),
    {
        &self.backing_buffer
    }

    pub fn backing_buffer_mut(&mut self) -> (r: &mut B)
        ensures
            *r == old(self).buffer(),
            final(self).buffer() == *final(r),
            final(self).pos() == old(self).pos(),
    {
        &mut self.backing_buffer
    }
}

impl<B: BackingBuffer> Cursor<B> {
    /// The bytes of the buffer.
    pub open spec fn data(&self) -> Seq<u8> {
        self.buffer().contents()
    }

    /// The split point: the position, but at most the length of the buffer.
    pub open spec fn split_point(&self) -> int {
        min_int(self.pos() as int, self.data().len() as int)
    }

    pub fn len(&self) -> (r: usize)
        ensures
            r == self.data().len(),
    {
        self.backing_buffer.as_bytes().len()
    }

    pub fn is_empty(&self) -> (r: bool)
        ensures
            r == (self.data().len() == 0),
    {
        self.len() == 0
    }

    /// The number of bytes from the position to the end of the buffer.
    pub fn remaining(&self) -> (r: usize)
        ensures
            r == (if self.pos() <= self.data().len() {
                self.data().len() - self.pos()
            } else {
                0
            }),
    {
        let len = self.len();
        if self.position <= len {
            len - self.position
        } else {
            0
        }
    }

    pub fn full_buffer(&self) -> (r: &[u8])
        ensures
            r@ == self.data(),
    {
        self.backing_buffer.as_bytes()
    }

    /// The bytes before and after the position.
    pub fn split(&self) -> (r: (&[u8], &[u8]))
        ensures
            r.0@ == self.data().take(self.split_point()),
            r.1@ == self.data().skip(self.split_point()),
    {
        let slice = self.backing_buffer.as_bytes();
        let position = if self.position < slice.len() {
            self.position
        } else {
            slice.len()
        };
        slice.split_at(position)
    }

    pub fn before(&self) -> (r: &[u8])
        ensures
            r@ == self.data().take(self.split_point()),
    {
        self.split().0
    }

    pub fn after(&self) -> (r: &[u8])
        ensures
            r@ == self.data().skip(self.split_point()),
    {
        self.split().1
    }

    fn read_exact_internal(&mut self, byte_count: usize, peek: bool) -> (r: Result<
        &[u8],
        ReadExactError<core::convert::Infallible>,
    >)
        ensures
            final(self).buffer() == old(self).buffer(),
            final(self).read_log() == old(self).read_log(),
            final(self).write_log() == old(self).write_log(),
            old(self).pos() + byte_count <= old(self).data().len() ==> {
                &&& r is Ok
                &&& r->Ok_0@ == old(self).data().subrange(
                    old(self).pos() as int,
                    old(self).pos() + byte_count,
                )
                &&& final(self).pos() == (if peek {
                    old(self).pos() as int
                } else {
                    old(self).pos() + byte_count
                })
            },
            old(self).pos() + byte_count > old(self).data().len() ==> {
                &&& final(self).pos() == old(self).pos()
                &&& r == Err::<&[u8], _>(
                    ReadExactError::<core::convert::Infallible>::UnexpectedEof {
                        min_readable_bytes: (if old(self).pos() <= old(self).data().len() {
                            old(self).data().len() - old(self).pos()
                        } else {
                            0
                        }) as usize,
                        bytes_requested: byte_count,
                    },
                )
            },
    {
        let remaining = self.remaining();
        let slice = self.backing_buffer.as_bytes();
        if self.position > slice.len() || remaining < byte_count {
            return Err(
                ReadExactError::UnexpectedEof { min_readable_bytes: remaining, bytes_requested: byte_count },
            );
        }
        let start = self.position;
        let sliced = &slice[start..start + byte_count];
        if !peek {
            self.position = start + byte_count;
        }
        Ok(sliced)
    }

    /// Reads exactly `byte_count` bytes, consuming them.
    pub fn read_exact(&mut self, byte_count: usize) -> (r: Result<
        &[u8],
        ReadExactError<core::convert::Infallible>,
    >)
        ensures
            final(self).buffer() == old(self).buffer(),
            old(self).pos() + byte_count <= old(self).data().len() ==> {
                &&& r is Ok
                &&& r->Ok_0@ == old(self).data().subrange(
                    old(self).pos() as int,
                    old(self).pos() + byte_count,
                )
                &&& final(self).pos() == old(self).pos() + byte_count
            },
            old(self).pos() + byte_count > old(self).data().len() ==> {
                &&& final(self).pos() == old(self).pos()
                &&& r == Err::<&[u8], _>(
                    ReadExactError::<core::convert::Infallible>::UnexpectedEof {
                        min_readable_bytes: (if old(self).pos() <= old(self).data().len() {
                            old(self).data().len() - old(self).pos()
                        } else {
                            0
                        }) as usize,
                        bytes_requested: byte_count,
                    },
                )
            },
    {
        self.read_exact_internal(byte_count, false)
    }

    /// Returns exactly `byte_count` bytes without consuming them.
    pub fn peek_exact(&mut self, byte_count: usize) -> (r: Result<
        &[u8],
        ReadExactError<core::convert::Infallible>,
    >)
        ensures
            *final(self) == *old(self),
            old(self).pos() + byte_count <= old(self).data().len() ==> {
                &&& r is Ok
                &&& r->Ok_0@ == old(self).data().subrange(
                    old(self).pos() as int,
                    old(self).pos() + byte_count,
                )
            },
            old(self).pos() + byte_count > old(self).data().len() ==> r
                == Err::<&[u8], _>(
                ReadExactError::<core::convert::Infallible>::UnexpectedEof {
                    min_readable_bytes: (if old(self).pos() <= old(self).data().len() {
                        old(self).data().len() - old(self).pos()
                    } else {
                        0
                    }) as usize,
                    bytes_requested: byte_count,
                },
            ),
    {
        self.read_exact_internal(byte_count, true)
    }

    /// Moves the position forward by `byte_count` bytes.
    pub fn skip(&mut self, byte_count: usize)
        requires
            old(self).pos() + byte_count <= usize::MAX,
        ensures
            final(self).pos() == old(self).pos() + byte_count,
            final(self).buffer() == old(self).buffer(),
    {
        self.position = self.position + byte_count;
    }

    /// The number of bytes that can be read without reaching the end of the buffer.
    pub fn buffer_size_hint(&self) -> (r: usize)
        ensures
            r == self.data().len() - self.split_point(),
    {
        self.after().len()
    }
}

impl<B: BackingBufferMut> Cursor<B> {
    /// The bytes before and after the position, writable.
    pub fn split_mut(&mut self) -> (r: (&mut [u8], &mut [u8]))
        ensures
            r.0@ == old(self).data().take(old(self).split_point()),
            r.1@ == old(self).data().skip(old(self).split_point()),
            final(self).data() == final(r.0)@ + final(r.1)@,
            final(self).pos() == old(self).pos(),
    {
        let position = self.position;
        let slice = self.backing_buffer.as_bytes_mut();
        let split_at = if position < slice.len() {
            position
        } else {
            slice.len()
        };
        slice.split_at_mut(split_at)
    }

    pub fn before_mut(&mut self) -> (r: &mut [u8])
        ensures
            r@ == old(self).data().take(old(self).split_point()),
            final(self).data() == final(r)@ + old(self).data().skip(old(self).split_point()),
            final(self).pos() == old(self).pos(),
    {
        self.split_mut().0
    }

    pub fn after_mut(&mut self) -> (r: &mut [u8])
        ensures
            r@ == old(self).data().skip(old(self).split_point()),
            final(self).data() == old(self).data().take(old(self).split_point()) + final(r)@,
            final(self).pos() == old(self).pos(),
    {
        self.split_mut().1
    }
}

/// Copies `src` into the front of `dst`.
pub fn copy_into(dst: &mut [u8], src: &[u8])
    requires
        src@.len() <= old(dst)@.len(),
    ensures
        final(dst)@ == src@ + old(dst)@.skip(src@.len() as int),
{
    let n = src.len();
    let mut i: usize = 0;
    while i < n
        invariant
            n == src@.len(),
            n <= dst@.len(),
            dst@.len() == old(dst)@.len(),
            i <= n,
            forall|j: int| 0 <= j < i ==> dst@[j] == src@[j],
            forall|j: int| i <= j < dst@.len() ==> dst@[j] == old(dst)@[j],
        decreases n - i,
    {
        dst[i] = src[i];
        i = i + 1;
    }
    proof {
        assert(dst@ =~= src@ + old(dst)@.skip(src@.len() as int));
    }
}

impl<B: BackingBuffer> Read for Cursor<B> {
    type ReadError = core::convert::Infallible;

    open spec fn delivered(&self) -> Seq<u8> {
        self.read_log()
    }

    fn read(&mut self, output_buffer: &mut [u8]) -> (r: Result<usize, Self::ReadError>)
        ensures
            ({
                let avail = old(self).data().skip(old(self).split_point());
                let n = min_int(old(output_buffer)@.len() as int, avail.len() as int);
                &&& r == Ok::<usize, Self::ReadError>(n as usize)
                &&& final(output_buffer)@ == avail.take(n) + old(output_buffer)@.skip(n)
                &&& final(self).buffer() == old(self).buffer()
                &&& final(self).pos() == old(self).pos() + n
            }),
    {
        let _len = self.len();
        let after = self.after();
        let n = if output_buffer.len() < after.len() {
            output_buffer.len()
        } else {
            after.len()
        };
        copy_into(output_buffer, &after[0..n]);
        self.position = self.position + n;
        proof {
            self.given@ = self.given@ + output_buffer@.take(n as int);
        }
        Ok(n)
    }
}

/// The bytes of a cursor after writing `input` at `pos`, growing the buffer where it is short.
pub open spec fn written_contents(old_data: Seq<u8>, pos: int, input: Seq<u8>, end: int) -> Seq<u8> {
    let base = if end > old_data.len() {
        resized(old_data, end as nat)
    } else {
        old_data
    };
    overwrite(base, pos, input.take(end - pos))
}

/// Where a write of `len` bytes at `pos` ends: the sum, saturated at the largest `usize`.
pub open spec fn write_end(pos: usize, len: nat) -> int {
    min_int(pos + len, usize::MAX as int)
}

impl<B: BackingBufferMut> Write for Cursor<B> {
    type WriteError = B::ResizeError;

    type FlushError = core::convert::Infallible;

    open spec fn accepted(&self) -> Seq<u8> {
        self.write_log()
    }

    fn write(&mut self, input_buffer: &[u8], _sync_hint: bool) -> (r: Result<usize, Self::WriteError>)
        ensures
            input_buffer@.len() == 0 ==> r == Ok::<usize, Self::WriteError>(0) && *final(self)
                == *old(self),
            ({
                let end = write_end(old(self).pos(), input_buffer@.len());
                &&& input_buffer@.len() > 0 && end <= old(self).data().len() ==> r is Ok
                &&& input_buffer@.len() > 0 && r is Ok ==> {
                    &&& r == Ok::<usize, Self::WriteError>(input_buffer@.len() as usize)
                    &&& final(self).pos() == end
                    &&& final(self).data() == written_contents(
                        old(self).data(),
                        old(self).pos() as int,
                        input_buffer@,
                        end,
                    )
                }
                &&& r is Err ==> {
                    &&& end > old(self).data().len()
                    &&& final(self).pos() == old(self).pos()
                    &&& final(self).data() == old(self).data()
                }
                &&& r matches Err(e) ==> old(self).buffer().refuses(end as usize, e)
            }),
    {
        if input_buffer.len() == 0 {
            return Ok(0);
        }
        let position = self.position;
        let end_pos = position.saturating_add(input_buffer.len());
        let current_len = self.backing_buffer.as_bytes().len();
        if end_pos > current_len {
            match self.backing_buffer.try_resize(end_pos) {
                Ok(_new_size) => {},
                Err(e) => {
                    return Err(e.resize_error);
                },
            }
        }
        let ghost base = self.backing_buffer.contents();
        let buffer = self.backing_buffer.as_bytes_mut();
        let (_front, back) = buffer.split_at_mut(position);
        let (target, _rest) = back.split_at_mut(end_pos - position);
        copy_into(target, &input_buffer[0..end_pos - position]);
        proof {
            assert(self.backing_buffer.contents() =~= overwrite(
                base,
                position as int,
                input_buffer@.take(end_pos - position),
            ));
        }
        self.position = end_pos;
        proof {
            self.taken@ = self.taken@ + input_buffer@;
            assert(input_buffer@.take(input_buffer@.len() as int) =~= input_buffer@);
        }
        Ok(input_buffer.len())
    }

    fn flush(&mut self) -> (r: Result<(), Self::FlushError>)
        ensures
            *final(self) == *old(self),
    {
        Ok(())
    }
}

impl<B: BackingBuffer> Seek for Cursor<B> {
    type SeekError = CursorSeekError;

    fn seek(&mut self, style: SeekFrom) -> (r: Result<usize, Self::SeekError>)
        ensures
            final(self).buffer() == old(self).buffer(),
            ({
                match style {
                    SeekFrom::Start(n) => r == Ok::<usize, CursorSeekError>(n) && final(self).pos()
                        == n,
                    SeekFrom::End(n) => seek_result(*old(self), old(self).data().len() as usize, n, style, r, final(self).pos()),
                    SeekFrom::Current(n) => seek_result(*old(self), old(self).pos(), n, style, r, final(self).pos()),
                }
            }),
    {
        let (base_pos, offset) = match style {
            SeekFrom::Start(n) => {
                self.position = n;
                return Ok(n);
            },
            SeekFrom::End(n) => (self.len(), n),
            SeekFrom::Current(n) => (self.position, n),
        };
        let moved = if offset >= 0 {
            base_pos.checked_add(offset as usize)
        } else {
            let back = ((-(offset + 1)) as usize) + 1;
            base_pos.checked_sub(back)
        };
        match moved {
            Some(n) => {
                self.position = n;
                Ok(n)
            },
            None => Err(
                CursorSeekError::OutOfBounds { position: base_pos, length: self.len(), offset: style },
            ),
        }
    }
}

/// The outcome of a relative seek from `base` by `offset`: the new position, or an error when it
/// falls outside `0..=usize::MAX`.
pub open spec fn seek_result<B: BackingBuffer>(
    before: Cursor<B>,
    base: usize,
    offset: isize,
    style: SeekFrom,
    r: Result<usize, CursorSeekError>,
    new_pos: usize,
) -> bool {
    let target = base + offset;
    if 0 <= target <= usize::MAX {
        r == Ok::<usize, CursorSeekError>(target as usize) && new_pos == target
    } else {
        r == Err::<usize, CursorSeekError>(
            CursorSeekError::OutOfBounds {
                position: base,
                length: before.data().len() as usize,
                offset: style,
            },
        ) && new_pos == before.pos()
    }
}


/// Reading a cursor at the place of a write gives back what was written: after a write of
/// `input` at `pos` that does not reach the end of the `usize` range, the bytes from `pos` on
/// are `input`.
pub proof fn law_cursor_read_after_write(old_data: Seq<u8>, pos: usize, input: Seq<u8>)
    requires
        pos + input.len() <= usize::MAX,
    ensures
        ({
            let end = write_end(pos, input.len());
            let data = written_contents(old_data, pos as int, input, end);
            &&& end == pos + input.len()
            &&& end <= data.len()
            &&& data.subrange(pos as int, end) == input
        }),
{
    let end = write_end(pos, input.len());
    let base = if end > old_data.len() {
        resized(old_data, end as nat)
    } else {
        old_data
    };
    assert(input.take(end - pos) =~= input);
    assert(written_contents(old_data, pos as int, input, end).subrange(pos as int, end) =~= input);
}
} // verus!
