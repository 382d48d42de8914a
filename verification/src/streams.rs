//! Small readers and writers: empty, null, slice- and vector-backed, bytewise and limited streams.
use vstd::prelude::*;

use crate::cursor::{copy_into, min_int, overwrite};
use crate::io::{is_subsequence, Read, Write};

verus! {

/// [`EmptyStream`] ignores any data written via [`Write`], and will always be empty (returning zero
/// bytes) when read via [`Read`].
///
/// This is the equivalent of `std::io::sink()`, `std::io::empty()` and `/dev/null`.
pub struct EmptyStream {
    /// The bytes written and dropped so far.
    discarded: Ghost<Seq<u8>>,
}

impl EmptyStream {
    pub fn new() -> (r: Self)
        ensures
            r.accepted() == Seq::<u8>::empty(),
    {
        EmptyStream { discarded: Ghost(Seq::empty()) }
    }
}

impl Default for EmptyStream {
    fn default() -> (r: Self)
        ensures
            r.accepted() == Seq::<u8>::empty(),
    {
        EmptyStream::new()
    }
}

impl Write for EmptyStream {
    type WriteError = core::convert::Infallible;

    type FlushError = core::convert::Infallible;

    closed spec fn accepted(&self) -> Seq<u8> {
        self.discarded@
    }

    fn write(&mut self, input_buffer: &[u8], _sync_hint: bool) -> (r: Result<usize, Self::WriteError>)
        ensures
            r == Ok::<usize, Self::WriteError>(input_buffer@.len() as usize),
    {
        proof {
            self.discarded@ = self.discarded@ + input_buffer@;
            assert(input_buffer@.take(input_buffer@.len() as int) =~= input_buffer@);
        }
        Ok(input_buffer.len())
    }

    fn flush(&mut self) -> (r: Result<(), Self::FlushError>)
        ensures
            r is Ok,
    {
        Ok(())
    }
}

impl Read for EmptyStream {
    type ReadError = core::convert::Infallible;

    open spec fn delivered(&self) -> Seq<u8> {
        Seq::empty()
    }

    fn read(&mut self, output_buffer: &mut [u8]) -> (r: Result<usize, Self::ReadError>)
        ensures
            r == Ok::<usize, Self::ReadError>(0),
            final(output_buffer)@ == old(output_buffer)@,
    {
        proof {
            assert(Seq::<u8>::empty() + output_buffer@.take(0) =~= Seq::<u8>::empty());
        }
        Ok(0)
    }
}

/// A `NullWriter` that discards all written data.
pub struct NullWriter {
    /// The bytes written and dropped so far.
    discarded: Ghost<Seq<u8>>,
}

impl NullWriter {
    pub fn new() -> (r: Self)
        ensures
            r.accepted() == Seq::<u8>::empty(),
    {
        NullWriter { discarded: Ghost(Seq::empty()) }
    }
}

impl Default for NullWriter {
    fn default() -> (r: Self)
        ensures
            r.accepted() == Seq::<u8>::empty(),
    {
        NullWriter::new()
    }
}

impl Write for NullWriter {
    type WriteError = core::convert::Infallible;

    type FlushError = core::convert::Infallible;

    closed spec fn accepted(&self) -> Seq<u8> {
        self.discarded@
    }

    fn write(&mut self, input_buffer: &[u8], _sync_hint: bool) -> (r: Result<usize, Self::WriteError>)
        ensures
            r == Ok::<usize, Self::WriteError>(input_buffer@.len() as usize),
    {
        proof {
            self.discarded@ = self.discarded@ + input_buffer@;
            assert(input_buffer@.take(input_buffer@.len() as int) =~= input_buffer@);
        }
        Ok(input_buffer.len())
    }

    fn flush(&mut self) -> (r: Result<(), Self::FlushError>)
        ensures
            r is Ok,
    {
        Ok(())
    }
}

/// A writer that writes data into a byte slice, from its start, until the slice is full.
pub struct SliceWriter<'a> {
    target: &'a mut [u8],
    position: usize,
    /// The bytes taken so far.
    taken: Ghost<Seq<u8>>,
}

impl<'a> SliceWriter<'a> {
    /// The bytes of the target slice.
    pub closed spec fn contents(&self) -> Seq<u8> {
        self.target@
    }

    /// The number of bytes written so far.
    pub closed spec fn written(&self) -> usize {
        self.position
    }

    pub fn new(target: &'a mut [u8]) -> (r: Self)
        ensures
            r.contents() == old(target)@,
            r.written() == 0,
            r.accepted() == Seq::<u8>::empty(),
    {
        SliceWriter { target, position: 0, taken: Ghost(Seq::empty()) }
    }

    /// Returns the remaining capacity of the slice.
    pub fn remaining_capacity(&self) -> (r: usize)
        ensures
            r == (if self.written() <= self.contents().len() {
                self.contents().len() - self.written()
            } else {
                0
            }),
    {
        if self.position <= self.target.len() {
            self.target.len() - self.position
        } else {
            0
        }
    }

    pub fn as_slice(&self) -> (r: &[u8])
        ensures
            r@ == self.contents(),
    {
        &*self.target
    }

    /// What a write of `input` does: as much of it as fits goes in after the bytes written so
    /// far, and the rest of the slice is left as it was.
    pub open spec fn write_effect(before: Self, input: Seq<u8>, r: Result<usize, core::convert::Infallible>, after: Self) -> bool {
        before.written() <= before.contents().len() ==> {
            let n = min_int(input.len() as int, before.contents().len() - before.written());
            &&& r == Ok::<usize, core::convert::Infallible>(n as usize)
            &&& after.written() == before.written() + n
            &&& after.contents() == overwrite(before.contents(), before.written() as int, input.take(n))
        }
    }

    pub fn as_mut_slice(&mut self) -> (r: &mut [u8])
        ensures
            r@ == old(self).contents(),
            final(self).contents() == final(r)@,
            final(self).written() == old(self).written(),
    {
        &mut *self.target
    }
}

/// The bytes that writes of `inputs` put into a slice writer with `room` bytes left: each as much
/// of its input as still fits.
pub open spec fn slice_parts(room: int, inputs: Seq<Seq<u8>>) -> Seq<u8>
    decreases inputs.len(),
{
    if inputs.len() == 0 {
        Seq::empty()
    } else {
        let before = slice_parts(room, inputs.drop_last());
        before + inputs.last().take(min_int(inputs.last().len() as int, room - before.len()))
    }
}

/// What a run of writes puts into a slice writer never goes beyond the room it had.
pub proof fn lemma_slice_parts_fit(room: int, inputs: Seq<Seq<u8>>)
    requires
        room >= 0,
    ensures
        slice_parts(room, inputs).len() <= room,
    decreases inputs.len(),
{
    if inputs.len() > 0 {
        lemma_slice_parts_fit(room, inputs.drop_last());
    }
}

/// After any run of writes, a slice writer holds, after what it had written, as much of each
/// input as fitted, in order; its remaining capacity is what is left, and the rest of the slice
/// is untouched.
pub proof fn law_slice_writer_run<'a>(ws: Seq<SliceWriter<'a>>, inputs: Seq<Seq<u8>>, results: Seq<Result<usize, core::convert::Infallible>>)
    requires
        ws.len() == inputs.len() + 1,
        results.len() == inputs.len(),
        ws[0].written() <= ws[0].contents().len(),
        forall|i: int|
            0 <= i < inputs.len() ==> #[trigger] SliceWriter::write_effect(ws[i], inputs[i], results[i], ws[i + 1]),
    ensures
        ({
            let parts = slice_parts(ws[0].contents().len() - ws[0].written(), inputs);
            &&& ws.last().written() == ws[0].written() + parts.len()
            &&& ws.last().written() <= ws.last().contents().len()
            &&& ws.last().contents() == overwrite(ws[0].contents(), ws[0].written() as int, parts)
        }),
    decreases inputs.len(),
{
    let room = ws[0].contents().len() - ws[0].written();
    let c0 = ws[0].contents();
    let w0 = ws[0].written() as int;
    if inputs.len() == 0 {
        assert(overwrite(c0, w0, Seq::<u8>::empty()) =~= c0);
    } else {
        let k = inputs.len() - 1;
        law_slice_writer_run(ws.drop_last(), inputs.drop_last(), results.drop_last());
        lemma_slice_parts_fit(room, inputs.drop_last());
        assert(SliceWriter::write_effect(ws[k], inputs[k], results[k], ws[k + 1]));
        assert(ws.drop_last().last() == ws[k]);
        let p = slice_parts(room, inputs.drop_last());
        let q = inputs.last().take(min_int(inputs.last().len() as int, room - p.len()));
        assert(overwrite(overwrite(c0, w0, p), w0 + p.len(), q) =~= overwrite(c0, w0, p + q));
    }
}

impl<'a> Write for SliceWriter<'a> {
    type WriteError = core::convert::Infallible;

    type FlushError = core::convert::Infallible;

    closed spec fn accepted(&self) -> Seq<u8> {
        self.taken@
    }

    /// Writes as much of `input_buffer` as fits after the bytes written so far.
    fn write(&mut self, input_buffer: &[u8], _sync_hint: bool) -> (r: Result<usize, Self::WriteError>)
        ensures
            SliceWriter::write_effect(*old(self), input_buffer@, r, *final(self)),
            old(self).written() <= old(self).contents().len() ==> final(self).written()
                <= final(self).contents().len(),
            old(self).written() <= old(self).contents().len() ==> ({
                let n = min_int(
                    input_buffer@.len() as int,
                    old(self).contents().len() - old(self).written(),
                );
                &&& r == Ok::<usize, Self::WriteError>(n as usize)
                &&& final(self).written() == old(self).written() + n
                &&& final(self).contents() == overwrite(
                    old(self).contents(),
                    old(self).written() as int,
                    input_buffer@.take(n),
                )
            }),
    {
        let _len = self.target.len();
        let remaining = self.remaining_capacity();
        if input_buffer.len() == 0 || remaining == 0 {
            proof {
                if self.position <= self.target@.len() {
                    assert(self.target@ =~= overwrite(
                        self.target@,
                        self.position as int,
                        input_buffer@.take(0),
                    ));
                }
            }
            proof {
                assert(self.taken@ =~= self.taken@ + input_buffer@.take(0));
            }
            return Ok(0);
        }
        let n = if input_buffer.len() < remaining {
            input_buffer.len()
        } else {
            remaining
        };
        let position = self.position;
        let ghost before = self.target@;
        {
            let (_front, back) = self.target.split_at_mut(position);
            let (dst, _rest) = back.split_at_mut(n);
            copy_into(dst, &input_buffer[0..n]);
        }
        proof {
            assert(self.target@ =~= overwrite(before, position as int, input_buffer@.take(n as int)));
        }
        self.position = position + n;
        proof {
            self.taken@ = self.taken@ + input_buffer@.take(n as int);
        }
        Ok(n)
    }

    fn flush(&mut self) -> (r: Result<(), Self::FlushError>)
        ensures
            r is Ok,
    {
        Ok(())
    }
}

/// A reader that consumes a byte slice from its front.
pub struct SliceReader<'a> {
    source: &'a [u8],
    /// The bytes handed out so far.
    given: Ghost<Seq<u8>>,
}

impl<'a> SliceReader<'a> {
    /// The bytes not read yet.
    pub closed spec fn unread(&self) -> Seq<u8> {
        self.source@
    }

    pub fn new(source: &'a [u8]) -> (r: Self)
        ensures
            r.unread() == source@,
            r.delivered() == Seq::<u8>::empty(),
    {
        SliceReader { source, given: Ghost(Seq::empty()) }
    }
}

impl<'a> Read for SliceReader<'a> {
    type ReadError = core::convert::Infallible;

    closed spec fn delivered(&self) -> Seq<u8> {
        self.given@
    }

    fn read(&mut self, output_buffer: &mut [u8]) -> (r: Result<usize, Self::ReadError>)
        ensures
            ({
                let n = min_int(old(output_buffer)@.len() as int, old(self).unread().len() as int);
                &&& r == Ok::<usize, Self::ReadError>(n as usize)
                &&& final(output_buffer)@ == old(self).unread().take(n) + old(output_buffer)@.skip(
                    n,
                )
                &&& final(self).unread() == old(self).unread().skip(n)
            }),
    {
        let n = if output_buffer.len() < self.source.len() {
            output_buffer.len()
        } else {
            self.source.len()
        };
        let (head, tail) = self.source.split_at(n);
        copy_into(output_buffer, head);
        self.source = tail;
        proof {
            self.given@ = self.given@ + output_buffer@.take(n as int);
        }
        Ok(n)
    }
}

/// A reader over a byte slice that keeps the slice and a read position.
pub struct BufferReader<'a> {
    source: &'a [u8],
    position: usize,
}

impl<'a> BufferReader<'a> {
    #[verifier::type_invariant]
    spec fn inv(self) -> bool {
        self.position <= self.source@.len()
    }

    /// The bytes not read yet.
    pub closed spec fn unread(&self) -> Seq<u8> {
        self.source@.skip(self.position as int)
    }

    pub fn new(source: &'a [u8]) -> (r: Self)
        ensures
            r.unread() == source@,
            r.delivered() == Seq::<u8>::empty(),
    {
        let r = BufferReader { source, position: 0 };
        proof {
            assert(r.unread() =~= source@);
            assert(r.delivered() =~= Seq::<u8>::empty());
        }
        r
    }
}

impl<'a> Read for BufferReader<'a> {
    type ReadError = core::convert::Infallible;

    closed spec fn delivered(&self) -> Seq<u8> {
        self.source@.take(self.position as int)
    }

    fn read(&mut self, output_buffer: &mut [u8]) -> (r: Result<usize, Self::ReadError>)
        ensures
            ({
                let n = min_int(old(output_buffer)@.len() as int, old(self).unread().len() as int);
                &&& r == Ok::<usize, Self::ReadError>(n as usize)
                &&& final(output_buffer)@ == old(self).unread().take(n) + old(output_buffer)@.skip(
                    n,
                )
                &&& final(self).unread() == old(self).unread().skip(n)
            }),
    {
        proof {
            use_type_invariant(&*self);
        }
        if self.position >= self.source.len() {
            proof {
                assert(old(output_buffer)@ =~= old(self).unread().take(0) + old(output_buffer)@.skip(
                    0,
                ));
                assert(self.unread() =~= old(self).unread().skip(0));
                assert((*self).delivered() =~= (*self).delivered() + output_buffer@.take(0));
            }
            return Ok(0);
        }
        let remaining_in_source = self.source.len() - self.position;
        let bytes_to_read = if output_buffer.len() < remaining_in_source {
            output_buffer.len()
        } else {
            remaining_in_source
        };
        let start = self.position;
        copy_into(output_buffer, &self.source[start..start + bytes_to_read]);
        self.position = start + bytes_to_read;
        proof {
            assert(self.source@.subrange(start as int, start + bytes_to_read) =~= old(
                self,
            ).unread().take(bytes_to_read as int));
            assert(self.unread() =~= old(self).unread().skip(bytes_to_read as int));
            assert(output_buffer@.take(bytes_to_read as int) =~= self.source@.subrange(
                start as int,
                start + bytes_to_read,
            ));
            assert((*self).delivered() =~= (*old(self)).delivered() + output_buffer@.take(
                bytes_to_read as int,
            ));
        }
        Ok(bytes_to_read)
    }
}

/// Errors of the in-memory [`BufferWriter`].
#[derive(Debug, PartialEq, Eq)]
pub enum IoError {
    /// The write would take the buffer beyond its maximum size.
    MemoryLimitExceeded,
}

/// A growable in-memory writer with a maximum size.
pub struct BufferWriter {
    target: Vec<u8>,
    max_buffer_size: usize,
}

impl BufferWriter {
    /// The bytes written so far.
    pub closed spec fn written(&self) -> Seq<u8> {
        self.target@
    }

    /// The most bytes the writer holds.
    pub closed spec fn max_size(&self) -> usize {
        self.max_buffer_size
    }

    pub fn new(max_buffer_size: usize) -> (r: Self)
        ensures
            r.written() == Seq::<u8>::empty(),
            r.max_size() == max_buffer_size,
    {
        BufferWriter { target: Vec::new(), max_buffer_size }
    }

    /// Get a reference to the bytes written so far.
    pub fn as_slice(&self) -> (r: &[u8])
        ensures
            r@ == self.written(),
    {
        self.target.as_slice()
    }

    /// What a write of `input` does: it appends all of it when the maximum size allows, and
    /// nothing otherwise.
    pub open spec fn write_effect(before: Self, input: Seq<u8>, after: Self) -> bool {
        &&& after.max_size() == before.max_size()
        &&& after.written() == buffer_write(before.max_size() as nat, before.written(), input)
    }
}

/// What a buffer writer holding `held`, with maximum size `max`, holds after a write of `input`.
pub open spec fn buffer_write(max: nat, held: Seq<u8>, input: Seq<u8>) -> Seq<u8> {
    if held.len() + input.len() <= max {
        held + input
    } else {
        held
    }
}

/// What a buffer writer with maximum size `max`, holding `held`, holds after the writes of
/// `inputs`, in order.
pub open spec fn buffer_writes(max: nat, held: Seq<u8>, inputs: Seq<Seq<u8>>) -> Seq<u8>
    decreases inputs.len(),
{
    if inputs.len() == 0 {
        held
    } else {
        buffer_write(max, buffer_writes(max, held, inputs.drop_last()), inputs.last())
    }
}

/// A buffer writer holds, after any run of writes, the inputs of the writes that succeeded, in
/// order; the writes that were refused left it unchanged, and it never holds more than its
/// maximum size.
pub proof fn law_buffer_writer_run(ws: Seq<BufferWriter>, inputs: Seq<Seq<u8>>)
    requires
        ws.len() == inputs.len() + 1,
        ws[0].written().len() <= ws[0].max_size(),
        forall|i: int| 0 <= i < inputs.len() ==> #[trigger] BufferWriter::write_effect(ws[i], inputs[i], ws[i + 1]),
    ensures
        ws.last().max_size() == ws[0].max_size(),
        ws.last().written() == buffer_writes(ws[0].max_size() as nat, ws[0].written(), inputs),
        ws.last().written().len() <= ws[0].max_size(),
    decreases inputs.len(),
{
    if inputs.len() > 0 {
        let k = inputs.len() - 1;
        law_buffer_writer_run(ws.drop_last(), inputs.drop_last());
        assert(BufferWriter::write_effect(ws[k], inputs[k], ws[k + 1]));
        assert(ws.drop_last().last() == ws[k]);
    }
}

impl Write for BufferWriter {
    type WriteError = IoError;

    type FlushError = IoError;

    /// What a buffer writer has taken is what it holds.
    open spec fn accepted(&self) -> Seq<u8> {
        self.written()
    }

    /// Appends all of `input_buffer`, or nothing when the maximum size would be exceeded.
    fn write(&mut self, input_buffer: &[u8], _sync_hint: bool) -> (r: Result<usize, Self::WriteError>)
        ensures
            BufferWriter::write_effect(*old(self), input_buffer@, *final(self)),
            final(self).max_size() == old(self).max_size(),
            old(self).written().len() + input_buffer@.len() <= old(self).max_size() ==> {
                &&& r == Ok::<usize, IoError>(input_buffer@.len() as usize)
                &&& final(self).written() == old(self).written() + input_buffer@
            },
            old(self).written().len() + input_buffer@.len() > old(self).max_size() ==> {
                &&& r == Err::<usize, IoError>(IoError::MemoryLimitExceeded)
                &&& final(self).written() == old(self).written()
            },
    {
        let new_len = match self.target.len().checked_add(input_buffer.len()) {
            Some(n) => n,
            None => {
                return Err(IoError::MemoryLimitExceeded);
            },
        };
        if new_len > self.max_buffer_size {
            return Err(IoError::MemoryLimitExceeded);
        }
        self.target.extend_from_slice(input_buffer);
        proof {
            assert(self.target@ =~= old(self).target@ + input_buffer@);
            assert(input_buffer@.take(input_buffer@.len() as int) =~= input_buffer@);
        }
        Ok(input_buffer.len())
    }

    fn flush(&mut self) -> (r: Result<(), Self::FlushError>)
        ensures
            r is Ok,
    {
        Ok(())
    }
}

/// A reader that reads data byte by byte, useful for testing.
pub struct BytewiseReader<R: Read> {
    source_reader: R,
}

impl<R: Read> BytewiseReader<R> {
    /// The wrapped reader.
    pub closed spec fn source(&self) -> R {
        self.source_reader
    }

    pub fn new(source_reader: R) -> (r: Self)
        ensures
            r.source() == source_reader,
    {
        BytewiseReader { source_reader }
    }
}

impl<R: Read> Read for BytewiseReader<R> {
    type ReadError = R::ReadError;

    /// A bytewise reader hands out exactly what its source hands it.
    open spec fn delivered(&self) -> Seq<u8> {
        self.source().delivered()
    }

    /// Reads at most one byte, into the front of `output_buffer`.
    fn read(&mut self, output_buffer: &mut [u8]) -> (r: Result<usize, Self::ReadError>)
        ensures
            r matches Ok(n) ==> n <= 1,
            old(output_buffer)@.len() == 0 ==> r == Ok::<usize, R::ReadError>(0),
            final(output_buffer)@.skip(1) == old(output_buffer)@.skip(1),
    {
        if output_buffer.len() == 0 {
            proof {
                assert((*self).delivered() =~= (*self).delivered() + output_buffer@.take(0));
            }
            return Ok(0);
        }
        let mut single_byte = [0u8; 1];
        let bytes_read = match self.source_reader.read(&mut single_byte) {
            Ok(n) => n,
            Err(e) => {
                return Err(e);
            },
        };
        if bytes_read == 0 {
            proof {
                assert(single_byte@.take(0) =~= output_buffer@.take(0));
            }
            return Ok(0);
        }
        output_buffer[0] = single_byte[0];
        proof {
            assert(output_buffer@.skip(1) =~= old(output_buffer)@.skip(1));
            assert(single_byte@.take(1) =~= output_buffer@.take(1));
        }
        Ok(1)
    }
}

/// A writer that hands data to its target one byte per call, useful for testing.
pub struct BytewiseWriter<'a, W: Write + ?Sized> {
    target_writer: &'a mut W,
    /// The bytes reported taken so far.
    taken: Ghost<Seq<u8>>,
}

impl<'a, W: Write + ?Sized> BytewiseWriter<'a, W> {
    /// What the target writer has taken.
    pub closed spec fn target_accepted(&self) -> Seq<u8> {
        (*self.target_writer).accepted()
    }

    pub fn new(target_writer: &'a mut W) -> (r: Self)
        ensures
            r.accepted() == Seq::<u8>::empty(),
            r.target_accepted() == (*old(target_writer)).accepted(),
    {
        BytewiseWriter { target_writer, taken: Ghost(Seq::empty()) }
    }
}

impl<'a, W: Write + ?Sized> Write for BytewiseWriter<'a, W> {
    type WriteError = W::WriteError;

    type FlushError = W::FlushError;

    closed spec fn accepted(&self) -> Seq<u8> {
        self.taken@
    }

    /// Writes every byte with its own call; only the last carries `sync_hint`.
    /// Returns the number of bytes the target accepted. A byte the target refuses is skipped, so
    /// the target has taken the input in order when it took every byte.
    fn write(&mut self, input_buffer: &[u8], sync_hint: bool) -> (r: Result<usize, Self::WriteError>)
        ensures
            input_buffer@.len() == 0 ==> r == Ok::<usize, W::WriteError>(0),
            r == Ok::<usize, W::WriteError>(input_buffer@.len() as usize) ==> final(self).target_accepted()
                == old(self).target_accepted() + input_buffer@,
            r is Ok ==> old(self).target_accepted().is_prefix_of(final(self).target_accepted())
                && is_subsequence(
                final(self).target_accepted().skip(old(self).target_accepted().len() as int),
                input_buffer@,
            ),
            r matches Ok(n) ==> n <= input_buffer@.len() && final(self).target_accepted().len()
                == old(self).target_accepted().len() + n,
    {
        let len = input_buffer.len();
        let mut bytes_written: usize = 0;
        let mut i: usize = 0;
        proof {
            assert(self.target_accepted() =~= old(self).target_accepted() + input_buffer@.take(0));
        }
        while i < len
            invariant
                len == input_buffer@.len(),
                i <= len,
                bytes_written <= i,
                self.taken == old(self).taken,
                bytes_written == i ==> self.target_accepted() == old(self).target_accepted()
                    + input_buffer@.take(i as int),
                old(self).target_accepted().is_prefix_of(self.target_accepted()),
                self.target_accepted().len() == old(self).target_accepted().len() + bytes_written,
                is_subsequence(
                    self.target_accepted().skip(old(self).target_accepted().len() as int),
                    input_buffer@.take(i as int),
                ),
            decreases len - i,
        {
            let byte = [input_buffer[i]];
            let hint = bytewise_hint(i, len, sync_hint);
            let ghost t0 = self.target_accepted();
            let ghost o = old(self).target_accepted().len() as int;
            match self.target_writer.write(&byte, hint) {
                Ok(n) => {
                    proof {
                        let t1 = self.target_accepted();
                        let p1 = input_buffer@.take(i + 1);
                        assert(p1.drop_last() =~= input_buffer@.take(i as int));
                        assert(p1.last() == input_buffer@[i as int]);
                        if n == 1 {
                            assert(input_buffer@.take(i + 1) =~= input_buffer@.take(i as int)
                                + byte@.take(1));
                            assert(t1 =~= t0.push(input_buffer@[i as int]));
                            assert(t1.skip(o).drop_last() =~= t0.skip(o));
                            assert(t1.skip(o).last() == p1.last());
                        } else {
                            assert(t1 =~= t0);
                        }
                        assert(is_subsequence(t1.skip(o), p1));
                    }
                    bytes_written = bytes_written + n;
                },
                Err(e) => {
                    return Err(e);
                },
            }
            i = i + 1;
        }
        proof {
            self.taken@ = self.taken@ + input_buffer@.take(bytes_written as int);
            assert(input_buffer@.take(len as int) =~= input_buffer@);
        }
        Ok(bytes_written)
    }


    fn flush(&mut self) -> (r: Result<(), Self::FlushError>) {
        self.target_writer.flush()
    }
}


/// The sync hint a bytewise writer gives with the byte at `i` of `len`: the caller's, on the
/// last byte only.
pub fn bytewise_hint(i: usize, len: usize, sync_hint: bool) -> (r: bool)
    ensures
        r == (i + 1 == len && sync_hint),
{
    if len > 0 && i == len - 1 {
        sync_hint
    } else {
        false
    }
}

/// Error of a [`LimitedReader`].
#[derive(Debug, PartialEq, Eq)]
pub enum LimitedReaderReadError<U> {
    /// The limit, given, was already reached.
    ReadLimitExceeded(usize),
    UnderlyingReadError(U),
}

/// A reader that only reads up to a specified limit.
/// This is useful when handling user input to prevent resource exhaustion attacks.
///
/// This is the equivalent of `std::io::Read::take`.
pub struct LimitedReader<R: Read> {
    source_reader: R,
    read_limit_bytes: usize,
    bytes_read: usize,
}

impl<R: Read> LimitedReader<R> {
    /// The reader read from.
    pub closed spec fn source(&self) -> R {
        self.source_reader
    }

    /// The most bytes this reader hands out.
    pub closed spec fn limit(&self) -> usize {
        self.read_limit_bytes
    }

    /// The bytes handed out so far.
    pub closed spec fn count(&self) -> usize {
        self.bytes_read
    }

    /// Creates a new `LimitedReader` with the specified limit.
    pub fn new(source_reader: R, read_limit_bytes: usize) -> (r: Self)
        ensures
            r.limit() == read_limit_bytes,
            r.count() == 0,
            r.source() == source_reader,
    {
        LimitedReader { source_reader, read_limit_bytes, bytes_read: 0 }
    }

    /// Returns the number of bytes read so far.
    pub fn bytes_read(&self) -> (r: usize)
        ensures
            r == self.count(),
    {
        self.bytes_read
    }

    /// What a read that returned `r` does to the count: it grows by the bytes read, and stays
    /// under the limit.
    pub open spec fn read_count_effect(
        before: Self,
        r: Result<usize, LimitedReaderReadError<R::ReadError>>,
        after: Self,
    ) -> bool {
        &&& after.limit() == before.limit()
        &&& before.count() <= before.limit() ==> after.count() <= after.limit()
        &&& r matches Ok(n) ==> after.count() == before.count() + n
        &&& r is Err ==> after.count() == before.count()
    }
}

/// The sum of the counts of the results that are `Ok`.
pub open spec fn ok_total<E>(results: Seq<Result<usize, E>>) -> nat
    decreases results.len(),
{
    if results.len() == 0 {
        0
    } else {
        ok_total(results.drop_last()) + match results.last() {
            Ok(n) => n as nat,
            Err(_) => 0,
        }
    }
}

/// After any run of reads, a limited reader has counted the bytes of the reads that succeeded,
/// and no more than its limit.
pub proof fn law_limited_reader_run<R: Read>(
    rs: Seq<LimitedReader<R>>,
    results: Seq<Result<usize, LimitedReaderReadError<R::ReadError>>>,
)
    requires
        rs.len() == results.len() + 1,
        rs[0].count() <= rs[0].limit(),
        forall|i: int|
            0 <= i < results.len() ==> #[trigger] LimitedReader::read_count_effect(rs[i], results[i], rs[i + 1]),
    ensures
        rs.last().limit() == rs[0].limit(),
        rs.last().count() == rs[0].count() + ok_total(results),
        rs.last().count() <= rs.last().limit(),
    decreases results.len(),
{
    if results.len() > 0 {
        let k = results.len() - 1;
        law_limited_reader_run(rs.drop_last(), results.drop_last());
        assert(LimitedReader::read_count_effect(rs[k], results[k], rs[k + 1]));
        assert(rs.drop_last().last() == rs[k]);
    }
}

impl<R: Read> Read for LimitedReader<R> {
    type ReadError = LimitedReaderReadError<R::ReadError>;

    /// A limited reader hands out exactly what its source hands it.
    open spec fn delivered(&self) -> Seq<u8> {
        self.source().delivered()
    }

    /// An empty `output_buffer` reads 0 bytes. Otherwise, once the limit is reached, the read
    /// fails; before, the source is asked for at most the bytes left under the limit, into the
    /// front of `output_buffer`, and what it returns is passed on (`limited_read_result`).
    fn read(&mut self, output_buffer: &mut [u8]) -> (r: Result<usize, Self::ReadError>)
        ensures
            LimitedReader::read_count_effect(*old(self), r, *final(self)),
            final(self).limit() == old(self).limit(),
            old(self).count() <= old(self).limit() ==> final(self).count() <= final(self).limit(),
            old(output_buffer)@.len() == 0 ==> r == Ok::<usize, Self::ReadError>(0) && *final(self)
                == *old(self),
            old(output_buffer)@.len() > 0 && old(self).count() >= old(self).limit() ==> r == Err::<
                usize,
                Self::ReadError,
            >(LimitedReaderReadError::ReadLimitExceeded(old(self).limit())) && *final(self) == *old(self),
            r matches Err(LimitedReaderReadError::ReadLimitExceeded(l)) ==> l == old(self).limit()
                && old(self).count() >= old(self).limit() && old(output_buffer)@.len() > 0,
            (r matches Err(LimitedReaderReadError::UnderlyingReadError(_))) ==> old(self).count() < old(
                self,
            ).limit() && old(output_buffer)@.len() > 0,
            r matches Ok(n) ==> {
                &&& final(self).count() == old(self).count() + n
                &&& n <= old(output_buffer)@.len()
                &&& old(self).count() <= old(self).limit() ==> n <= clipped_len(
                    old(output_buffer)@.len() as int,
                    old(self).count() as int,
                    old(self).limit() as int,
                )
            },
            r is Err ==> final(self).count() == old(self).count(),
            final(output_buffer)@.len() == old(output_buffer)@.len(),
            old(self).count() < old(self).limit() ==> final(output_buffer)@.skip(
                clipped_len(old(output_buffer)@.len() as int, old(self).count() as int, old(self).limit() as int),
            ) == old(output_buffer)@.skip(
                clipped_len(old(output_buffer)@.len() as int, old(self).count() as int, old(self).limit() as int),
            ),
    {
        if output_buffer.len() == 0 {
            proof {
                assert(self.source().delivered() =~= self.source().delivered() + output_buffer@.take(0));
            }
            return Ok(0);
        }
        if self.bytes_read >= self.read_limit_bytes {
            return Err(LimitedReaderReadError::ReadLimitExceeded(self.read_limit_bytes));
        }
        let bytes_to_read = clip(output_buffer.len(), self.bytes_read, self.read_limit_bytes);
        let ghost before = output_buffer@;
        let (head, _tail) = output_buffer.split_at_mut(bytes_to_read);
        let result = self.source_reader.read(head);
        let ghost head_after = head@;
        proof {
            if let Ok(n) = result {
                assert(output_buffer@.take(n as int) =~= head_after.take(n as int));
            }
            assert(output_buffer@.skip(bytes_to_read as int) =~= before.skip(bytes_to_read as int));
        }
        let (r, count) = limited_read_result(self.bytes_read, self.read_limit_bytes, result);
        self.bytes_read = count;
        r
    }
}

/// How many bytes go to the inner reader or writer: the length asked for, but no more than is
/// left under the limit.
pub open spec fn clipped_len(len: int, count: int, limit: int) -> int {
    min_int(len, limit - count)
}

/// How many bytes go to the inner reader or writer of a limited one that has passed on `count`
/// of `limit` bytes, for a request of `len`.
pub fn clip(len: usize, count: usize, limit: usize) -> (r: usize)
    requires
        count <= limit,
    ensures
        r == clipped_len(len as int, count as int, limit as int),
{
    let remaining = limit - count;
    if len < remaining {
        len
    } else {
        remaining
    }
}

/// What a limited reader that had read `count` bytes returns for what its source returned, and
/// how many bytes it has read then: the source's count, or its error wrapped.
pub fn limited_read_result<E>(count: usize, limit: usize, inner: Result<usize, E>) -> (r: (
    Result<usize, LimitedReaderReadError<E>>,
    usize,
))
    requires
        count <= limit,
        inner matches Ok(n) ==> n <= limit - count,
    ensures
        inner matches Ok(n) ==> r == (Ok::<usize, LimitedReaderReadError<E>>(n), (count + n) as usize),
        inner matches Err(e) ==> r == (
            Err::<usize, LimitedReaderReadError<E>>(LimitedReaderReadError::UnderlyingReadError(e)),
            count,
        ),
{
    match inner {
        Ok(n) => (Ok(n), count + n),
        Err(e) => (Err(LimitedReaderReadError::UnderlyingReadError(e)), count),
    }
}

/// What a limited writer that had passed on `count` bytes returns for what its target returned,
/// and how many bytes it has passed on then: the target's count, or its error wrapped.
pub fn limited_write_result<E>(count: usize, limit: usize, inner: Result<usize, E>) -> (r: (
    Result<usize, LimitedWriterWriteError<E>>,
    usize,
))
    requires
        count <= limit,
        inner matches Ok(n) ==> n <= limit - count,
    ensures
        inner matches Ok(n) ==> r == (Ok::<usize, LimitedWriterWriteError<E>>(n), (count + n) as usize),
        inner matches Err(e) ==> r == (
            Err::<usize, LimitedWriterWriteError<E>>(LimitedWriterWriteError::UnderlyingWriteError(e)),
            count,
        ),
{
    match inner {
        Ok(n) => (Ok(n), count + n),
        Err(e) => (Err(LimitedWriterWriteError::UnderlyingWriteError(e)), count),
    }
}

/// Error of a [`LimitedWriter`].
#[derive(Debug, PartialEq, Eq)]
pub enum LimitedWriterWriteError<U> {
    /// The limit, given, was already reached.
    WriteLimitExceeded(usize),
    UnderlyingWriteError(U),
}

/// A writer that only writes up to a specified limit.
/// This is useful when handling user input to prevent resource exhaustion attacks.
pub struct LimitedWriter<W: Write> {
    source_writer: W,
    write_limit_bytes: usize,
    bytes_written: usize,
}

impl<W: Write> LimitedWriter<W> {
    /// The writer written to.
    pub closed spec fn target(&self) -> W {
        self.source_writer
    }

    /// The most bytes this writer passes on.
    pub closed spec fn limit(&self) -> usize {
        self.write_limit_bytes
    }

    /// The bytes passed on so far.
    pub closed spec fn count(&self) -> usize {
        self.bytes_written
    }

    /// Creates a new `LimitedWriter` with the specified limit.
    pub fn new(source_writer: W, write_limit_bytes: usize) -> (r: Self)
        ensures
            r.limit() == write_limit_bytes,
            r.count() == 0,
            r.target() == source_writer,
    {
        LimitedWriter { source_writer, write_limit_bytes, bytes_written: 0 }
    }

    /// Returns the number of bytes written so far.
    pub fn bytes_written(&self) -> (r: usize)
        ensures
            r == self.count(),
    {
        self.bytes_written
    }

    /// What a write that returned `r` does to the count: it grows by the bytes written, and
    /// stays under the limit.
    pub open spec fn write_count_effect(
        before: Self,
        r: Result<usize, LimitedWriterWriteError<W::WriteError>>,
        after: Self,
    ) -> bool {
        &&& after.limit() == before.limit()
        &&& before.count() <= before.limit() ==> after.count() <= after.limit()
        &&& r matches Ok(n) ==> after.count() == before.count() + n
        &&& r is Err ==> after.count() == before.count()
    }
}

/// After any run of writes, a limited writer has counted the bytes of the writes that
/// succeeded, and no more than its limit.
pub proof fn law_limited_writer_run<W: Write>(
    ws: Seq<LimitedWriter<W>>,
    results: Seq<Result<usize, LimitedWriterWriteError<W::WriteError>>>,
)
    requires
        ws.len() == results.len() + 1,
        ws[0].count() <= ws[0].limit(),
        forall|i: int|
            0 <= i < results.len() ==> #[trigger] LimitedWriter::write_count_effect(ws[i], results[i], ws[i + 1]),
    ensures
        ws.last().limit() == ws[0].limit(),
        ws.last().count() == ws[0].count() + ok_total(results),
        ws.last().count() <= ws.last().limit(),
    decreases results.len(),
{
    if results.len() > 0 {
        let k = results.len() - 1;
        law_limited_writer_run(ws.drop_last(), results.drop_last());
        assert(LimitedWriter::write_count_effect(ws[k], results[k], ws[k + 1]));
        assert(ws.drop_last().last() == ws[k]);
    }
}

impl<W: Write> Write for LimitedWriter<W> {
    type WriteError = LimitedWriterWriteError<W::WriteError>;

    type FlushError = W::FlushError;

    /// A limited writer has taken exactly what it passed on.
    open spec fn accepted(&self) -> Seq<u8> {
        self.target().accepted()
    }

    /// An empty `input_buffer` writes 0 bytes. Otherwise, once the limit is reached, the write
    /// fails; before, the target is given the front of `input_buffer`, at most the bytes left
    /// under the limit, and what it returns is passed on (`limited_write_result`).
    fn write(&mut self, input_buffer: &[u8], sync_hint: bool) -> (r: Result<usize, Self::WriteError>)
        ensures
            LimitedWriter::write_count_effect(*old(self), r, *final(self)),
            final(self).limit() == old(self).limit(),
            old(self).count() <= old(self).limit() ==> final(self).count() <= final(self).limit(),
            input_buffer@.len() == 0 ==> r == Ok::<usize, Self::WriteError>(0) && *final(self) == *old(self),
            input_buffer@.len() > 0 && old(self).count() >= old(self).limit() ==> r == Err::<
                usize,
                Self::WriteError,
            >(LimitedWriterWriteError::WriteLimitExceeded(old(self).limit())) && *final(self) == *old(self),
            r matches Err(LimitedWriterWriteError::WriteLimitExceeded(l)) ==> l == old(self).limit()
                && old(self).count() >= old(self).limit() && input_buffer@.len() > 0,
            (r matches Err(LimitedWriterWriteError::UnderlyingWriteError(_))) ==> old(self).count() < old(
                self,
            ).limit() && input_buffer@.len() > 0,
            r matches Ok(n) ==> {
                &&& final(self).count() == old(self).count() + n
                &&& n <= input_buffer@.len()
                &&& old(self).count() <= old(self).limit() ==> n <= clipped_len(
                    input_buffer@.len() as int,
                    old(self).count() as int,
                    old(self).limit() as int,
                )
            },
            r is Err ==> final(self).count() == old(self).count(),
    {
        if input_buffer.len() == 0 {
            proof {
                assert(self.target().accepted() =~= self.target().accepted() + input_buffer@.take(0));
            }
            return Ok(0);
        }
        if self.bytes_written >= self.write_limit_bytes {
            return Err(LimitedWriterWriteError::WriteLimitExceeded(self.write_limit_bytes));
        }
        let bytes_to_write = clip(input_buffer.len(), self.bytes_written, self.write_limit_bytes);
        let part = &input_buffer[0..bytes_to_write];
        let result = self.source_writer.write(part, sync_hint);
        proof {
            if let Ok(n) = result {
                assert(part@.take(n as int) =~= input_buffer@.take(n as int));
            }
        }
        let (r, count) = limited_write_result(self.bytes_written, self.write_limit_bytes, result);
        self.bytes_written = count;
        r
    }

    fn flush(&mut self) -> (r: Result<(), Self::FlushError>) {
        self.source_writer.flush()
    }
}

/// An error that carries only a message.
#[derive(Debug, Clone)]
pub struct DynamicError(pub String);


/// Puts a limit on the bytes read from a reader.
pub trait ReadLimited: Read {
    /// Creates a new reader that limits the number of bytes read to `read_limit_bytes`.
    fn take(&mut self, read_limit_bytes: usize) -> (r: LimitedReader<&mut Self>)
        ensures
            r.limit() == read_limit_bytes,
            r.count() == 0,
    ;
}

impl<R: Read + ?Sized> ReadLimited for R {
    fn take(&mut self, read_limit_bytes: usize) -> (r: LimitedReader<&mut Self>) {
        LimitedReader::new(self, read_limit_bytes)
    }
}

/// Puts a limit on the bytes written to a writer.
pub trait WriteLimited: Write {
    /// Creates a new writer that limits the number of bytes written to `write_limit_bytes`.
    fn put(&mut self, write_limit_bytes: usize) -> (r: LimitedWriter<&mut Self>)
        ensures
            r.limit() == write_limit_bytes,
            r.count() == 0,
    ;
}

impl<W: Write + ?Sized> WriteLimited for W {
    fn put(&mut self, write_limit_bytes: usize) -> (r: LimitedWriter<&mut Self>) {
        LimitedWriter::new(self, write_limit_bytes)
    }
}

/// A slice writer given two pieces in turn ends as one given both at once: the same bytes in
/// the slice and the same count written.
pub proof fn law_slice_writes_compose(contents: Seq<u8>, written: int, first: Seq<u8>, second: Seq<u8>)
    requires
        0 <= written <= contents.len(),
    ensures
        ({
            let n1 = min_int(first.len() as int, contents.len() - written);
            let after_first = overwrite(contents, written, first.take(n1));
            let n2 = min_int(second.len() as int, contents.len() - (written + n1));
            let after_second = overwrite(after_first, written + n1, second.take(n2));
            let n = min_int((first + second).len() as int, contents.len() - written);
            &&& after_second == overwrite(contents, written, (first + second).take(n))
            &&& n1 + n2 == n
        }),
{
    let n1 = min_int(first.len() as int, contents.len() - written);
    let after_first = overwrite(contents, written, first.take(n1));
    let n2 = min_int(second.len() as int, contents.len() - (written + n1));
    let after_second = overwrite(after_first, written + n1, second.take(n2));
    let n = min_int((first + second).len() as int, contents.len() - written);
    assert((first + second).take(n) =~= first.take(n1) + second.take(n2));
    assert(after_second =~= overwrite(contents, written, (first + second).take(n)));
}
} // verus!
