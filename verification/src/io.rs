//! The `Read` and `Write` traits and the helpers built on them.
use vstd::prelude::*;

use crate::cursor::min_int;

verus! {

/// `a` is `b` with some of its elements left out, the others in their order.
pub open spec fn is_subsequence<T>(a: Seq<T>, b: Seq<T>) -> bool
    decreases b.len(),
{
    if b.len() == 0 {
        a.len() == 0
    } else if a.len() > 0 && a.last() == b.last() && is_subsequence(a.drop_last(), b.drop_last()) {
        true
    } else {
        is_subsequence(a, b.drop_last())
    }
}

/// Trait for reading bytes.
pub trait Read {
    type ReadError;

    /// The bytes this reader has handed out so far, in order.
    spec fn delivered(&self) -> Seq<u8>;

    /// Read up to `output_buffer.len()` bytes into `output_buffer`.
    /// Providing an empty `output_buffer` is valid and will return 0 bytes read.
    ///
    /// Returns number of bytes read.
    /// On EOF, it returns 0 bytes read.
    /// Any further reads after EOF return 0 bytes read.
    fn read(&mut self, output_buffer: &mut [u8]) -> (r: Result<usize, Self::ReadError>)
        ensures
            final(output_buffer)@.len() == old(output_buffer)@.len(),
            r matches Ok(n) ==> n <= old(output_buffer)@.len() && (*final(self)).delivered()
                == (*old(self)).delivered() + final(output_buffer)@.take(n as int),
    ;
}

/// Trait for writing bytes.
pub trait Write {
    type WriteError;

    type FlushError;

    /// The bytes this writer has taken so far, in order.
    spec fn accepted(&self) -> Seq<u8>;

    /// Write the contents of `input_buffer` to the underlying device.
    /// Providing an empty `input_buffer` is valid and will return 0 bytes written.
    ///
    /// Returns the number of bytes written.
    /// If `sync_hint` is true, it indicates that the write should be flushed to the actual device.
    fn write(&mut self, input_buffer: &[u8], sync_hint: bool) -> (r: Result<usize, Self::WriteError>)
        ensures
            r matches Ok(n) ==> n <= input_buffer@.len() && (*final(self)).accepted()
                == (*old(self)).accepted() + input_buffer@.take(n as int),
    ;

    /// Flush any buffered data to the underlying device.
    /// Must be called at the end to ensure all data is written.
    fn flush(&mut self) -> (r: Result<(), Self::FlushError>)
        ensures
            r is Ok ==> (*final(self)).accepted() == (*old(self)).accepted(),
    ;
}

impl<R: Read + ?Sized> Read for &mut R {
    type ReadError = R::ReadError;

    #[verifier::inline]
    open spec fn delivered(&self) -> Seq<u8> {
        (**self).delivered()
    }

    fn read(&mut self, output_buffer: &mut [u8]) -> (r: Result<usize, Self::ReadError>) {
        (**self).read(output_buffer)
    }
}

impl<W: Write + ?Sized> Write for &mut W {
    type WriteError = W::WriteError;

    type FlushError = W::FlushError;

    #[verifier::inline]
    open spec fn accepted(&self) -> Seq<u8> {
        (**self).accepted()
    }

    fn write(&mut self, input_buffer: &[u8], sync_hint: bool) -> (r: Result<usize, Self::WriteError>) {
        (**self).write(input_buffer, sync_hint)
    }

    fn flush(&mut self) -> Result<(), Self::FlushError> {
        (**self).flush()
    }
}

/// Error of [`write_all`]: the device stopped accepting bytes, or it failed.
#[derive(Debug, PartialEq, Eq)]
pub enum WriteAllError<U> {
    /// The underlying device wrote zero bytes after writing `bytes_written` bytes.
    ZeroWrite { bytes_written: usize },
    /// The underlying device failed.
    Io(U),
}

/// Writes an entire buffer to a writer, retrying partial writes.
/// No flushing is performed, so it is the caller's responsibility to call `flush()` at the end.
///
/// A `ZeroWrite` error reports how many bytes the writer had accepted before it accepted none.
pub fn write_all<W: Write + ?Sized>(writer: &mut W, input_buffer: &[u8], sync_hint: bool) -> (r:
    Result<(), WriteAllError<W::WriteError>>)
    ensures
        input_buffer@.len() == 0 ==> r is Ok,
        r is Ok ==> (*final(writer)).accepted() == (*old(writer)).accepted() + input_buffer@,
        r matches Err(WriteAllError::ZeroWrite { bytes_written }) ==> bytes_written
            < input_buffer@.len() && (*final(writer)).accepted() == (*old(writer)).accepted()
            + input_buffer@.take(bytes_written as int),
        (r matches Err(WriteAllError::Io(_))) ==> input_buffer@.len() > 0,
{
    let mut written: usize = 0;
    proof {
        assert((*old(writer)).accepted() =~= (*old(writer)).accepted() + input_buffer@.take(0));
    }
    while written < input_buffer.len()
        invariant
            written <= input_buffer@.len(),
            (*writer).accepted() == (*old(writer)).accepted() + input_buffer@.take(written as int),
        decreases input_buffer@.len() - written,
    {
        let rest = &input_buffer[written..input_buffer.len()];
        let ghost before = (*writer).accepted();
        let result = writer.write(rest, sync_hint);
        proof {
            if let Ok(n) = result {
                assert(input_buffer@.take(written + n) =~= input_buffer@.take(written as int)
                    + rest@.take(n as int));
            }
        }
        match write_all_step(written, input_buffer.len(), result) {
            Ok(w) => {
                written = w;
            },
            Err(e) => {
                return Err(e);
            },
        }
    }
    proof {
        assert(input_buffer@.take(written as int) =~= input_buffer@);
    }
    Ok(())
}

/// What `write_all`, having written `written` of `len` bytes, makes of what the writer returned
/// for the rest: the bytes written so far when it took some, a zero write when it took none, or
/// its error.
pub fn write_all_step<E>(written: usize, len: usize, inner: Result<usize, E>) -> (r: Result<
    usize,
    WriteAllError<E>,
>)
    requires
        written < len,
        inner matches Ok(n) ==> n <= len - written,
    ensures
        inner matches Ok(n) ==> (n == 0 ==> r == Err::<usize, WriteAllError<E>>(
            WriteAllError::ZeroWrite { bytes_written: written },
        )) && (n > 0 ==> r == Ok::<usize, WriteAllError<E>>((written + n) as usize)),
        inner matches Err(e) ==> r == Err::<usize, WriteAllError<E>>(WriteAllError::Io(e)),
{
    match inner {
        Ok(n) => {
            if n == 0 {
                Err(WriteAllError::ZeroWrite { bytes_written: written })
            } else {
                Ok(written + n)
            }
        },
        Err(e) => Err(WriteAllError::Io(e)),
    }
}

/// Extension trait that provides a `write_all` method for any `Write` implementer.
pub trait WriteAll: Write {
    /// Writes the entire buffer, retrying partial writes.
    ///
    /// Does not flush, but passes the `sync_hint` to the underlying `write` method.
    fn write_all(&mut self, input_buffer: &[u8], sync_hint: bool) -> (r: Result<
        (),
        WriteAllError<Self::WriteError>,
    >)
        ensures
            input_buffer@.len() == 0 ==> r is Ok,
            r is Ok ==> (*final(self)).accepted() == (*old(self)).accepted() + input_buffer@,
            r matches Err(WriteAllError::ZeroWrite { bytes_written }) ==> bytes_written
                < input_buffer@.len() && (*final(self)).accepted() == (*old(self)).accepted()
                + input_buffer@.take(bytes_written as int),
    ;
}

impl<W: Write + ?Sized> WriteAll for W {
    fn write_all(&mut self, input_buffer: &[u8], sync_hint: bool) -> (r: Result<
        (),
        WriteAllError<Self::WriteError>,
    >) {
        write_all(self, input_buffer, sync_hint)
    }
}

/// Error of [`ReadAll::read_all`]: the data ended early, or the reader failed.
#[derive(Debug, PartialEq, Eq)]
pub enum ReadAllError<U> {
    /// The reader reported the end of data after `bytes_read` of `bytes_requested` bytes.
    UnexpectedEof { bytes_requested: usize, bytes_read: usize },
    /// The underlying reader failed.
    Io(U),
}

/// Reads until `output_buffer` is full, retrying partial reads.
pub fn read_all<R: Read + ?Sized>(reader: &mut R, output_buffer: &mut [u8]) -> (r: Result<
    (),
    ReadAllError<R::ReadError>,
>)
    ensures
        final(output_buffer)@.len() == old(output_buffer)@.len(),
        old(output_buffer)@.len() == 0 ==> r is Ok,
        r is Ok ==> (*final(reader)).delivered() == (*old(reader)).delivered() + final(output_buffer)@,
        r matches Err(ReadAllError::UnexpectedEof { bytes_requested, bytes_read }) ==> {
            &&& bytes_requested == old(output_buffer)@.len()
            &&& bytes_read < bytes_requested
            &&& (*final(reader)).delivered() == (*old(reader)).delivered() + final(output_buffer)@.take(
                bytes_read as int,
            )
        },
{
    let requested_bytes = output_buffer.len();
    let mut total_read: usize = 0;
    proof {
        assert((*old(reader)).delivered() =~= (*old(reader)).delivered() + output_buffer@.take(0));
    }
    while total_read < output_buffer.len()
        invariant
            output_buffer@.len() == requested_bytes,
            requested_bytes == old(output_buffer)@.len(),
            total_read <= requested_bytes,
            (*reader).delivered() == (*old(reader)).delivered() + output_buffer@.take(total_read as int),
        decreases requested_bytes - total_read,
    {
        let ghost done = output_buffer@.take(total_read as int);
        let (head, tail) = output_buffer.split_at_mut(total_read);
        let ghost head_bytes = head@;
        let result = reader.read(tail);
        let ghost tail_after = tail@;
        proof {
            assert(head_bytes =~= done);
        }
        match result {
            Ok(n) => {
                if n == 0 {
                    return Err(
                        ReadAllError::UnexpectedEof {
                            bytes_requested: requested_bytes,
                            bytes_read: total_read,
                        },
                    );
                }
                proof {
                    assert(output_buffer@ == head_bytes + tail_after);
                    assert(output_buffer@.take(total_read + n) =~= done + tail_after.take(n as int));
                }
                total_read = total_read + n;
            },
            Err(e) => {
                return Err(ReadAllError::Io(e));
            },
        }
    }
    proof {
        assert(output_buffer@.take(total_read as int) =~= output_buffer@);
    }
    Ok(())
}

/// Extension trait that provides a `read_all` method for any `Read` implementer.
pub trait ReadAll: Read {
    /// Reads the entire buffer, retrying partial reads.
    fn read_all(&mut self, output_buffer: &mut [u8]) -> (r: Result<
        (),
        ReadAllError<Self::ReadError>,
    >)
        ensures
            final(output_buffer)@.len() == old(output_buffer)@.len(),
            old(output_buffer)@.len() == 0 ==> r is Ok,
            r is Ok ==> (*final(self)).delivered() == (*old(self)).delivered() + final(output_buffer)@,
            r matches Err(ReadAllError::UnexpectedEof { bytes_requested, bytes_read }) ==> {
                &&& bytes_requested == old(output_buffer)@.len()
                &&& bytes_read < bytes_requested
                &&& (*final(self)).delivered() == (*old(self)).delivered() + final(output_buffer)@.take(
                    bytes_read as int,
                )
            },
    ;
}

impl<R: Read + ?Sized> ReadAll for R {
    fn read_all(&mut self, output_buffer: &mut [u8]) -> (r: Result<
        (),
        ReadAllError<Self::ReadError>,
    >) {
        read_all(self, output_buffer)
    }
}

/// Error type returned by [`copy`]-style transfers.
#[derive(Debug, PartialEq, Eq)]
pub enum CopyError<RE, WE> {
    Read(RE),
    Write(WriteAllError<WE>),
}


/// What `copy` makes of what the reader returned: the bytes read to pass on, the end of the data
/// (`None`, for 0 bytes), or the reader's error.
pub fn copy_read_step<RE, WE>(inner: Result<usize, RE>) -> (r: Result<Option<usize>, CopyError<RE, WE>>)
    ensures
        inner matches Ok(n) ==> (n == 0 ==> r == Ok::<Option<usize>, CopyError<RE, WE>>(None)) && (n > 0
            ==> r == Ok::<Option<usize>, CopyError<RE, WE>>(Some(n))),
        inner matches Err(e) ==> r == Err::<Option<usize>, CopyError<RE, WE>>(CopyError::Read(e)),
{
    match inner {
        Ok(n) => {
            if n == 0 {
                Ok(None)
            } else {
                Ok(Some(n))
            }
        },
        Err(e) => Err(CopyError::Read(e)),
    }
}

/// What `copy` makes of what `write_all` returned: go on, or its error.
pub fn copy_write_step<RE, WE>(inner: Result<(), WriteAllError<WE>>) -> (r: Result<(), CopyError<RE, WE>>)
    ensures
        inner is Ok ==> r == Ok::<(), CopyError<RE, WE>>(()),
        inner matches Err(e) ==> r == Err::<(), CopyError<RE, WE>>(CopyError::Write(e)),
{
    match inner {
        Ok(()) => Ok(()),
        Err(e) => Err(CopyError::Write(e)),
    }
}

/// Reads from `reader` into `transfer_buffer` and writes what was read to `writer` with
/// `write_all`, passing `sync_hint` on, until the reader reports the end of its data.
/// Returns the total number of bytes copied, which stops growing at `usize::MAX`.
/// Gives up after `usize::MAX` rounds, which no real stream reaches.
pub fn copy<R: Read + ?Sized, W: Write + ?Sized>(
    reader: &mut R,
    writer: &mut W,
    transfer_buffer: &mut [u8],
    sync_hint: bool,
) -> (r: Result<usize, CopyError<R::ReadError, W::WriteError>>)
    ensures
        final(transfer_buffer)@.len() == old(transfer_buffer)@.len(),
        old(transfer_buffer)@.len() == 0 ==> (r matches Ok(total) ==> total == 0),
        r matches Ok(total) ==> {
            let moved = (*final(reader)).delivered().skip((*old(reader)).delivered().len() as int);
            &&& (*old(reader)).delivered().is_prefix_of((*final(reader)).delivered())
            &&& (*final(writer)).accepted() == (*old(writer)).accepted() + moved
            &&& total == min_int(moved.len() as int, usize::MAX as int)
        },
{
    let mut total_bytes: usize = 0;
    let mut rounds: usize = 0;
    let ghost len = transfer_buffer@.len();
    let ghost mut moved: Seq<u8> = Seq::empty();
    proof {
        assert((*old(reader)).delivered() =~= (*old(reader)).delivered() + moved);
        assert((*old(writer)).accepted() =~= (*old(writer)).accepted() + moved);
    }
    while rounds < usize::MAX
        invariant
            transfer_buffer@.len() == len,
            len == old(transfer_buffer)@.len(),
            len == 0 ==> total_bytes == 0,
            (*reader).delivered() == (*old(reader)).delivered() + moved,
            (*writer).accepted() == (*old(writer)).accepted() + moved,
            total_bytes == min_int(moved.len() as int, usize::MAX as int),
        decreases usize::MAX - rounds,
    {
        let read_result = reader.read(transfer_buffer);
        let bytes_read = match copy_read_step::<R::ReadError, W::WriteError>(read_result) {
            Ok(Some(n)) => n,
            Ok(None) => {
                proof {
                    assert(reader.delivered() =~= (*old(reader)).delivered() + moved);
                }
                break;
            },
            Err(e) => {
                return Err(e);
            },
        };
        let chunk = &transfer_buffer[0..bytes_read];
        proof {
            assert(chunk@ =~= transfer_buffer@.take(bytes_read as int));
        }
        match copy_write_step::<R::ReadError, W::WriteError>(write_all(writer, chunk, sync_hint)) {
            Ok(()) => {},
            Err(e) => {
                return Err(e);
            },
        }
        proof {
            assert((*old(reader)).delivered() + moved + chunk@ =~= (*old(reader)).delivered() + (moved
                + chunk@));
            assert((*old(writer)).accepted() + moved + chunk@ =~= (*old(writer)).accepted() + (moved
                + chunk@));
            moved = moved + chunk@;
        }
        total_bytes = total_bytes.saturating_add(bytes_read);
        rounds = rounds + 1;
    }
    proof {
        assert(reader.delivered().skip((*old(reader)).delivered().len() as int) =~= moved);
        assert(reader.delivered().subrange(0, (*old(reader)).delivered().len() as int) =~= (*old(reader)).delivered());
    }
    Ok(total_bytes)
}
} // verus!
