//! Buffering on top of the `Read` and `Write` traits: exact and peeking reads, forks that read
//! ahead without consuming, and chunked writes.
use vstd::prelude::*;

use crate::buffers::BackingBufferMut;
use crate::cursor::{copy_into, min_int, ReadExactError};
use crate::io::{write_all, Read, Write, WriteAllError};

verus! {

/// The size a buffer grows to for `byte_count` bytes read in chunks of `chunk` bytes: the
/// fewest whole chunks that hold them, and at least one.
spec fn grown_size_of(byte_count: int, chunk: int) -> int {
    let chunks = if byte_count % chunk == 0 {
        byte_count / chunk
    } else {
        byte_count / chunk + 1
    };
    (if chunks == 0 {
        1
    } else {
        chunks
    }) * chunk
}

/// `p` is a prefix of `s`.
pub open spec fn is_prefix(p: Seq<u8>, s: Seq<u8>) -> bool {
    p.len() <= s.len() && s.take(p.len() as int) == p
}

/// Every sequence is a prefix of itself.
pub proof fn lemma_prefix_refl(s: Seq<u8>)
    ensures
        is_prefix(s, s),
{
    assert(s.take(s.len() as int) =~= s);
}

/// A prefix of a prefix is a prefix.
pub proof fn lemma_prefix_trans(a: Seq<u8>, b: Seq<u8>, c: Seq<u8>)
    requires
        is_prefix(a, b),
        is_prefix(b, c),
    ensures
        is_prefix(a, c),
{
    assert(c.take(a.len() as int) =~= c.take(b.len() as int).take(a.len() as int));
}

/// Moves `buf[from..to]` to the front of `buf`, leaving the rest as it was.
fn shift_to_front(buf: &mut [u8], from: usize, to: usize)
    requires
        from <= to <= old(buf)@.len(),
    ensures
        final(buf)@.len() == old(buf)@.len(),
        final(buf)@.take(to - from) == old(buf)@.subrange(from as int, to as int),
{
    let count = to - from;
    let mut i: usize = 0;
    while i < count
        invariant
            count == to - from,
            from <= to <= buf@.len(),
            buf@.len() == old(buf)@.len(),
            i <= count,
            forall|j: int| 0 <= j < i ==> buf@[j] == old(buf)@[from + j],
            forall|j: int| i <= j < buf@.len() ==> buf@[j] == old(buf)@[j],
        decreases count - i,
    {
        let b = buf[from + i];
        buf[i] = b;
        i = i + 1;
    }
    proof {
        assert(buf@.take(to - from) =~= old(buf)@.subrange(from as int, to as int));
    }
}

/// A buffered reader adds buffering to any reader: reads of an exact size, and peeks that do not
/// consume what they return.
pub struct BufferedReader<'a, R: Read + ?Sized, B: BackingBufferMut> {
    source: &'a mut R,
    buffer: &'a mut B,
    last_user_read: usize,
    bytes_in_buffer: usize,
    read_chunk_size: usize,
    /// The bytes consumed so far: handed out, or skipped.
    consumed: Ghost<Seq<u8>>,
    /// What the source had handed out before this reader was made.
    base: Ghost<Seq<u8>>,
}

impl<'a, R: Read + ?Sized, B: BackingBufferMut> BufferedReader<'a, R, B> {
    /// The internal bookkeeping is consistent.
    pub closed spec fn wf(&self) -> bool {
        &&& self.last_user_read <= self.bytes_in_buffer <= self.buffer.contents().len()
        &&& self.read_chunk_size > 0
    }

    /// The bytes fetched from the source and not consumed yet.
    pub closed spec fn pending(&self) -> Seq<u8> {
        self.buffer.contents().subrange(self.last_user_read as int, self.bytes_in_buffer as int)
    }

    /// What the source had handed out before this reader was made.
    pub closed spec fn source_start(&self) -> Seq<u8> {
        self.base@
    }

    /// What the source has handed out.
    pub closed spec fn source_delivered(&self) -> Seq<u8> {
        (*self.source).delivered()
    }

    /// Since this reader was made, the source has handed out exactly the bytes this reader
    /// consumed, followed by the bytes it holds.
    pub open spec fn in_sync(&self) -> bool {
        self.source_delivered() == self.source_start() + self.consumed() + self.pending()
    }

    /// The bytes consumed so far: handed out by `read` or `read_exact`, or skipped.
    pub closed spec fn consumed(&self) -> Seq<u8> {
        self.consumed@
    }

    /// The size of the buffer.
    pub closed spec fn capacity(&self) -> nat {
        self.buffer.contents().len()
    }

    /// Whether the buffer never changes its size.
    pub closed spec fn fixed(&self) -> bool {
        self.buffer.fixed_size()
    }

    /// The smallest size the buffer grows by.
    pub closed spec fn chunk_size(&self) -> usize {
        self.read_chunk_size
    }

    /// Creates a new buffered reader with the given source and buffer.
    pub fn new(source: &'a mut R, buffer: &'a mut B, read_chunk_size: usize) -> (r: Self)
        requires
            read_chunk_size > 0,
        ensures
            r.wf(),
            r.pending() == Seq::<u8>::empty(),
            r.capacity() == old(buffer).contents().len(),
            r.fixed() == old(buffer).fixed_size(),
            r.chunk_size() == read_chunk_size,
            r.consumed() == Seq::<u8>::empty(),
            r.source_start() == (*old(source)).delivered(),
            r.in_sync(),
    {
        let ghost start = (*source).delivered();
        let r = BufferedReader {
            source,
            buffer,
            last_user_read: 0,
            bytes_in_buffer: 0,
            read_chunk_size,
            consumed: Ghost(Seq::empty()),
            base: Ghost(start),
        };
        proof {
            assert(r.pending() =~= Seq::<u8>::empty());
            assert(r.source_delivered() =~= r.source_start() + r.consumed() + r.pending());
        }
        r
    }

    /// The size a buffer grows to for a read of `byte_count` bytes: a multiple of the chunk size.
    fn grown_size(&self, byte_count: usize) -> (r: Option<usize>)
        requires
            self.read_chunk_size > 0,
        ensures
            r matches Some(n) ==> n >= byte_count,
            grown_size_of(byte_count as int, self.read_chunk_size as int) <= usize::MAX ==> r == Some(
                grown_size_of(byte_count as int, self.read_chunk_size as int) as usize,
            ),
            grown_size_of(byte_count as int, self.read_chunk_size as int) > usize::MAX ==> r is None,
    {
        let q = byte_count / self.read_chunk_size;
        let rem = byte_count % self.read_chunk_size;
        proof {
            let c = self.read_chunk_size as int;
            if rem != 0 {
                assert(c >= 2);
                assert(q * c <= byte_count) by (nonlinear_arith)
                    requires
                        q == (byte_count as int) / c,
                        c > 0,
                ;
                assert(q * 2 <= q * c) by (nonlinear_arith)
                    requires
                        c >= 2,
                        q >= 0,
                ;
            }
        }
        let chunks = if rem == 0 {
            q
        } else {
            q + 1
        };
        let chunks = if chunks == 0 {
            1
        } else {
            chunks
        };
        let r = chunks.checked_mul(self.read_chunk_size);
        proof {
            if r is Some {
                let c = self.read_chunk_size as int;
                let b = byte_count as int;
                assert(b == c * (b / c) + b % c) by (nonlinear_arith)
                    requires c > 0;
                assert(chunks * c >= b) by (nonlinear_arith)
                    requires
                        c > 0,
                        b == c * (b / c) + b % c,
                        0 <= b % c < c,
                        chunks >= b / c,
                        b % c != 0 ==> chunks >= b / c + 1,
                ;
            }
        }
        r
    }

    fn read_exact_internal(&mut self, byte_count: usize, peek: bool) -> (r: Result<
        &[u8],
        ReadExactError<R::ReadError>,
    >)
        requires
            old(self).wf(),
        ensures
            final(self).wf(),
            final(self).source_start() == old(self).source_start(),
            final(self).consumed() == (if !peek && r is Ok {
                old(self).consumed() + r->Ok_0@
            } else {
                old(self).consumed()
            }),
            old(self).in_sync() && !(r matches Err(ReadExactError::Io(_))) ==> final(self).in_sync(),
            final(self).chunk_size() == old(self).chunk_size(),
            final(self).fixed() == old(self).fixed(),
            final(self).capacity() >= old(self).capacity(),
            old(self).fixed() ==> final(self).capacity() == old(self).capacity(),
            byte_count <= old(self).pending().len() ==> {
                &&& r is Ok
                &&& r->Ok_0@ == old(self).pending().take(byte_count as int)
                &&& final(self).pending() == (if peek {
                    old(self).pending()
                } else {
                    old(self).pending().skip(byte_count as int)
                })
            },
            r matches Ok(bytes) ==> {
                &&& bytes@.len() == byte_count
                &&& peek ==> is_prefix(bytes@, final(self).pending()) && is_prefix(
                    old(self).pending(),
                    final(self).pending(),
                )
                &&& !peek ==> is_prefix(old(self).pending(), bytes@ + final(self).pending())
                &&& !peek ==> final(self).pending().len() + byte_count >= old(self).pending().len()
            },
            r matches Err(e) ==> {
                &&& is_prefix(old(self).pending(), final(self).pending())
                &&& e matches ReadExactError::MemoryLimitExceeded(n) ==> {
                    &&& n == old(self).capacity()
                    &&& byte_count > old(self).capacity()
                    &&& final(self).pending() == old(self).pending()
                }
                &&& e matches ReadExactError::UnexpectedEof { min_readable_bytes, bytes_requested } ==> {
                    &&& bytes_requested == byte_count
                    &&& min_readable_bytes == final(self).pending().len()
                    &&& min_readable_bytes < byte_count
                }
            },
            old(self).fixed() && byte_count > old(self).capacity() ==> r == Err::<&[u8], ReadExactError<R::ReadError>>(
                ReadExactError::MemoryLimitExceeded(old(self).capacity() as usize),
            ),
    {
        let ghost p0 = self.pending();
        proof {
            lemma_prefix_refl(p0);
        }
        if byte_count == 0 {
            proof {
                assert(p0.take(0) =~= Seq::<u8>::empty());
                assert(p0.skip(0) =~= p0);
            }
            let empty: &[u8] = &[];
            return Ok(empty);
        }
        let current_len = self.buffer.as_bytes().len();
        if byte_count > current_len {
            let new_size = match self.grown_size(byte_count) {
                Some(n) => n,
                None => {
                    return Err(ReadExactError::MemoryLimitExceeded(current_len));
                },
            };
            match self.buffer.try_resize(new_size) {
                Ok(_) => {},
                Err(_) => {
                    return Err(ReadExactError::MemoryLimitExceeded(current_len));
                },
            }
            proof {
                assert(self.pending() =~= p0);
            }
        }
        let last = self.last_user_read;
        let filled = self.bytes_in_buffer;
        {
            let bytes = self.buffer.as_bytes_mut();
            shift_to_front(bytes, last, filled);
        }
        self.bytes_in_buffer = filled - last;
        self.last_user_read = 0;
        proof {
            assert(self.pending() =~= p0);
        }
        let buffer_len = self.buffer.as_bytes().len();
        while self.bytes_in_buffer < byte_count
            invariant
                self.wf(),
                self.last_user_read == 0,
                buffer_len == self.buffer.contents().len(),
                byte_count <= buffer_len,
                is_prefix(p0, self.pending()),
                self.chunk_size() == old(self).chunk_size(),
                self.fixed() == old(self).fixed(),
                self.capacity() >= old(self).capacity(),
                old(self).fixed() ==> self.capacity() == old(self).capacity(),
                p0 == old(self).pending(),
                self.bytes_in_buffer >= p0.len(),
                byte_count > p0.len() || self.pending() == p0,
                self.consumed == old(self).consumed,
                self.base == old(self).base,
                old(self).in_sync() ==> self.in_sync(),
            decreases buffer_len - self.bytes_in_buffer,
        {
            let filled = self.bytes_in_buffer;
            assert(byte_count > p0.len());
            let ghost before = self.buffer.contents();
            let ghost pending_before = self.pending();
            let ghost sd0 = self.source_delivered();
            let (read_result, tail_after) = {
                let bytes = self.buffer.as_bytes_mut();
                let (_head, tail) = bytes.split_at_mut(filled);
                let res = self.source.read(tail);
                (res, Ghost(tail@))
            };
            let ghost tail_after = tail_after@;
            match read_result {
                Ok(n) => {
                    if n == 0 {
                        proof {
                            assert(self.buffer.contents().take(filled as int) =~= before.take(
                                filled as int,
                            ));
                            assert(self.pending() =~= before.take(filled as int));
                            assert(self.source_delivered() =~= sd0 + tail_after.take(0));
                        }
                        return Err(
                            ReadExactError::UnexpectedEof {
                                min_readable_bytes: filled,
                                bytes_requested: byte_count,
                            },
                        );
                    }
                    self.bytes_in_buffer = filled + n;
                    proof {
                        assert(self.buffer.contents().take(filled as int) =~= before.take(
                            filled as int,
                        ));
                        assert(self.pending().take(p0.len() as int) =~= p0);
                        assert(pending_before =~= before.take(filled as int));
                        assert(self.buffer.contents() =~= before.take(filled as int) + tail_after);
                        assert(self.pending() =~= pending_before + tail_after.take(n as int));
                        assert(self.source_delivered() == sd0 + tail_after.take(n as int));
                        if old(self).in_sync() {
                            assert(self.source_delivered() =~= self.source_start() + self.consumed()
                                + self.pending());
                        }
                    }
                },
                Err(e) => {
                    proof {
                        assert(self.buffer.contents().take(filled as int) =~= before.take(
                            filled as int,
                        ));
                        assert(self.pending() =~= before.take(filled as int));
                    }
                    return Err(ReadExactError::Io(e));
                },
            }
        }
        let ghost full = self.pending();
        if !peek {
            self.last_user_read = byte_count;
        }
        proof {
            assert(full.take(byte_count as int) =~= self.buffer.contents().take(byte_count as int));
            if !peek {
                assert(self.pending() =~= full.skip(byte_count as int));
                assert(full =~= full.take(byte_count as int) + self.pending());
                self.consumed@ = self.consumed@ + full.take(byte_count as int);
                assert(self.source_start() + old(self).consumed() + full =~= self.source_start()
                    + self.consumed() + self.pending());
            }
        }
        let all = self.buffer.as_bytes();
        Ok(&all[0..byte_count])
    }

    /// Reads exactly `byte_count` bytes, consuming them.
    pub fn read_exact(&mut self, byte_count: usize) -> (r: Result<&[u8], ReadExactError<R::ReadError>>)
        requires
            old(self).wf(),
        ensures
            final(self).wf(),
            final(self).source_start() == old(self).source_start(),
            final(self).consumed() == (if r is Ok {
                old(self).consumed() + r->Ok_0@
            } else {
                old(self).consumed()
            }),
            old(self).in_sync() && !(r matches Err(ReadExactError::Io(_))) ==> final(self).in_sync(),
            final(self).chunk_size() == old(self).chunk_size(),
            final(self).fixed() == old(self).fixed(),
            final(self).capacity() >= old(self).capacity(),
            old(self).fixed() ==> final(self).capacity() == old(self).capacity(),
            byte_count <= old(self).pending().len() ==> {
                &&& r is Ok
                &&& r->Ok_0@ == old(self).pending().take(byte_count as int)
                &&& final(self).pending() == old(self).pending().skip(byte_count as int)
            },
            r matches Ok(bytes) ==> {
                &&& bytes@.len() == byte_count
                &&& is_prefix(old(self).pending(), bytes@ + final(self).pending())
                &&& final(self).pending().len() + byte_count >= old(self).pending().len()
            },
            r matches Err(e) ==> {
                &&& is_prefix(old(self).pending(), final(self).pending())
                &&& e matches ReadExactError::MemoryLimitExceeded(n) ==> {
                    &&& n == old(self).capacity()
                    &&& byte_count > old(self).capacity()
                    &&& final(self).pending() == old(self).pending()
                }
                &&& e matches ReadExactError::UnexpectedEof { min_readable_bytes, bytes_requested } ==> {
                    &&& bytes_requested == byte_count
                    &&& min_readable_bytes == final(self).pending().len()
                    &&& min_readable_bytes < byte_count
                }
            },
            old(self).fixed() && byte_count > old(self).capacity() ==> r == Err::<&[u8], ReadExactError<R::ReadError>>(
                ReadExactError::MemoryLimitExceeded(old(self).capacity() as usize),
            ),
    {
        self.read_exact_internal(byte_count, false)
    }

    /// Returns exactly `byte_count` bytes without consuming them.
    pub fn peek_exact(&mut self, byte_count: usize) -> (r: Result<&[u8], ReadExactError<R::ReadError>>)
        requires
            old(self).wf(),
        ensures
            final(self).wf(),
            final(self).source_start() == old(self).source_start(),
            final(self).consumed() == old(self).consumed(),
            old(self).in_sync() && !(r matches Err(ReadExactError::Io(_))) ==> final(self).in_sync(),
            final(self).chunk_size() == old(self).chunk_size(),
            final(self).fixed() == old(self).fixed(),
            final(self).capacity() >= old(self).capacity(),
            old(self).fixed() ==> final(self).capacity() == old(self).capacity(),
            is_prefix(old(self).pending(), final(self).pending()),
            byte_count <= old(self).pending().len() ==> {
                &&& r is Ok
                &&& r->Ok_0@ == old(self).pending().take(byte_count as int)
                &&& final(self).pending() == old(self).pending()
            },
            r matches Ok(bytes) ==> {
                &&& bytes@.len() == byte_count
                &&& is_prefix(bytes@, final(self).pending())
            },
            r matches Err(e) ==> {
                &&& e matches ReadExactError::MemoryLimitExceeded(n) ==> {
                    &&& n == old(self).capacity()
                    &&& byte_count > old(self).capacity()
                    &&& final(self).pending() == old(self).pending()
                }
                &&& e matches ReadExactError::UnexpectedEof { min_readable_bytes, bytes_requested } ==> {
                    &&& bytes_requested == byte_count
                    &&& min_readable_bytes == final(self).pending().len()
                    &&& min_readable_bytes < byte_count
                }
            },
            old(self).fixed() && byte_count > old(self).capacity() ==> r == Err::<&[u8], ReadExactError<R::ReadError>>(
                ReadExactError::MemoryLimitExceeded(old(self).capacity() as usize),
            ),
    {
        self.read_exact_internal(byte_count, true)
    }

    /// Consumes exactly `byte_count` bytes.
    pub fn skip(&mut self, byte_count: usize) -> (r: Result<(), ReadExactError<R::ReadError>>)
        requires
            old(self).wf(),
        ensures
            final(self).wf(),
            final(self).source_start() == old(self).source_start(),
            r is Ok ==> final(self).consumed().len() == old(self).consumed().len() + byte_count,
            r is Ok ==> old(self).consumed().is_prefix_of(final(self).consumed()),
            r is Err ==> final(self).consumed() == old(self).consumed(),
            old(self).in_sync() && !(r matches Err(ReadExactError::Io(_))) ==> final(self).in_sync(),
            final(self).chunk_size() == old(self).chunk_size(),
            final(self).fixed() == old(self).fixed(),
            byte_count <= old(self).pending().len() ==> r is Ok && final(self).pending()
                == old(self).pending().skip(byte_count as int),
    {
        match self.read_exact_internal(byte_count, false) {
            Ok(_) => Ok(()),
            Err(e) => Err(e),
        }
    }

    /// The size of the internal buffer.
    pub fn buffer_size_hint(&self) -> (r: usize)
        ensures
            r == self.capacity(),
    {
        self.buffer.as_bytes().len()
    }

    /// The number of bytes fetched and not consumed yet.
    pub fn buffered_len(&self) -> (r: usize)
        requires
            self.wf(),
        ensures
            r == self.pending().len(),
    {
        self.bytes_in_buffer - self.last_user_read
    }

    /// A reader that reads ahead of this one without consuming anything from it.
    pub fn fork_reader(&mut self) -> (r: ForkedBufferedReader<'_, 'a, R, B>)
        requires
            old(self).wf(),
        ensures
            r.pos() == 0,
            r.inner() == *old(self),
    {
        ForkedBufferedReader::new(self, 0)
    }
}

impl<'a, R: Read + ?Sized, B: BackingBufferMut> BufferedReader<'a, R, B> {
    /// Hands out buffered bytes first; a large remainder is read straight from the source, a small
    /// one through the buffer.
    #[verifier::spinoff_prover]
    #[verifier::rlimit(50)]
    fn read_into(&mut self, output_buffer: &mut [u8]) -> (r: Result<usize, R::ReadError>)
        ensures
            final(output_buffer)@.len() == old(output_buffer)@.len(),
            r matches Ok(n) ==> n <= old(output_buffer)@.len() && final(self).consumed()
                == old(self).consumed() + final(output_buffer)@.take(n as int),
            final(self).source_start() == old(self).source_start(),
            old(self).wf() && old(self).in_sync() && r is Ok ==> final(self).in_sync(),
            old(output_buffer)@.len() == 0 ==> r == Ok::<usize, R::ReadError>(0),
            old(self).wf() ==> final(self).wf(),
            old(self).wf() ==> ({
                let k = min_int(old(output_buffer)@.len() as int, old(self).pending().len() as int);
                r matches Ok(n) ==> {
                    &&& n >= k
                    &&& final(output_buffer)@.take(k) == old(self).pending().take(k)
                }
            }),
    {
        if output_buffer.len() == 0 {
            proof {
                assert(self.consumed() =~= self.consumed() + output_buffer@.take(0));
            }
            return Ok(0);
        }
        let ghost c0 = self.consumed@;
        if !(self.last_user_read <= self.bytes_in_buffer && self.bytes_in_buffer
            <= self.buffer.as_bytes().len() && self.read_chunk_size > 0) {
            let direct = self.source.read(output_buffer);
            proof {
                if direct is Ok {
                    self.consumed@ = c0 + output_buffer@.take(direct->Ok_0 as int);
                }
            }
            return direct;
        }
        let out_len = output_buffer.len();
        let buffered = self.bytes_in_buffer - self.last_user_read;
        let k = if out_len < buffered {
            out_len
        } else {
            buffered
        };
        let ghost p0 = self.pending();
        let (head, tail) = output_buffer.split_at_mut(k);
        match self.read_exact(k) {
            Ok(bytes) => {
                copy_into(head, bytes);
                proof {
                    assert(head@ =~= bytes@);
                }
            },
            Err(_) => {
                proof {
                    assert(self.consumed() =~= c0 + output_buffer@.take(0));
                }
                return Ok(0);
            },
        }
        let ghost c1 = self.consumed@;
        let ghost b1 = head@;
        let remaining = out_len - k;
        if remaining > self.read_chunk_size {
            let ghost sd1 = self.source_delivered();
            let direct = self.source.read(tail);
            let ghost tail_after = tail@;
            match direct {
                Ok(n) => {
                    proof {
                        self.consumed@ = c1 + tail_after.take(n as int);
                        assert(self.source_delivered() == sd1 + tail_after.take(n as int));
                        assert(output_buffer@ == b1 + tail_after);
                        assert(output_buffer@.take(k + n) =~= b1 + tail_after.take(n as int));
                        assert(self.pending() =~= Seq::<u8>::empty());
                        if old(self).in_sync() {
                            assert(self.source_delivered() =~= self.source_start() + self.consumed()
                                + self.pending());
                        }
                    }
                    return Ok(k + n);
                },
                Err(e) => {
                    return Err(e);
                },
            }
        }
        let additional: usize = match self.read_exact(remaining) {
            Ok(bytes) => {
                copy_into(tail, bytes);
                proof {
                    assert(tail@.take(remaining as int) =~= bytes@);
                }
                remaining
            },
            Err(ReadExactError::UnexpectedEof { min_readable_bytes, .. }) => {
                match self.read_exact(min_readable_bytes) {
                    Ok(bytes) => {
                        copy_into(tail, bytes);
                        proof {
                            assert(tail@.take(min_readable_bytes as int) =~= bytes@);
                        }
                        min_readable_bytes
                    },
                    Err(_) => 0,
                }
            },
            Err(ReadExactError::MemoryLimitExceeded(_)) => {
                let ghost sd1 = self.source_delivered();
                let direct = self.source.read(tail);
                let ghost tail_after = tail@;
                match direct {
                    Ok(n) => {
                        proof {
                            self.consumed@ = c1 + tail_after.take(n as int);
                            assert(self.source_delivered() == sd1 + tail_after.take(n as int));
                            assert(self.pending() =~= Seq::<u8>::empty());
                            if old(self).in_sync() {
                                assert(self.source_delivered() =~= self.source_start()
                                    + self.consumed() + self.pending());
                            }
                        }
                        n
                    },
                    Err(e) => {
                        return Err(e);
                    },
                }
            },
            Err(ReadExactError::Io(e)) => {
                return Err(e);
            },
        };
        proof {
            assert(self.consumed() == c1 + tail@.take(additional as int));
            assert(output_buffer@ == b1 + tail@);
            assert(output_buffer@.take(k + additional) =~= b1 + tail@.take(additional as int));
        }
        Ok(k + additional)
    }
}

impl<'a, R: Read + ?Sized, B: BackingBufferMut> Read for BufferedReader<'a, R, B> {
    type ReadError = R::ReadError;

    /// The bytes consumed so far, by `read` and by the reader's own methods.
    open spec fn delivered(&self) -> Seq<u8> {
        self.consumed()
    }

    /// Hands out buffered bytes first; a large remainder is read straight from the source, a small
    /// one through the buffer.
    fn read(&mut self, output_buffer: &mut [u8]) -> (r: Result<usize, Self::ReadError>)
        ensures
            final(output_buffer)@.len() == old(output_buffer)@.len(),
            r matches Ok(n) ==> n <= old(output_buffer)@.len(),
            old(output_buffer)@.len() == 0 ==> r == Ok::<usize, R::ReadError>(0),
            old(self).wf() ==> final(self).wf(),
            old(self).wf() ==> ({
                let k = min_int(old(output_buffer)@.len() as int, old(self).pending().len() as int);
                r matches Ok(n) ==> {
                    &&& n >= k
                    &&& final(output_buffer)@.take(k) == old(self).pending().take(k)
                }
            }),
            final(self).source_start() == old(self).source_start(),
            old(self).wf() && old(self).in_sync() && r is Ok ==> final(self).in_sync(),
    {
        self.read_into(output_buffer)
    }
}

/// Error of reading a [`ForkedBufferedReader`] through the `Read` trait.
#[derive(Debug, PartialEq, Eq)]
pub enum ForkedBufferedReaderReadError<U> {
    MemoryLimitExceeded(usize),
    Io(U),
}

/// Reads ahead of a [`BufferedReader`] without consuming its data: every read of the fork is a
/// peek of the reader it was forked from.
pub struct ForkedBufferedReader<'f, 'a, R: Read + ?Sized, B: BackingBufferMut> {
    buffered_reader: &'f mut BufferedReader<'a, R, B>,
    position: usize,
    /// The bytes handed out by `read` so far.
    given: Ghost<Seq<u8>>,
}

impl<'f, 'a, R: Read + ?Sized, B: BackingBufferMut> ForkedBufferedReader<'f, 'a, R, B> {
    /// The reader this fork reads ahead of.
    pub closed spec fn inner(&self) -> BufferedReader<'a, R, B> {
        *self.buffered_reader
    }

    /// How far this fork has read ahead.
    pub closed spec fn pos(&self) -> usize {
        self.position
    }

    pub fn new(buffered_reader: &'f mut BufferedReader<'a, R, B>, start_position: usize) -> (r: Self)
        ensures
            r.pos() == start_position,
            r.inner() == *old(buffered_reader),
            r.delivered() == Seq::<u8>::empty(),
    {
        ForkedBufferedReader { buffered_reader, position: start_position, given: Ghost(Seq::empty()) }
    }

    /// Starts reading from the front of the reader again.
    pub fn reset(&mut self)
        ensures
            final(self).pos() == 0,
            final(self).inner() == old(self).inner(),
    {
        self.position = 0;
    }

    /// How far this fork has read ahead.
    pub fn bytes_read(&self) -> (r: usize)
        ensures
            r == self.pos(),
    {
        self.position
    }

    fn read_internal(&mut self, byte_count: usize, peek: bool) -> (r: Result<
        &[u8],
        ReadExactError<R::ReadError>,
    >)
        requires
            old(self).inner().wf(),
        ensures
            final(self).inner().wf(),
            r matches Err(ReadExactError::UnexpectedEof { min_readable_bytes, .. }) ==> min_readable_bytes
                == final(self).inner().pending().len(),
            final(self).inner().consumed() == old(self).inner().consumed(),
            final(self).inner().source_start() == old(self).inner().source_start(),
            old(self).inner().in_sync() && !(r matches Err(ReadExactError::Io(_)))
                ==> final(self).inner().in_sync(),
            is_prefix(old(self).inner().pending(), final(self).inner().pending()),
            old(self).pos() + byte_count <= old(self).inner().pending().len() ==> r is Ok
                && final(self).inner().pending() == old(self).inner().pending(),
            old(self).inner().fixed() && old(self).pos() + byte_count > old(self).inner().capacity() ==> r
                == Err::<&[u8], ReadExactError<R::ReadError>>(
                ReadExactError::MemoryLimitExceeded(old(self).inner().capacity() as usize),
            ),
            r matches Ok(bytes) ==> {
                &&& old(self).pos() + byte_count <= final(self).inner().pending().len()
                &&& bytes@ == final(self).inner().pending().subrange(
                    old(self).pos() as int,
                    old(self).pos() + byte_count,
                )
                &&& final(self).pos() == (if peek {
                    old(self).pos() as int
                } else {
                    old(self).pos() + byte_count
                })
            },
            r is Err ==> final(self).pos() == old(self).pos(),
    {
        proof {
            lemma_prefix_refl(self.inner().pending());
        }
        let position = self.position;
        let end = match position.checked_add(byte_count) {
            Some(e) => e,
            None => {
                let cap = self.buffered_reader.buffer_size_hint();
                return Err(ReadExactError::MemoryLimitExceeded(cap));
            },
        };
        let full = match self.buffered_reader.peek_exact(end) {
            Ok(bytes) => bytes,
            Err(e) => {
                return Err(e);
            },
        };
        let sliced = &full[position..end];
        if !peek {
            self.position = end;
        }
        Ok(sliced)
    }

    /// Reads exactly `byte_count` bytes ahead.
    pub fn read_exact(&mut self, byte_count: usize) -> (r: Result<&[u8], ReadExactError<R::ReadError>>)
        requires
            old(self).inner().wf(),
        ensures
            final(self).inner().wf(),
            r matches Err(ReadExactError::UnexpectedEof { min_readable_bytes, .. }) ==> min_readable_bytes
                == final(self).inner().pending().len(),
            final(self).inner().consumed() == old(self).inner().consumed(),
            final(self).inner().source_start() == old(self).inner().source_start(),
            old(self).inner().in_sync() && !(r matches Err(ReadExactError::Io(_)))
                ==> final(self).inner().in_sync(),
            is_prefix(old(self).inner().pending(), final(self).inner().pending()),
            old(self).pos() + byte_count <= old(self).inner().pending().len() ==> r is Ok
                && final(self).inner().pending() == old(self).inner().pending(),
            old(self).inner().fixed() && old(self).pos() + byte_count > old(self).inner().capacity() ==> r
                == Err::<&[u8], ReadExactError<R::ReadError>>(
                ReadExactError::MemoryLimitExceeded(old(self).inner().capacity() as usize),
            ),
            r matches Ok(bytes) ==> {
                &&& old(self).pos() + byte_count <= final(self).inner().pending().len()
                &&& bytes@ == final(self).inner().pending().subrange(
                    old(self).pos() as int,
                    old(self).pos() + byte_count,
                )
                &&& final(self).pos() == old(self).pos() + byte_count
            },
            r is Err ==> final(self).pos() == old(self).pos(),
    {
        self.read_internal(byte_count, false)
    }

    /// Returns exactly `byte_count` bytes ahead without moving the fork.
    pub fn peek_exact(&mut self, byte_count: usize) -> (r: Result<&[u8], ReadExactError<R::ReadError>>)
        requires
            old(self).inner().wf(),
        ensures
            final(self).inner().wf(),
            final(self).inner().consumed() == old(self).inner().consumed(),
            final(self).inner().source_start() == old(self).inner().source_start(),
            old(self).inner().in_sync() && !(r matches Err(ReadExactError::Io(_)))
                ==> final(self).inner().in_sync(),
            is_prefix(old(self).inner().pending(), final(self).inner().pending()),
            old(self).pos() + byte_count <= old(self).inner().pending().len() ==> r is Ok
                && final(self).inner().pending() == old(self).inner().pending(),
            old(self).inner().fixed() && old(self).pos() + byte_count > old(self).inner().capacity() ==> r
                == Err::<&[u8], ReadExactError<R::ReadError>>(
                ReadExactError::MemoryLimitExceeded(old(self).inner().capacity() as usize),
            ),
            r matches Ok(bytes) ==> old(self).pos() + byte_count <= final(self).inner().pending().len() && bytes@ == final(self).inner().pending().subrange(
                old(self).pos() as int,
                old(self).pos() + byte_count,
            ),
            final(self).pos() == old(self).pos(),
    {
        self.read_internal(byte_count, true)
    }

    /// Moves the fork `byte_count` bytes ahead.
    pub fn skip(&mut self, byte_count: usize) -> (r: Result<(), ReadExactError<R::ReadError>>)
        requires
            old(self).inner().wf(),
        ensures
            final(self).inner().wf(),
            final(self).inner().consumed() == old(self).inner().consumed(),
            final(self).inner().source_start() == old(self).inner().source_start(),
            old(self).inner().in_sync() && !(r matches Err(ReadExactError::Io(_)))
                ==> final(self).inner().in_sync(),
            is_prefix(old(self).inner().pending(), final(self).inner().pending()),
            r is Ok ==> final(self).pos() == old(self).pos() + byte_count,
            r is Err ==> final(self).pos() == old(self).pos(),
    {
        match self.read_internal(byte_count, false) {
            Ok(_) => Ok(()),
            Err(e) => Err(e),
        }
    }

    /// The size of the buffer of the reader this fork reads ahead of.
    pub fn buffer_size_hint(&self) -> (r: usize)
        ensures
            r == self.inner().capacity(),
    {
        self.buffered_reader.buffer_size_hint()
    }

    /// A fork of this fork, starting where this one stands.
    pub fn fork_reader(&mut self) -> (r: ForkedBufferedReader<'_, 'a, R, B>)
        ensures
            r.pos() == old(self).pos(),
            r.inner() == old(self).inner(),
            final(self).pos() == old(self).pos(),
    {
        ForkedBufferedReader::new(&mut *self.buffered_reader, self.position)
    }
}

impl<'f, 'a, R: Read + ?Sized, B: BackingBufferMut> ForkedBufferedReader<'f, 'a, R, B> {
    /// Reads ahead as many bytes as fit in `output_buffer`, or as are left before the end of the
    /// data.
    fn read_into(&mut self, output_buffer: &mut [u8]) -> (r: Result<usize, ForkedBufferedReaderReadError<R::ReadError>>)
        ensures
            final(output_buffer)@.len() == old(output_buffer)@.len(),
            r matches Ok(n) ==> n <= old(output_buffer)@.len(),
            old(output_buffer)@.len() == 0 ==> r is Ok,
            old(self).inner().wf() ==> final(self).inner().wf(),
            old(self).inner().wf() ==> is_prefix(old(self).inner().pending(), final(self).inner().pending()),
            final(self).inner().consumed() == old(self).inner().consumed(),
            final(self).inner().source_start() == old(self).inner().source_start(),
            old(self).inner().in_sync() && !(r matches Err(ForkedBufferedReaderReadError::Io(_)))
                ==> final(self).inner().in_sync(),
            old(self).inner().wf() ==> (r matches Ok(n) ==> {
                &&& final(self).pos() == old(self).pos() + n
                &&& n > 0 ==> final(output_buffer)@.take(n as int) == final(self).inner().pending().subrange(old(self).pos() as int, old(self).pos() + n)
            }),
            old(self).inner().wf() ==> (r matches Ok(n) ==> (n < old(output_buffer)@.len()
                ==> final(self).pos() >= final(self).inner().pending().len())),
    {
        let ghost p0 = self.inner().pending();
        proof {
            lemma_prefix_refl(p0);
        }
        if output_buffer.len() == 0 {
            return Ok(0);
        }
        if !(self.buffered_reader.last_user_read <= self.buffered_reader.bytes_in_buffer
            && self.buffered_reader.bytes_in_buffer <= self.buffered_reader.buffer.as_bytes().len()
            && self.buffered_reader.read_chunk_size > 0) {
            return Ok(0);
        }
        let wanted = output_buffer.len();
        let position = self.position;
        match self.read_exact(wanted) {
            Ok(bytes) => {
                copy_into(output_buffer, bytes);
                proof {
                    assert(output_buffer@.take(wanted as int) =~= bytes@);
                }
                Ok(wanted)
            },
            Err(ReadExactError::MemoryLimitExceeded(n)) => Err(
                ForkedBufferedReaderReadError::MemoryLimitExceeded(n),
            ),
            Err(ReadExactError::Io(e)) => Err(ForkedBufferedReaderReadError::Io(e)),
            Err(ReadExactError::UnexpectedEof { min_readable_bytes, .. }) => {
                if min_readable_bytes <= position {
                    return Ok(0);
                }
                let available = min_readable_bytes - position;
                let available = if available < wanted {
                    available
                } else {
                    wanted
                };
                let ghost p1 = self.inner().pending();
                match self.read_exact(available) {
                    Ok(bytes) => {
                        copy_into(output_buffer, bytes);
                        proof {
                            assert(output_buffer@.take(available as int) =~= bytes@);
                            lemma_prefix_trans(p0, p1, self.inner().pending());
                        }
                        Ok(available)
                    },
                    Err(_) => {
                        proof {
                            lemma_prefix_trans(p0, p1, self.inner().pending());
                        }
                        Ok(0)
                    },
                }
            },
        }
    }
}

impl<'f, 'a, R: Read + ?Sized, B: BackingBufferMut> Read for ForkedBufferedReader<'f, 'a, R, B> {
    type ReadError = ForkedBufferedReaderReadError<R::ReadError>;

    /// The bytes handed out by `read` so far.
    closed spec fn delivered(&self) -> Seq<u8> {
        self.given@
    }

    /// Reads ahead as many bytes as fit in `output_buffer`, or as are left before the end of the
    /// data.
    fn read(&mut self, output_buffer: &mut [u8]) -> (r: Result<usize, Self::ReadError>)
        ensures
            final(output_buffer)@.len() == old(output_buffer)@.len(),
            r matches Ok(n) ==> n <= old(output_buffer)@.len(),
            old(output_buffer)@.len() == 0 ==> r is Ok,
            old(self).inner().wf() ==> final(self).inner().wf(),
            old(self).inner().wf() ==> is_prefix(old(self).inner().pending(), final(self).inner().pending()),
            final(self).inner().consumed() == old(self).inner().consumed(),
            final(self).inner().source_start() == old(self).inner().source_start(),
            old(self).inner().in_sync() && !(r matches Err(ForkedBufferedReaderReadError::Io(_)))
                ==> final(self).inner().in_sync(),
            old(self).inner().wf() ==> (r matches Ok(n) ==> {
                &&& final(self).pos() == old(self).pos() + n
                &&& n > 0 ==> final(output_buffer)@.take(n as int) == final(self).inner().pending().subrange(old(self).pos() as int, old(self).pos() + n)
            }),
            old(self).inner().wf() ==> (r matches Ok(n) ==> (n < old(output_buffer)@.len()
                ==> final(self).pos() >= final(self).inner().pending().len())),
    {
        let ghost log = self.given@;
        let r = self.read_into(output_buffer);
        proof {
            if r is Ok {
                self.given@ = log + output_buffer@.take(r->Ok_0 as int);
            }
        }
        r
    }
}

/// Error of a [`BufferedWriter`].
#[derive(Debug, PartialEq, Eq)]
pub enum BufferedWriterWriteError<WWE, WFE> {
    IoWrite(WriteAllError<WWE>),
    IoFlush(WFE),
}

/// A buffered writer accumulates data until it reaches a certain size before writing it to the
/// target writer.
pub struct BufferedWriter<'a, W: Write + ?Sized> {
    target_writer: &'a mut W,
    buffer: Vec<u8>,
    pos: usize,
    always_chunk: bool,
}

impl<'a, W: Write + ?Sized> BufferedWriter<'a, W> {
    /// What the target writer has taken.
    pub closed spec fn target_accepted(&self) -> Seq<u8> {
        (*self.target_writer).accepted()
    }

    /// The bytes held back, not yet handed to the target.
    pub closed spec fn pending(&self) -> Seq<u8> {
        self.buffer@.take(self.pos as int)
    }

    /// The size of a chunk.
    pub closed spec fn chunk_size(&self) -> nat {
        self.buffer@.len()
    }

    /// Whether every write goes through the buffer.
    pub closed spec fn chunks_always(&self) -> bool {
        self.always_chunk
    }

    /// The internal bookkeeping is consistent.
    pub closed spec fn wf(&self) -> bool {
        self.pos <= self.buffer@.len()
    }

    /// Creates a new `BufferedWriter` with the specified chunk buffer size.
    pub fn new(target_writer: &'a mut W, chunk_buffer_size: usize, always_chunk: bool) -> (r: Self)
        ensures
            r.wf(),
            r.pending() == Seq::<u8>::empty(),
            r.chunk_size() == chunk_buffer_size,
            r.chunks_always() == always_chunk,
            r.target_accepted() == (*old(target_writer)).accepted(),
    {
        let mut buffer: Vec<u8> = Vec::new();
        buffer.resize(chunk_buffer_size, 0);
        let r = BufferedWriter { target_writer, buffer, pos: 0, always_chunk };
        proof {
            assert(r.pending() =~= Seq::<u8>::empty());
        }
        r
    }

    /// Hands the held-back bytes to the target writer.
    fn flush_buffer(&mut self, sync_hint: bool) -> (r: Result<(), WriteAllError<W::WriteError>>)
        requires
            old(self).wf(),
        ensures
            final(self).wf(),
            final(self).chunk_size() == old(self).chunk_size(),
            final(self).chunks_always() == old(self).chunks_always(),
            r is Ok ==> final(self).pending() == Seq::<u8>::empty() && final(self).target_accepted()
                == old(self).target_accepted() + old(self).pending(),
            r is Err ==> final(self).pending() == old(self).pending(),
            old(self).pending().len() == 0 ==> r is Ok,
    {
        if self.pos == 0 {
            proof {
                assert(self.pending() =~= Seq::<u8>::empty());
                assert(self.target_accepted() =~= self.target_accepted() + self.pending());
            }
            return Ok(());
        }
        let pos = self.pos;
        let chunk = &self.buffer.as_slice()[0..pos];
        proof {
            assert(chunk@ =~= self.pending());
        }
        let result = write_all(&mut *self.target_writer, chunk, sync_hint);
        match result {
            Ok(()) => {
                self.pos = 0;
                proof {
                    assert(self.pending() =~= Seq::<u8>::empty());
                }
                Ok(())
            },
            Err(e) => Err(e),
        }
    }
}

impl<'a, W: Write + ?Sized> Write for BufferedWriter<'a, W> {
    type WriteError = BufferedWriterWriteError<W::WriteError, W::FlushError>;

    type FlushError = BufferedWriterWriteError<W::WriteError, W::FlushError>;

    /// What a buffered writer has taken: what its target took through it, then what it holds
    /// back.
    open spec fn accepted(&self) -> Seq<u8> {
        self.target_accepted() + self.pending()
    }

    /// Adds as much of `input_buffer` to the chunk as fits, and hands the chunk on once it is full.
    /// Unless every write goes through the buffer, an input that does not fit is handed on whole,
    /// after the chunk.
    fn write(&mut self, input_buffer: &[u8], sync_hint: bool) -> (r: Result<usize, Self::WriteError>)
        ensures
            r matches Ok(n) ==> n <= input_buffer@.len(),
            input_buffer@.len() == 0 ==> r is Ok,
            old(self).wf() ==> final(self).wf(),
            final(self).chunk_size() == old(self).chunk_size(),
            final(self).chunks_always() == old(self).chunks_always(),
            old(self).wf() ==> (r matches Ok(n) ==> {
                let fits = old(self).pending().len() + input_buffer@.len() <= old(self).chunk_size();
                &&& (old(self).chunks_always() || fits) ==> {
                    &&& n == min_int(
                        input_buffer@.len() as int,
                        old(self).chunk_size() - old(self).pending().len(),
                    )
                    &&& final(self).pending() == old(self).pending() + input_buffer@.take(n as int)
                        || final(self).pending() == Seq::<u8>::empty()
                }
                &&& !(old(self).chunks_always() || fits) ==> n == input_buffer@.len()
                    && final(self).pending() == Seq::<u8>::empty()
            }),
    {
        if input_buffer.len() == 0 {
            proof {
                assert((*self).accepted() =~= (*self).accepted() + input_buffer@.take(0));
            }
            return Ok(0);
        }
        if self.pos > self.buffer.len() {
            proof {
                assert((*self).accepted() =~= (*self).accepted() + input_buffer@.take(0));
            }
            return Ok(0);
        }
        let capacity = self.buffer.len();
        if !self.always_chunk && (input_buffer.len() > capacity - self.pos) {
            match self.flush_buffer(sync_hint) {
                Ok(()) => {},
                Err(e) => {
                    return Err(BufferedWriterWriteError::IoWrite(e));
                },
            }
            return match write_all(&mut *self.target_writer, input_buffer, sync_hint) {
                Ok(()) => {
                    proof {
                        assert(input_buffer@.take(input_buffer@.len() as int) =~= input_buffer@);
                        assert((*self).accepted() =~= (*old(self)).accepted() + input_buffer@);
                    }
                    Ok(input_buffer.len())
                },
                Err(e) => Err(BufferedWriterWriteError::IoWrite(e)),
            };
        }
        let pos = self.pos;
        let space = capacity - pos;
        let bytes_to_write = if input_buffer.len() < space {
            input_buffer.len()
        } else {
            space
        };
        let ghost before = self.buffer@;
        {
            let slice = self.buffer.as_mut_slice();
            let (_front, back) = slice.split_at_mut(pos);
            let (dst, _rest) = back.split_at_mut(bytes_to_write);
            copy_into(dst, &input_buffer[0..bytes_to_write]);
        }
        self.pos = pos + bytes_to_write;
        proof {
            assert(self.pending() =~= before.take(pos as int) + input_buffer@.take(
                bytes_to_write as int,
            ));
            assert((*self).accepted() =~= (*old(self)).accepted() + input_buffer@.take(
                bytes_to_write as int,
            ));
        }
        if self.pos == capacity {
            let ghost mid = (*self).accepted();
            match self.flush_buffer(sync_hint) {
                Ok(()) => {},
                Err(e) => {
                    return Err(BufferedWriterWriteError::IoWrite(e));
                },
            }
            proof {
                assert((*self).accepted() =~= mid);
            }
        }
        Ok(bytes_to_write)
    }

    /// Hands the held-back bytes on, then flushes the target.
    fn flush(&mut self) -> (r: Result<(), Self::FlushError>)
        ensures
            old(self).wf() ==> final(self).wf(),
            old(self).wf() && r is Ok ==> final(self).pending() == Seq::<u8>::empty()
                && final(self).target_accepted() == (*old(self)).accepted(),
            old(self).wf() && (r matches Err(BufferedWriterWriteError::IoFlush(_))) ==> final(self).pending()
                == Seq::<u8>::empty(),
            old(self).wf() && (r matches Err(BufferedWriterWriteError::IoWrite(_))) ==> final(self).pending()
                == old(self).pending(),
    {
        if self.pos > self.buffer.len() {
            return Ok(());
        }
        match self.flush_buffer(true) {
            Ok(()) => {},
            Err(e) => {
                return Err(BufferedWriterWriteError::IoWrite(e));
            },
        }
        match self.target_writer.flush() {
            Ok(()) => Ok(()),
            Err(e) => Err(BufferedWriterWriteError::IoFlush(e)),
        }
    }
}


/// A buffered reader in step with its source has taken from the source exactly what it handed
/// out or skipped, followed by what it holds back; once it holds nothing back, what it consumed is
/// all the source handed out since the reader was made.
pub proof fn law_buffered_reader_follows_its_source<'a, R: Read + ?Sized, B: BackingBufferMut>(
    reader: BufferedReader<'a, R, B>,
)
    requires
        reader.in_sync(),
    ensures
        reader.source_delivered().take(reader.source_start().len() as int) == reader.source_start(),
        reader.source_delivered().skip(reader.source_start().len() as int) == reader.consumed()
            + reader.pending(),
        reader.pending().len() == 0 ==> reader.source_delivered() == reader.source_start()
            + reader.consumed(),
{
    let start = reader.source_start();
    let rest = reader.consumed() + reader.pending();
    assert(reader.source_delivered() =~= start + rest);
    assert((start + rest).take(start.len() as int) =~= start);
    assert((start + rest).skip(start.len() as int) =~= rest);
    if reader.pending().len() == 0 {
        assert(rest =~= reader.consumed());
    }
}

/// After a peek of some bytes succeeded, a read of as many bytes succeeds and gives the same
/// bytes: the peeked bytes are the start of what the reader holds.
pub proof fn law_read_after_peek<'a, R: Read + ?Sized, B: BackingBufferMut>(
    after_peek: BufferedReader<'a, R, B>,
    peeked: Seq<u8>,
)
    requires
        after_peek.wf(),
        is_prefix(peeked, after_peek.pending()),
    ensures
        peeked.len() <= after_peek.pending().len(),
        after_peek.pending().take(peeked.len() as int) == peeked,
{
}
} // verus!
