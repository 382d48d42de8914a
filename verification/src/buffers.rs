//! Byte buffers that back a [`Cursor`](crate::cursor::Cursor): fixed-size arrays, slices and growable vectors.
use vstd::prelude::*;

verus! {

/// The zero-filled extension of `s` to length `n`, or its prefix of length `n`.
pub open spec fn resized(s: Seq<u8>, n: nat) -> Seq<u8> {
    if n <= s.len() {
        s.take(n as int)
    } else {
        s + Seq::new((n - s.len()) as nat, |i: int| 0u8)
    }
}

/// A buffer of bytes that can be read as a slice.
pub trait BackingBuffer {
    /// The bytes held by the buffer.
    spec fn contents(&self) -> Seq<u8>;

    fn as_bytes(&self) -> (r: &[u8])
        ensures
            r@ == self.contents(),
    ;
}

/// The error of a resize: the size the buffer has after the failed attempt, and the cause.
pub struct ResizeError<E> {
    pub size_after_resize: usize,
    pub resize_error: E,
}

/// A buffer of bytes that can be written and possibly resized.
pub trait BackingBufferMut: BackingBuffer {
    type ResizeError;

    /// Whether the buffer can never change its length.
    spec fn fixed_size(&self) -> bool;

    /// Whether `e` is an error this buffer may give when asked for `new_size` bytes.
    spec fn refuses(&self, new_size: usize, e: Self::ResizeError) -> bool;

    fn as_bytes_mut(&mut self) -> (r: &mut [u8])
        ensures
            r@ == old(self).contents(),
            final(self).contents() == final(r)@,
            final(self).fixed_size() == old(self).fixed_size(),
    ;

    /// Returns the new size of the buffer after resizing.
    ///
    /// When shrinking is requested, but the buffer has a fixed size, returning a larger size than `new_size` is allowed.
    ///
    /// It is an error to return less than the requested size.
    fn try_resize(&mut self, new_size: usize) -> (r: Result<usize, ResizeError<Self::ResizeError>>)
        ensures
            final(self).fixed_size() == old(self).fixed_size(),
            r matches Ok(n) ==> {
                &&& n >= new_size
                &&& n == final(self).contents().len()
                &&& old(self).fixed_size() ==> final(self).contents() == old(self).contents()
                &&& !old(self).fixed_size() ==> final(self).contents() == resized(
                    old(self).contents(),
                    new_size as nat,
                )
            },
            r matches Err(e) ==> {
                &&& final(self).contents() == old(self).contents()
                &&& e.size_after_resize == old(self).contents().len()
                &&& old(self).refuses(new_size, e.resize_error)
            },
    ;
}

/// The error of a fixed-size buffer that is asked to grow.
#[derive(Debug, PartialEq, Eq)]
pub struct FixedSizeBufferError {
    pub fixed_buffer_size: usize,
    pub requested_size: usize,
}

impl BackingBuffer for Vec<u8> {
    open spec fn contents(&self) -> Seq<u8> {
        self@
    }

    fn as_bytes(&self) -> (r: &[u8]) {
        self.as_slice()
    }
}

impl BackingBufferMut for Vec<u8> {
    type ResizeError = std::collections::TryReserveError;

    open spec fn fixed_size(&self) -> bool {
        false
    }

    /// A vector fails to grow only when memory cannot be reserved.
    open spec fn refuses(&self, new_size: usize, e: Self::ResizeError) -> bool {
        true
    }

    fn as_bytes_mut(&mut self) -> (r: &mut [u8]) {
        self.as_mut_slice()
    }

    fn try_resize(&mut self, new_size: usize) -> (r: Result<usize, ResizeError<Self::ResizeError>>) {
        let old_len = self.len();
        let additional = if new_size > old_len {
            new_size - old_len
        } else {
            0
        };
        match self.try_reserve(additional) {
            Ok(()) => {},
            Err(e) => {
                return Err(ResizeError { size_after_resize: old_len, resize_error: e });
            },
        }
        if new_size > old_len {
            while self.len() < new_size
                invariant
                    old_len <= self@.len() <= new_size,
                    self@ == old(self)@ + Seq::new((self@.len() - old_len) as nat, |i: int| 0u8),
                    old_len == old(self)@.len(),
                decreases new_size - self@.len(),
            {
                self.push(0);
                proof {
                    assert(self@ =~= old(self)@ + Seq::new(
                        (self@.len() - old_len) as nat,
                        |i: int| 0u8,
                    ));
                }
            }
        } else {
            while self.len() > new_size
                invariant
                    new_size <= self@.len() <= old_len,
                    self@ == old(self)@.take(self@.len() as int),
                    old_len == old(self)@.len(),
                decreases self@.len(),
            {
                self.pop();
                proof {
                    assert(self@ =~= old(self)@.take(self@.len() as int));
                }
            }
        }
        Ok(new_size)
    }
}

impl<const N: usize> BackingBuffer for [u8; N] {
    open spec fn contents(&self) -> Seq<u8> {
        self@
    }

    fn as_bytes(&self) -> (r: &[u8]) {
        self.as_slice()
    }
}

impl<const N: usize> BackingBufferMut for [u8; N] {
    type ResizeError = FixedSizeBufferError;

    open spec fn fixed_size(&self) -> bool {
        true
    }

    /// An array refuses any size above its own, naming both.
    open spec fn refuses(&self, new_size: usize, e: Self::ResizeError) -> bool {
        e == (FixedSizeBufferError { fixed_buffer_size: N, requested_size: new_size })
    }

    fn as_bytes_mut(&mut self) -> (r: &mut [u8]) {
        self
    }

    fn try_resize(&mut self, new_size: usize) -> (r: Result<usize, ResizeError<Self::ResizeError>>)
        ensures
            r is Ok <==> new_size <= N,
            r matches Err(e) ==> e.resize_error == (FixedSizeBufferError {
                fixed_buffer_size: N,
                requested_size: new_size,
            }),
    {
        if new_size > N {
            return Err(
                ResizeError {
                    size_after_resize: N,
                    resize_error: FixedSizeBufferError {
                        fixed_buffer_size: N,
                        requested_size: new_size,
                    },
                },
            );
        }
        Ok(N)
    }
}

impl<'a> BackingBuffer for &'a [u8] {
    open spec fn contents(&self) -> Seq<u8> {
        (**self)@
    }

    fn as_bytes(&self) -> (r: &[u8]) {
        *self
    }
}

impl<'a, const N: usize> BackingBuffer for &'a [u8; N] {
    open spec fn contents(&self) -> Seq<u8> {
        (**self)@
    }

    fn as_bytes(&self) -> (r: &[u8]) {
        (**self).as_slice()
    }
}

/// Imposes a size limit on the resize function of a [`BackingBufferMut`].
pub struct LimitedBackingBuffer<'a, B: BackingBufferMut> {
    backing_buffer: &'a mut B,
    max_size: usize,
}

/// Error of a [`LimitedBackingBuffer`] resize.
#[derive(Debug)]
pub enum LimitedBackingBufferError<U> {
    /// The requested size is above the limit, which is given.
    MemoryLimitExceeded(usize),
    /// The underlying buffer failed to resize.
    ResizeError(U),
}

impl<'a, B: BackingBufferMut> LimitedBackingBuffer<'a, B> {
    /// The limit that resizes must respect.
    pub closed spec fn max_size(&self) -> usize {
        self.max_size
    }

    /// The wrapped buffer.
    pub closed spec fn inner(&self) -> B {
        *self.backing_buffer
    }

    pub fn new(backing_buffer: &'a mut B, max_size: usize) -> (r: Self)
        ensures
            r.max_size() == max_size,
            r.inner() == *old(backing_buffer),
    {
        LimitedBackingBuffer { backing_buffer, max_size }
    }

    pub fn backing_buffer(&self) -> (r: &B)
        ensures
            *r == self.inner(),
    {
        &*self.backing_buffer
    }

    /// Lends out the wrapped buffer for changes; the limit stays.
    pub fn backing_buffer_mut(&mut self) -> (r: &mut B)
        ensures
            *r == old(self).inner(),
            final(self).inner() == *final(r),
            final(self).max_size() == old(self).max_size(),
    {
        &mut *self.backing_buffer
    }
}

impl<'a, B: BackingBufferMut> BackingBuffer for LimitedBackingBuffer<'a, B> {
    open spec fn contents(&self) -> Seq<u8> {
        self.inner().contents()
    }

    fn as_bytes(&self) -> (r: &[u8]) {
        self.backing_buffer.as_bytes()
    }
}

impl<'a, B: BackingBufferMut> BackingBufferMut for LimitedBackingBuffer<'a, B> {
    type ResizeError = LimitedBackingBufferError<B::ResizeError>;

    open spec fn fixed_size(&self) -> bool {
        self.inner().fixed_size()
    }

    /// Above the limit the limit is named; within it, the wrapped buffer's error.
    open spec fn refuses(&self, new_size: usize, e: Self::ResizeError) -> bool {
        match e {
            LimitedBackingBufferError::MemoryLimitExceeded(m) => new_size > self.max_size() && m == self.max_size(),
            LimitedBackingBufferError::ResizeError(inner) => new_size <= self.max_size() && self.inner().refuses(
                new_size,
                inner,
            ),
        }
    }

    fn as_bytes_mut(&mut self) -> (r: &mut [u8]) {
        self.backing_buffer.as_bytes_mut()
    }

    fn try_resize(&mut self, new_size: usize) -> (r: Result<usize, ResizeError<Self::ResizeError>>) {
        if new_size > self.max_size {
            let current = self.backing_buffer.as_bytes().len();
            return Err(
                ResizeError {
                    size_after_resize: current,
                    resize_error: LimitedBackingBufferError::MemoryLimitExceeded(self.max_size),
                },
            );
        }
        match self.backing_buffer.try_resize(new_size) {
            Ok(n) => Ok(n),
            Err(e) => Err(
                ResizeError {
                    size_after_resize: e.size_after_resize,
                    resize_error: LimitedBackingBufferError::ResizeError(e.resize_error),
                },
            ),
        }
    }
}

} // verus!
