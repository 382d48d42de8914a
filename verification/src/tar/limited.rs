//! A vector that refuses to grow beyond a maximum length.
use vstd::prelude::*;

use crate::buffers::LimitedBackingBufferError;

verus! {

/// A vector with a maximum length; growing it beyond that length fails instead of allocating.
#[derive(Debug, PartialEq, Eq)]
pub struct LimitedVec<T> {
    vec: Vec<T>,
    max_len: usize,
}

/// The error of growing a [`LimitedVec`].
pub type LimitedVecError = LimitedBackingBufferError<std::collections::TryReserveError>;

impl<T: Copy> LimitedVec<T> {
    /// The elements.
    pub closed spec fn items(&self) -> Seq<T> {
        self.vec@
    }

    /// The maximum length.
    pub closed spec fn limit(&self) -> usize {
        self.max_len
    }

    /// An empty vector that holds at most `max_len` elements.
    pub fn new(max_len: usize) -> (r: Self)
        ensures
            r.items() == Seq::<T>::empty(),
            r.limit() == max_len,
    {
        LimitedVec { vec: Vec::new(), max_len }
    }

    /// A vector that holds at most `max_len` elements, holding those of `vec`.
    pub fn from_vec(max_len: usize, vec: Vec<T>) -> (r: Self)
        ensures
            r.items() == vec@,
            r.limit() == max_len,
    {
        LimitedVec { vec, max_len }
    }

    pub fn max_len(&self) -> (r: usize)
        ensures
            r == self.limit(),
    {
        self.max_len
    }

    pub fn len(&self) -> (r: usize)
        ensures
            r == self.items().len(),
    {
        self.vec.len()
    }

    pub fn is_empty(&self) -> (r: bool)
        ensures
            r == (self.items().len() == 0),
    {
        self.vec.len() == 0
    }

    pub fn as_slice(&self) -> (r: &[T])
        ensures
            r@ == self.items(),
    {
        self.vec.as_slice()
    }

    /// A copy of the elements.
    pub fn to_vec(&self) -> (r: Vec<T>)
        ensures
            r@ == self.items(),
    {
        let mut out: Vec<T> = Vec::new();
        let mut i: usize = 0;
        while i < self.vec.len()
            invariant
                i <= self.vec@.len(),
                out@ == self.vec@.take(i as int),
            decreases self.vec@.len() - i,
        {
            out.push(self.vec[i]);
            i = i + 1;
            proof {
                assert(out@ =~= self.vec@.take(i as int));
            }
        }
        proof {
            assert(self.vec@.take(i as int) =~= self.vec@);
        }
        out
    }

    /// Removes every element.
    pub fn clear(&mut self)
        ensures
            final(self).items() == Seq::<T>::empty(),
            final(self).limit() == old(self).limit(),
    {
        self.vec.clear();
    }

    /// Makes room for `additional` more elements within the limit.
    fn reserve_within_limit(&mut self, additional: usize) -> (r: Result<(), LimitedVecError>)
        ensures
            final(self).items() == old(self).items(),
            final(self).limit() == old(self).limit(),
            r is Ok ==> old(self).items().len() + additional <= old(self).limit(),
            old(self).items().len() + additional > old(self).limit() ==> r == Err::<(), LimitedVecError>(
                LimitedBackingBufferError::MemoryLimitExceeded(old(self).limit()),
            ),
            r matches Err(e) ==> e is MemoryLimitExceeded ==> old(self).items().len() + additional
                > old(self).limit(),
    {
        let len = self.vec.len();
        if additional > self.max_len || len > self.max_len - additional {
            return Err(LimitedBackingBufferError::MemoryLimitExceeded(self.max_len));
        }
        match self.vec.try_reserve(additional) {
            Ok(()) => Ok(()),
            Err(e) => Err(LimitedBackingBufferError::ResizeError(e)),
        }
    }

    /// Appends an element, unless the vector is full or memory runs out.
    pub fn push(&mut self, value: T) -> (r: Result<(), LimitedVecError>)
        ensures
            final(self).limit() == old(self).limit(),
            r is Ok ==> final(self).items() == old(self).items().push(value),
            r is Err ==> final(self).items() == old(self).items(),
            old(self).items().len() >= old(self).limit() ==> r == Err::<(), LimitedVecError>(
                LimitedBackingBufferError::MemoryLimitExceeded(old(self).limit()),
            ),
            r matches Err(e) ==> e is MemoryLimitExceeded ==> old(self).items().len()
                >= old(self).limit(),
    {
        match self.reserve_within_limit(1) {
            Ok(()) => {},
            Err(e) => {
                return Err(e);
            },
        }
        self.vec.push(value);
        Ok(())
    }

    /// Appends the elements of a slice, unless they do not fit.
    pub fn extend_from_slice(&mut self, values: &[T]) -> (r: Result<(), LimitedVecError>)
        ensures
            final(self).limit() == old(self).limit(),
            r is Ok ==> final(self).items() == old(self).items() + values@,
            r is Err ==> final(self).items() == old(self).items(),
            old(self).items().len() + values@.len() > old(self).limit() ==> r == Err::<
                (),
                LimitedVecError,
            >(LimitedBackingBufferError::MemoryLimitExceeded(old(self).limit())),
            r matches Err(e) ==> e is MemoryLimitExceeded ==> old(self).items().len() + values@.len()
                > old(self).limit(),
    {
        match self.reserve_within_limit(values.len()) {
            Ok(()) => {},
            Err(e) => {
                return Err(e);
            },
        }
        let ghost before = self.vec@;
        let mut i: usize = 0;
        while i < values.len()
            invariant
                i <= values@.len(),
                self.vec@ == before + values@.take(i as int),
                self.max_len == old(self).limit(),
            decreases values@.len() - i,
        {
            self.vec.push(values[i]);
            i = i + 1;
            proof {
                assert(self.vec@ =~= before + values@.take(i as int));
            }
        }
        proof {
            assert(values@.take(i as int) =~= values@);
        }
        Ok(())
    }

    /// Sizes the vector to `new_len`, filling new places with `value`, unless `new_len` is
    /// beyond the limit.
    pub fn resize(&mut self, new_len: usize, value: T) -> (r: Result<(), LimitedVecError>)
        ensures
            final(self).limit() == old(self).limit(),
            r is Ok ==> final(self).items().len() == new_len && (forall|i: int|
                0 <= i < new_len ==> #[trigger] final(self).items()[i] == if i < old(
                    self,
                ).items().len() {
                    old(self).items()[i]
                } else {
                    value
                }),
            r is Err ==> final(self).items() == old(self).items(),
            new_len > old(self).limit() ==> r == Err::<(), LimitedVecError>(
                LimitedBackingBufferError::MemoryLimitExceeded(old(self).limit()),
            ),
    {
        if new_len > self.max_len {
            return Err(LimitedBackingBufferError::MemoryLimitExceeded(self.max_len));
        }
        let len = self.vec.len();
        if new_len > len {
            match self.vec.try_reserve(new_len - len) {
                Ok(()) => {},
                Err(e) => {
                    return Err(LimitedBackingBufferError::ResizeError(e));
                },
            }
            while self.vec.len() < new_len
                invariant
                    len <= self.vec@.len() <= new_len,
                    len == old(self).items().len(),
                    self.max_len == old(self).limit(),
                    forall|i: int|
                        0 <= i < self.vec@.len() ==> #[trigger] self.vec@[i] == if i < len {
                            old(self).items()[i]
                        } else {
                            value
                        },
                decreases new_len - self.vec@.len(),
            {
                self.vec.push(value);
            }
        } else {
            self.vec.truncate(new_len);
        }
        Ok(())
    }
}

} // verus!
