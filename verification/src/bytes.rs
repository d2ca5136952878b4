//! Byte buffers that are either owned or borrowed.
//!
//! Storage keys are assembled in owned buffers but usually handed around as
//! borrowed slices; `ByteArrayOrRef` lets both travel under one type.

use vstd::prelude::*;
use vstd::slice::slice_subrange;

verus! {

/// An owned, growable byte buffer. The `INLINE_SIZE` parameter is a sizing
/// hint carried in the type so that callers can pick buffers dimensioned for
/// their key family; it does not bound the length of the data.
pub struct ByteArray<const INLINE_SIZE: usize> {
    data: Vec<u8>,
}

impl<const INLINE_SIZE: usize> View for ByteArray<INLINE_SIZE> {
    type V = Seq<u8>;

    closed spec fn view(&self) -> Seq<u8> {
        self.data@
    }
}

impl<const INLINE_SIZE: usize> ByteArray<INLINE_SIZE> {
    /// Wraps an owned byte vector.
    pub fn from_vec(data: Vec<u8>) -> (r: Self)
        ensures
            r@ == data@,
    {
        ByteArray { data }
    }

    /// The buffer's contents as a slice.
    pub fn bytes(&self) -> (r: &[u8])
        ensures
            r@ == self@,
    {
        self.data.as_slice()
    }

    /// Shortens the buffer to `length` bytes, dropping the tail.
    pub fn truncate(&mut self, length: usize)
        requires
            length <= old(self)@.len(),
        ensures
            final(self)@ == old(self)@.subrange(0, length as int),
    {
        self.data.truncate(length);
    }
}

/// A byte string that is either an owned buffer or a borrowed slice.
pub enum ByteArrayOrRef<'bytes, const ARRAY_INLINE_SIZE: usize> {
    Array(ByteArray<ARRAY_INLINE_SIZE>),
    Reference(&'bytes [u8]),
}

impl<'bytes, const ARRAY_INLINE_SIZE: usize> View for ByteArrayOrRef<'bytes, ARRAY_INLINE_SIZE> {
    type V = Seq<u8>;

    open spec fn view(&self) -> Seq<u8> {
        match self {
            ByteArrayOrRef::Array(array) => array@,
            ByteArrayOrRef::Reference(bytes) => bytes@,
        }
    }
}

impl<'bytes, const ARRAY_INLINE_SIZE: usize> ByteArrayOrRef<'bytes, ARRAY_INLINE_SIZE> {
    /// The underlying bytes, whichever form they are held in.
    pub fn bytes(&'bytes self) -> (r: &'bytes [u8])
        ensures
            r@ == self@,
    {
        match self {
            ByteArrayOrRef::Array(array) => array.bytes(),
            ByteArrayOrRef::Reference(bytes) => bytes,
        }
    }

    /// The number of bytes held.
    pub fn length(&self) -> (r: usize)
        ensures
            r == self@.len(),
    {
        self.bytes().len()
    }

    /// Keeps the first `length` bytes, preserving whether the value is owned
    /// or borrowed.
    pub fn truncate(self, length: usize) -> (r: ByteArrayOrRef<'bytes, ARRAY_INLINE_SIZE>)
        requires
            length <= self@.len(),
        ensures
            r@ == self@.subrange(0, length as int),
            r is Array <==> self is Array,
    {
        match self {
            ByteArrayOrRef::Array(mut array) => {
                array.truncate(length);
                ByteArrayOrRef::Array(array)
            },
            ByteArrayOrRef::Reference(bytes) => {
                ByteArrayOrRef::Reference(slice_subrange(bytes, 0, length))
            },
        }
    }

    /// Takes the borrowed slice out. Only a `Reference` can be unwrapped.
    pub fn unwrap_reference(self) -> (r: &'bytes [u8])
        requires
            self is Reference,
        ensures
            r@ == self@,
    {
        match self {
            ByteArrayOrRef::Reference(bytes) => bytes,
            ByteArrayOrRef::Array(_) => {
                proof {
                    assert(false);
                }
                &[]
            },
        }
    }
}

} // verus!
