//! Owned buffers that graphics data is loaded into, and compressed
//! resources that are built into the program.
use core::marker::PhantomData;
use vstd::prelude::*;

verus! {

/// A byte buffer that holds items of type `T`.
pub struct AllocBuf<T: Sized> {
    data: Vec<u8>,
    _p: PhantomData<T>,
}

impl<T> AllocBuf<T> {
    /// The bytes held.
    pub closed spec fn bytes(&self) -> Seq<u8> {
        self.data@
    }

    /// A buffer that takes over `alloc`.
    pub fn new(alloc: Vec<u8>) -> (res: Self)
        ensures
            res.bytes() == alloc@,
    {
        AllocBuf { data: alloc, _p: PhantomData }
    }

    /// The size of the buffer in bytes.
    pub fn size_bytes(&self) -> (res: usize)
        ensures
            res == self.bytes().len(),
    {
        self.data.len()
    }

    /// The bytes held.
    pub fn as_slice(&self) -> (res: &[u8])
        ensures
            res@ == self.bytes(),
    {
        self.data.as_slice()
    }
}

/// Compressed data of a resource whose uncompressed size is `SIZE` bytes.
pub struct CompressedResource<const SIZE: usize> {
    data: &'static [u8],
}

impl<const SIZE: usize> CompressedResource<SIZE> {
    /// The compressed bytes.
    pub closed spec fn compressed(&self) -> Seq<u8> {
        self.data@
    }

    /// A resource whose compressed bytes are `data`.
    pub fn from_ref(data: &'static [u8]) -> (res: Self)
        ensures
            res.compressed() == data@,
    {
        CompressedResource { data }
    }

    /// The compressed bytes.
    pub fn data(&self) -> (res: &'static [u8])
        ensures
            res@ == self.compressed(),
    {
        self.data
    }

    /// The size of the uncompressed resource.
    pub fn size(&self) -> (res: usize)
        ensures
            res == SIZE,
    {
        SIZE
    }
}

} // verus!
