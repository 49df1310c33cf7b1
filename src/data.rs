//! Resolved bytes: a whole buffer, shared without copying, and a window into it.

use std::sync::Arc;
use vstd::prelude::*;

verus! {

/// Relies on `Arc::clone`: the new handle points to the same allocation, so it
/// holds the same value and no byte is copied.
#[verifier::external_body]
fn share_bytes(bytes: &Arc<Vec<u8>>) -> (r: Arc<Vec<u8>>)
    ensures
        r@ == bytes@,
{
    Arc::clone(bytes)
}

/// The resolved content of one buffer. Every holder shares one allocation.
pub struct BufferData {
    bytes: Arc<Vec<u8>>,
}

impl View for BufferData {
    type V = Seq<u8>;

    closed spec fn view(&self) -> Seq<u8> {
        self.bytes@
    }
}

impl BufferData {
    /// Takes ownership of the bytes that a resolver produced.
    pub fn new(bytes: Vec<u8>) -> (r: BufferData)
        ensures
            r@ == bytes@,
    {
        BufferData { bytes: Arc::new(bytes) }
    }

    /// A second handle to the same bytes.
    pub fn share(&self) -> (r: BufferData)
        ensures
            r@ == self@,
    {
        BufferData { bytes: share_bytes(&self.bytes) }
    }

    pub fn len(&self) -> (r: usize)
        ensures
            r == self@.len(),
    {
        self.bytes.len()
    }

    pub fn as_slice(&self) -> (r: &[u8])
        ensures
            r@ == self@,
    {
        let v: &Vec<u8> = &*self.bytes;
        v.as_slice()
    }
}

/// The bytes `[begin, end)` of a resolved buffer, held without copying.
pub struct ViewData {
    buffer: BufferData,
    begin: usize,
    end: usize,
}

impl View for ViewData {
    type V = Seq<u8>;

    closed spec fn view(&self) -> Seq<u8> {
        self.buffer@.subrange(self.begin as int, self.end as int)
    }
}

impl ViewData {
    #[verifier::type_invariant]
    spec fn inv(self) -> bool {
        self.begin <= self.end <= self.buffer@.len()
    }

    pub closed spec fn spec_begin(&self) -> usize {
        self.begin
    }

    pub closed spec fn spec_end(&self) -> usize {
        self.end
    }

    pub closed spec fn spec_buffer(&self) -> Seq<u8> {
        self.buffer@
    }

    /// The window `[begin, end)` of `buffer`.
    pub fn new(buffer: BufferData, begin: usize, end: usize) -> (r: ViewData)
        requires
            begin <= end <= buffer@.len(),
        ensures
            r@ == buffer@.subrange(begin as int, end as int),
            r.spec_begin() == begin,
            r.spec_end() == end,
            r.spec_buffer() == buffer@,
    {
        ViewData { buffer, begin, end }
    }

    /// Offset of the window's first byte in the buffer.
    pub fn begin(&self) -> (r: usize)
        ensures
            r == self.spec_begin(),
    {
        self.begin
    }

    /// Offset one past the window's last byte in the buffer.
    pub fn end(&self) -> (r: usize)
        ensures
            r == self.spec_end(),
    {
        self.end
    }

    /// The whole buffer that the window lies in.
    pub fn buffer(&self) -> (r: &BufferData)
        ensures
            r@ == self.spec_buffer(),
    {
        &self.buffer
    }

    pub fn len(&self) -> (r: usize)
        ensures
            r == self@.len(),
            r == self.spec_end() - self.spec_begin(),
    {
        proof {
            use_type_invariant(self);
        }
        self.end - self.begin
    }

    pub fn as_slice(&self) -> (r: &[u8])
        ensures
            r@ == self@,
    {
        proof {
            use_type_invariant(self);
        }
        vstd::slice::slice_subrange(self.buffer.as_slice(), self.begin, self.end)
    }
}

} // verus!
