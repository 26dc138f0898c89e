//! A buffer from whose front used portions are handed out, the rest being kept
//! for further use.
use vstd::prelude::*;

verus! {

/// A buffer that allows detaching used portions while retaining the remaining unused portion.
///
/// Its view is the sequence of bytes that remain in the buffer.  Detached
/// portions and the remaining bytes are parts of the memory the buffer was
/// made over: what is written into them is what that memory holds once they
/// are gone.
pub struct DetachableBuffer<'a> {
    /// The bytes that remain.
    pub buffer: &'a mut [u8],
}

impl<'a> View for DetachableBuffer<'a> {
    type V = Seq<u8>;

    open spec fn view(&self) -> Seq<u8> {
        self.buffer@
    }
}

impl<'a> DetachableBuffer<'a> {
    /// Creates a new DetachableBuffer over the provided bytes.
    pub fn new(buffer: &'a mut [u8]) -> (r: Self)
        ensures
            r@ == old(buffer)@,
            final(buffer)@ == final(r.buffer)@,
    {
        Self { buffer }
    }

    /// Returns the length of the current buffer.
    pub fn len(&self) -> (r: usize)
        ensures
            r == self@.len(),
    {
        self.buffer.len()
    }

    /// Returns true if the buffer is empty.
    pub fn is_empty(&self) -> (r: bool)
        ensures
            r == (self@.len() == 0),
    {
        self.len() == 0
    }

    /// Returns a slice to the entire buffer.
    pub fn as_slice(&self) -> (r: &[u8])
        ensures
            r@ == self@,
    {
        self.buffer
    }

    /// Returns a mutable slice to the entire buffer; what is written through it
    /// is what the buffer holds afterwards.
    pub fn as_mut_slice(&mut self) -> (r: &mut [u8])
        ensures
            r@ == old(self)@,
            final(self)@ == final(r)@,
            final(final(self).buffer)@ == final(old(self).buffer)@,
    {
        self.buffer
    }

    /// Detaches the first `used_size` bytes of the buffer and returns them.
    /// The remaining bytes are kept for future use; the memory ends up
    /// holding what is written into the detached part, followed by what is
    /// written into the rest.
    pub fn detach(&mut self, used_size: usize) -> (used: &'a mut [u8])
        requires
            used_size <= old(self)@.len(),
        ensures
            used@ == old(self)@.subrange(0, used_size as int),
            final(self)@ == old(self)@.subrange(used_size as int, old(self)@.len() as int),
            final(old(self).buffer)@ == final(used)@ + final(final(self).buffer)@,
    {
        let mut whole: &'a mut [u8] = &mut [];
        core::mem::swap(&mut self.buffer, &mut whole);
        let (used, remaining) = whole.split_at_mut(used_size);
        self.buffer = remaining;
        used
    }

    /// Takes the remaining buffer, consuming this DetachableBuffer.
    pub fn take_remaining(self) -> (r: &'a mut [u8])
        ensures
            r@ == self@,
            final(r)@ == final(self.buffer)@,
    {
        self.buffer
    }
}

impl<'a> From<&'a mut [u8]> for DetachableBuffer<'a> {
    fn from(buffer: &'a mut [u8]) -> (r: Self)
        ensures
            r@ == old(buffer)@,
            final(buffer)@ == final(r.buffer)@,
    {
        Self { buffer }
    }
}

impl<'a> vstd::std_specs::convert::FromSpecImpl<&'a mut [u8]> for DetachableBuffer<'a> {
    /// `from` is described by its own contract, over the view and the
    /// memory's final contents.
    open spec fn obeys_from_spec() -> bool {
        false
    }

    open spec fn from_spec(v: &'a mut [u8]) -> Self {
        DetachableBuffer { buffer: v }
    }
}

impl<'a, const N: usize> From<&'a mut [u8; N]> for DetachableBuffer<'a> {
    fn from(buffer: &'a mut [u8; N]) -> (r: Self)
        ensures
            r@ == old(buffer)@,
            final(buffer)@ == final(r.buffer)@,
    {
        Self { buffer }
    }
}

impl<'a, const N: usize> vstd::std_specs::convert::FromSpecImpl<&'a mut [u8; N]> for DetachableBuffer<'a> {
    /// `from` is described by its own contract, over the view and the
    /// memory's final contents.
    open spec fn obeys_from_spec() -> bool {
        false
    }

    open spec fn from_spec(v: &'a mut [u8; N]) -> Self {
        choose|b: DetachableBuffer<'a>| b@ == v@
    }
}

/// Detaching splits the buffer: the detached bytes followed by the bytes that
/// remain are the bytes the buffer held before.
pub proof fn lemma_detach_splits(before: Seq<u8>, used_size: int)
    requires
        0 <= used_size <= before.len(),
    ensures
        before.subrange(0, used_size) + before.subrange(used_size, before.len() as int) == before,
{
    assert(before.subrange(0, used_size) + before.subrange(used_size, before.len() as int) =~= before);
}

} // verus!
