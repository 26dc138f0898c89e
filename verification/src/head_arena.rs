//! A bump allocator that hands out front portions of a buffer.
//!
//! Take what you need from the front; the rest stays available for later
//! allocations.  The arena does not track whether its bytes were initialized:
//! a portion that is taken holds whatever bytes the buffer held there.
use vstd::prelude::*;

verus! {

/// A simple bump allocator that allows detaching front portions of a buffer.
///
/// Its view is the sequence of bytes that are still free.  The portions it
/// hands out and its free space are parts of the memory it was made over:
/// what is written into them is what that memory holds once they are gone.
pub struct HeadArena<'buf> {
    /// The free space.
    pub arena: &'buf mut [u8],
}

impl<'buf> View for HeadArena<'buf> {
    type V = Seq<u8>;

    open spec fn view(&self) -> Seq<u8> {
        self.arena@
    }
}

impl<'buf> HeadArena<'buf> {
    /// Creates an arena over the given bytes.
    pub fn new(arena: &'buf mut [u8]) -> (r: Self)
        ensures
            r@ == old(arena)@,
            final(arena)@ == final(r.arena)@,
    {
        Self::from_uninitialized(arena)
    }

    /// Creates an arena over the given space, whose contents are not meant to be read
    /// before they are written.
    pub fn from_uninitialized(arena: &'buf mut [u8]) -> (r: Self)
        ensures
            r@ == old(arena)@,
            final(arena)@ == final(r.arena)@,
    {
        Self { arena }
    }

    /// Returns the length of free arena.
    pub fn len(&self) -> (r: usize)
        ensures
            r == self@.len(),
    {
        self.arena.len()
    }

    /// Returns true if the arena is empty.
    pub fn is_empty(&self) -> (r: bool)
        ensures
            r == (self@.len() == 0),
    {
        self.len() == 0
    }

    /// Creates a new `TempBuffer` that borrows the entire arena space.
    /// What the temporary buffer leaves in the arena is what the arena holds
    /// once the borrow ends.
    pub fn temporary(&mut self) -> (t: TempBuffer<'_, 'buf>)
        ensures
            t.arena@ == old(self)@,
            *t.arena == *old(self),
            *final(self) == *final(t.arena),
    {
        TempBuffer::new_uninitialized(self)
    }

    /// Takes the first `n` bytes of the arena and returns them; the arena
    /// keeps the rest.  The memory ends up holding what is written into the
    /// part taken, followed by what is written into the rest.
    pub fn take_front_mut(&mut self, n: usize) -> (used: &'buf mut [u8])
        requires
            n <= old(self)@.len(),
        ensures
            used@ == old(self)@.subrange(0, n as int),
            final(self)@ == old(self)@.subrange(n as int, old(self)@.len() as int),
            final(old(self).arena)@ == final(used)@ + final(final(self).arena)@,
    {
        let mut whole: &'buf mut [u8] = &mut [];
        core::mem::swap(&mut self.arena, &mut whole);
        let (used, rest) = whole.split_at_mut(n);
        self.arena = rest;
        used
    }

    /// Takes the remaining arena space, consuming the HeadArena.
    pub fn take_remaining_mut(self) -> (r: &'buf mut [u8])
        ensures
            r@ == self@,
            final(r)@ == final(self.arena)@,
    {
        self.arena
    }
}

impl<'buf> From<&'buf mut [u8]> for HeadArena<'buf> {
    fn from(buffer: &'buf mut [u8]) -> (r: Self)
        ensures
            r@ == old(buffer)@,
            final(buffer)@ == final(r.arena)@,
    {
        Self { arena: buffer }
    }
}

impl<'buf> vstd::std_specs::convert::FromSpecImpl<&'buf mut [u8]> for HeadArena<'buf> {
    /// `from` is described by its own contract, over the view and the
    /// memory's final contents.
    open spec fn obeys_from_spec() -> bool {
        false
    }

    open spec fn from_spec(v: &'buf mut [u8]) -> Self {
        HeadArena { arena: v }
    }
}

impl<'buf, const N: usize> From<&'buf mut [u8; N]> for HeadArena<'buf> {
    fn from(buffer: &'buf mut [u8; N]) -> (r: Self)
        ensures
            r@ == old(buffer)@,
            final(buffer)@ == final(r.arena)@,
    {
        Self { arena: buffer }
    }
}

impl<'buf, const N: usize> vstd::std_specs::convert::FromSpecImpl<&'buf mut [u8; N]> for HeadArena<'buf> {
    /// `from` is described by its own contract, over the view and the
    /// memory's final contents.
    open spec fn obeys_from_spec() -> bool {
        false
    }

    open spec fn from_spec(v: &'buf mut [u8; N]) -> Self {
        choose|a: HeadArena<'buf>| a@ == v@
    }
}

/// A temporary buffer over all the free space of a [`HeadArena`], from whose
/// front a portion can be acquired.
pub struct TempBuffer<'arena, 'buf> {
    /// The arena this buffer borrows.
    pub arena: &'arena mut HeadArena<'buf>,
}

impl<'arena, 'buf> TempBuffer<'arena, 'buf> {
    /// The free bytes of the borrowed arena, as they are now.
    pub open spec fn free(&self) -> Seq<u8> {
        (*self.arena)@
    }

    fn new_uninitialized(arena: &'arena mut HeadArena<'buf>) -> (r: Self)
        ensures
            *r.arena == *old(arena),
            *final(arena) == *final(r.arena),
    {
        Self { arena }
    }

    /// Returns the length of free arena.
    pub fn len(&self) -> (r: usize)
        ensures
            r == self.free().len(),
    {
        self.arena.len()
    }

    /// Returns true if the arena is empty.
    pub fn is_empty(&self) -> (r: bool)
        ensures
            r == (self.free().len() == 0),
    {
        self.len() == 0
    }

    /// Borrows all available arena space as an immutable slice.
    pub fn as_slice(&self) -> (r: &[u8])
        ensures
            r@ == self.free(),
    {
        self.arena.arena
    }

    /// Borrows all available arena space as a mutable slice.
    pub fn as_slice_mut(&mut self) -> (r: &mut [u8])
        ensures
            r@ == old(self).free(),
            final(self).free() == final(r)@,
            final((*final(self).arena).arena)@ == final((*old(self).arena).arena)@,
            *final(final(self).arena) == *final(old(self).arena),
    {
        self.arena.arena
    }

    /// Takes the first `n` bytes of the arena and returns them; the arena
    /// keeps the rest.  The memory ends up holding what is written into the
    /// part taken, followed by what is written into the rest.
    pub fn accuire_front_mut(self, n: usize) -> (used: &'buf mut [u8])
        requires
            n <= self.free().len(),
        ensures
            used@ == self.free().subrange(0, n as int),
            (*final(self.arena))@ == self.free().subrange(n as int, self.free().len() as int),
            final((*old(self.arena)).arena)@ == final(used)@ + final((*final(self.arena)).arena)@,
    {
        self.arena.take_front_mut(n)
    }
}

/// Taking from the front of an arena twice and then taking what remains
/// hands out the arena's bytes in order, each exactly once.
pub proof fn lemma_take_fronts_partition(before: Seq<u8>, first: int, second: int)
    requires
        0 <= first,
        0 <= second,
        first + second <= before.len(),
    ensures
        ({
            let rest = before.subrange(first, before.len() as int);
            before.subrange(0, first) + rest.subrange(0, second) + rest.subrange(
                second,
                rest.len() as int,
            ) == before
        }),
{
    let rest = before.subrange(first, before.len() as int);
    assert(before.subrange(0, first) + rest.subrange(0, second) + rest.subrange(
        second,
        rest.len() as int,
    ) =~= before);
}

} // verus!
