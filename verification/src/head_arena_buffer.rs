//! A bump allocator over a borrowed buffer, with a temporary view that tracks
//! how much of the free space has been initialized.
use vstd::prelude::*;

verus! {

/// A simple bump allocator that allows detaching front portions of a buffer.
///
/// Its view is the sequence of bytes that are still free.  The portions it
/// hands out and its free space are parts of the memory it was made over:
/// what is written into them is what that memory holds once they are gone.
pub struct HeadArenaBuffer<'a> {
    /// The free space.
    pub arena: &'a mut [u8],
}

impl<'a> View for HeadArenaBuffer<'a> {
    type V = Seq<u8>;

    open spec fn view(&self) -> Seq<u8> {
        self.arena@
    }
}

impl<'a> HeadArenaBuffer<'a> {
    /// Creates an arena over the given bytes.
    pub fn new(arena: &'a mut [u8]) -> (r: Self)
        ensures
            r@ == old(arena)@,
            final(arena)@ == final(r.arena)@,
    {
        Self::from_uninitialized(arena)
    }

    /// Creates an arena over the given space, whose contents are not meant to be read
    /// before they are written.
    pub fn from_uninitialized(arena: &'a mut [u8]) -> (r: Self)
        ensures
            r@ == old(arena)@,
            final(arena)@ == final(r.arena)@,
    {
        Self { arena }
    }

    /// Returns the length of free arena.
    pub fn len(&self) -> (r: usize)
        ensures
            r == self@.len(),
    {
        self.arena.len()
    }

    /// Returns true if the arena is empty.
    pub fn is_empty(&self) -> (r: bool)
        ensures
            r == (self@.len() == 0),
    {
        self.len() == 0
    }

    /// Returns a slice to the entire free space.
    pub fn as_slice(&self) -> (r: &[u8])
        ensures
            r@ == self@,
    {
        self.arena
    }

    /// Borrows the free space as a mutable slice.
    pub fn borrow_mut_slice(&mut self) -> (r: &mut [u8])
        ensures
            r@ == old(self)@,
            final(self)@ == final(r)@,
            final(final(self).arena)@ == final(old(self).arena)@,
    {
        self.arena
    }

    /// Takes the first `n` bytes of the arena and returns them; the arena
    /// keeps the rest.  The memory ends up holding what is written into the
    /// part taken, followed by what is written into the rest.
    pub fn take_front_mut(&mut self, n: usize) -> (used: &'a mut [u8])
        requires
            n <= old(self)@.len(),
        ensures
            used@ == old(self)@.subrange(0, n as int),
            final(self)@ == old(self)@.subrange(n as int, old(self)@.len() as int),
            final(old(self).arena)@ == final(used)@ + final(final(self).arena)@,
    {
        let mut whole: &'a mut [u8] = &mut [];
        core::mem::swap(&mut self.arena, &mut whole);
        let (used, rest) = whole.split_at_mut(n);
        self.arena = rest;
        used
    }

    /// An arena over the same free space that hands out bytes from its front
    /// without using them up here: once it is gone, this arena still holds
    /// all of them, with whatever was written into them.
    pub fn nested(&mut self) -> (r: NestedArena<'_, 'a>)
        ensures
            r.offset == 0,
            *r.parent == *old(self),
            *final(self) == *final(r.parent),
    {
        NestedArena { parent: self, offset: 0 }
    }

    /// Takes the first `n` bytes of the arena as an arena of their own; this
    /// arena goes on with the rest and never hands those bytes out again.
    /// What is written through the subarena lands in those bytes of the
    /// memory.
    pub fn subarena<'b>(&'b mut self, n: usize) -> (sub: HeadArenaBuffer<'b>)
        requires
            n <= old(self)@.len(),
        ensures
            sub@ == old(self)@.subrange(0, n as int),
            final(self)@ == old(self)@.subrange(n as int, old(self)@.len() as int),
            final(old(self).arena)@ == final(sub.arena)@ + final(final(self).arena)@,
    {
        let buffer = self.take_front_mut(n);
        HeadArenaBuffer::from_uninitialized(buffer)
    }

    /// Takes the remaining arena space, consuming the arena.
    pub fn take_remaining_mut(self) -> (r: &'a mut [u8])
        ensures
            r@ == self@,
            final(r)@ == final(self.arena)@,
    {
        self.arena
    }
}

impl<'a> From<&'a mut [u8]> for HeadArenaBuffer<'a> {
    fn from(buffer: &'a mut [u8]) -> (r: Self)
        ensures
            r@ == old(buffer)@,
            final(buffer)@ == final(r.arena)@,
    {
        Self { arena: buffer }
    }
}

impl<'a> vstd::std_specs::convert::FromSpecImpl<&'a mut [u8]> for HeadArenaBuffer<'a> {
    /// `from` is described by its own contract, over the view and the
    /// memory's final contents.
    open spec fn obeys_from_spec() -> bool {
        false
    }

    open spec fn from_spec(v: &'a mut [u8]) -> Self {
        HeadArenaBuffer { arena: v }
    }
}

impl<'a, const N: usize> From<&'a mut [u8; N]> for HeadArenaBuffer<'a> {
    fn from(buffer: &'a mut [u8; N]) -> (r: Self)
        ensures
            r@ == old(buffer)@,
            final(buffer)@ == final(r.arena)@,
    {
        Self { arena: buffer }
    }
}

impl<'a, const N: usize> vstd::std_specs::convert::FromSpecImpl<&'a mut [u8; N]> for HeadArenaBuffer<'a> {
    /// `from` is described by its own contract, over the view and the
    /// memory's final contents.
    open spec fn obeys_from_spec() -> bool {
        false
    }

    open spec fn from_spec(v: &'a mut [u8; N]) -> Self {
        choose|b: HeadArenaBuffer<'a>| b@ == v@
    }
}

/// An arena nested in the free space of another: bytes taken from its
/// front stay in the parent.
pub struct NestedArena<'p, 'a> {
    /// The arena whose free space this one borrows.
    pub parent: &'p mut HeadArenaBuffer<'a>,
    /// How many bytes of that space have been handed out.
    pub offset: usize,
}

impl<'p, 'a> NestedArena<'p, 'a> {
    /// The free bytes of this arena.
    pub open spec fn free(&self) -> Seq<u8> {
        (*self.parent)@.subrange(self.offset as int, (*self.parent)@.len() as int)
    }

    /// What has been handed out lies within the parent's space.
    pub open spec fn wf(&self) -> bool {
        self.offset <= (*self.parent)@.len()
    }

    /// Number of free bytes.
    pub fn len(&self) -> (r: usize)
        requires
            self.wf(),
        ensures
            r == self.free().len(),
    {
        self.parent.len() - self.offset
    }

    /// Whether no byte is free.
    pub fn is_empty(&self) -> (r: bool)
        requires
            self.wf(),
        ensures
            r == (self.free().len() == 0),
    {
        self.len() == 0
    }

    /// The free bytes.
    pub fn as_slice(&self) -> (r: &[u8])
        requires
            self.wf(),
        ensures
            r@ == self.free(),
    {
        let all = self.parent.as_slice();
        vstd::slice::slice_subrange(all, self.offset, all.len())
    }

    /// Hands out the first `n` free bytes, for writing; the parent keeps
    /// them, holding what is written into them.
    pub fn take_front_mut(&mut self, n: usize) -> (r: &mut [u8])
        requires
            old(self).wf(),
            n <= old(self).free().len(),
        ensures
            r@ == old(self).free().subrange(0, n as int),
            final(self).offset == old(self).offset + n,
            (*final(self).parent)@ == (*old(self).parent)@.subrange(0, old(self).offset as int)
                + final(r)@ + (*old(self).parent)@.subrange(
                old(self).offset + n,
                (*old(self).parent)@.len() as int,
            ),
            *final(final(self).parent) == *final(old(self).parent),
            final((*final(self).parent).arena)@ == final((*old(self).parent).arena)@,
    {
        let start = self.offset;
        let len = self.parent.len();
        assert(start + n <= len);
        self.offset = start + n;
        let all = self.parent.borrow_mut_slice();
        let (_head, rest) = all.split_at_mut(start);
        let (chunk, _tail) = rest.split_at_mut(n);
        chunk
    }
}


/// State marker for a [`TempBuffer`] whose space has not been initialized.
pub struct Uninitialized;

/// State marker for a [`TempBuffer`] whose first bytes have been initialized.
pub struct Initialized {
    size: usize,
}

impl Initialized {
    /// Number of initialized bytes at the front of the space.
    pub closed spec fn size(&self) -> int {
        self.size as int
    }
}

/// How many front bytes a predicate that reports `n` bytes gets: `n`, within
/// the space `space` that it leaves behind.
pub open spec fn taken_len(n: usize, space: Seq<u8>) -> int {
    if n <= space.len() {
        n as int
    } else {
        space.len() as int
    }
}

/// A temporary buffer over the free space of a [`HeadArenaBuffer`] that can be
/// initialized and then used to acquire a portion from the front.
pub struct TempBuffer<'arena, 'a, State> {
    /// The arena this buffer borrows.
    pub arena: &'arena mut HeadArenaBuffer<'a>,
    /// Initialization state.
    pub state: State,
}

impl<'arena, 'a, State> TempBuffer<'arena, 'a, State> {
    /// The free bytes of the borrowed arena, as they are now.
    pub open spec fn free(&self) -> Seq<u8> {
        (*self.arena)@
    }
}

impl<'arena, 'a> TempBuffer<'arena, 'a, Uninitialized> {
    /// Creates a temporary buffer over all free space of `arena`.
    pub fn new_uninitialized(arena: &'arena mut HeadArenaBuffer<'a>) -> (r: Self)
        ensures
            *r.arena == *old(arena),
            *final(arena) == *final(r.arena),
    {
        Self { arena, state: Uninitialized }
    }

    /// Writes zeros over the whole space and marks all of it initialized.
    pub fn initialize_with_zero_all(self) -> (r: TempBuffer<'arena, 'a, Initialized>)
        ensures
            r.state.size() == self.free().len(),
            r.free() == Seq::new(self.free().len(), |i: int| 0u8),
            *final(self.arena) == *final(r.arena),
            final((*r.arena).arena)@ == final((*old(self.arena)).arena)@,
    {
        let ghost f0 = self.free();
        let size = self.arena.len();
        let r = self.initialize_with_zero(size);
        assert(r.free() =~= Seq::new(f0.len(), |i: int| 0u8));
        r
    }

    /// Writes zeros over the first `size` bytes of the space and marks them
    /// initialized.
    pub fn initialize_with_zero(self, size: usize) -> (r: TempBuffer<'arena, 'a, Initialized>)
        requires
            size <= self.free().len(),
        ensures
            r.state.size() == size,
            r.free() == Seq::new(size as nat, |i: int| 0u8) + self.free().subrange(
                size as int,
                self.free().len() as int,
            ),
            *final(self.arena) == *final(r.arena),
            final((*r.arena).arena)@ == final((*old(self.arena)).arena)@,
    {
        let ghost f0 = self.free();
        let s = self.arena.borrow_mut_slice();
        let mut i: usize = 0;
        while i < size
            invariant
                size <= s@.len(),
                s@.len() == f0.len(),
                i <= size,
                forall|j: int| 0 <= j < i ==> s@[j] == 0u8,
                forall|j: int| i <= j < s@.len() ==> s@[j] == f0[j],
            decreases size - i,
        {
            s[i] = 0;
            i = i + 1;
        }
        let r = TempBuffer { arena: self.arena, state: Initialized { size } };
        assert(r.free() =~= Seq::new(size as nat, |i: int| 0u8) + f0.subrange(
            size as int,
            f0.len() as int,
        ));
        r
    }

    /// Lets `predicate` write into the space, and marks as initialized the
    /// number of front bytes that it returns.
    pub fn initialize<P>(self, predicate: P) -> (r: TempBuffer<'arena, 'a, Initialized>) where
        P: FnOnce(&mut [u8]) -> usize,

        requires
            forall|s: &mut [u8]| call_requires(predicate, (s,)),
            forall|s: &mut [u8], n: usize|
                call_ensures(predicate, (s,), n) ==> n <= s@.len(),
        ensures
            r.state.size() <= r.free().len(),
            exists|s: &mut [u8], n: usize|
                {
                    &&& s@ == self.free()
                    &&& call_ensures(predicate, (s,), n)
                    &&& r.free() == final(s)@
                    &&& r.state.size() == taken_len(n, final(s)@)
                },
            *final(self.arena) == *final(r.arena),
            final((*r.arena).arena)@ == final((*old(self.arena)).arena)@,
    {
        let ghost before = self.free();
        let s = self.arena.borrow_mut_slice();
        let n = predicate(s);
        let ghost after = s@;
        assert(exists|x: &mut [u8]|
            x@ == before && call_ensures(predicate, (x,), n) && final(x)@ == after);
        // The predicate cannot change the length of the space it was handed,
        // so `n` is within it; the bound is kept explicit here.
        let len = self.arena.len();
        assert(self.free() == after);
        let size = if n <= len { n } else { len };
        let r = TempBuffer { arena: self.arena, state: Initialized { size } };
        proof {
            let x = choose|x: &mut [u8]|
                x@ == before && call_ensures(predicate, (x,), n) && final(x)@ == after;
            assert(taken_len(n, final(x)@) == size);
        }
        r
    }

    /// Borrows all available arena space as an immutable slice.
    pub fn as_slice(&self) -> (r: &[u8])
        ensures
            r@ == self.free(),
    {
        self.arena.as_slice()
    }

    /// Borrows all available arena space as a mutable slice.
    pub fn as_slice_mut(&mut self) -> (r: &mut [u8])
        ensures
            r@ == old(self).free(),
            final(self).free() == final(r)@,
            *final(final(self).arena) == *final(old(self).arena),
            final((*final(self).arena).arena)@ == final((*old(self).arena).arena)@,
    {
        self.arena.borrow_mut_slice()
    }

    /// Takes the first `n` bytes of the space and returns them; the arena
    /// keeps the rest.
    pub fn accuire_mut(self, n: usize) -> (used: &'a mut [u8])
        requires
            n <= self.free().len(),
        ensures
            used@ == self.free().subrange(0, n as int),
            (*final(self.arena))@ == self.free().subrange(n as int, self.free().len() as int),
            final((*old(self.arena)).arena)@ == final(used)@ + final((*final(self.arena)).arena)@,
    {
        self.arena.take_front_mut(n)
    }

    /// Lets `predicate` write into the space and takes as many front bytes as
    /// it returns; the arena keeps the rest.
    pub fn accuire_mut_with_init<P>(self, predicate: P) -> (used: &'a mut [u8]) where
        P: FnOnce(&mut [u8]) -> usize,

        requires
            forall|s: &mut [u8]| call_requires(predicate, (s,)),
            forall|s: &mut [u8], n: usize|
                call_ensures(predicate, (s,), n) ==> n <= s@.len(),
        ensures
            exists|s: &mut [u8], n: usize|
                {
                    &&& s@ == self.free()
                    &&& call_ensures(predicate, (s,), n)
                    &&& used@ == final(s)@.subrange(0, taken_len(n, final(s)@))
                    &&& (*final(self.arena))@ == final(s)@.subrange(
                        taken_len(n, final(s)@),
                        final(s)@.len() as int,
                    )
                },
            final((*old(self.arena)).arena)@ == final(used)@ + final((*final(self.arena)).arena)@,
    {
        let ghost before = self.free();
        let s = self.arena.borrow_mut_slice();
        let n = predicate(s);
        let ghost after = s@;
        assert(exists|x: &mut [u8]|
            x@ == before && call_ensures(predicate, (x,), n) && final(x)@ == after);
        // The predicate cannot change the length of the space it was handed,
        // so `n` is within it; the bound is kept explicit here.
        let len = self.arena.len();
        assert(self.free() == after);
        let size = if n <= len { n } else { len };
        let used = self.arena.take_front_mut(size);
        proof {
            let x = choose|x: &mut [u8]|
                x@ == before && call_ensures(predicate, (x,), n) && final(x)@ == after;
            assert(taken_len(n, final(x)@) == size);
        }
        used
    }
}

impl<'arena, 'a> TempBuffer<'arena, 'a, Initialized> {
    /// The initialized space is no larger than the whole space.
    pub open spec fn wf(&self) -> bool {
        self.state.size() <= self.free().len()
    }

    /// Borrows the initialized space as an immutable slice.
    pub fn as_slice(&self) -> (r: &[u8])
        requires
            self.wf(),
        ensures
            r@ == self.free().subrange(0, self.state.size()),
    {
        vstd::slice::slice_subrange(self.arena.as_slice(), 0, self.state.size)
    }

    /// Takes the first `n` initialized bytes and returns them; the arena keeps
    /// the rest.
    pub fn accuire_mut(self, n: usize) -> (used: &'a mut [u8])
        requires
            self.wf(),
            n <= self.state.size(),
        ensures
            used@ == self.free().subrange(0, n as int),
            (*final(self.arena))@ == self.free().subrange(n as int, self.free().len() as int),
            final((*old(self.arena)).arena)@ == final(used)@ + final((*final(self.arena)).arena)@,
    {
        self.arena.take_front_mut(n)
    }
}

} // verus!
