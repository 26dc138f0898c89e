//! A growable byte buffer that lives in the free space of a [`HeadArena`].
use vstd::prelude::*;

use crate::head_arena::{HeadArena, TempBuffer};

verus! {

/// A bounded byte buffer over the free space of an arena: bytes are appended at
/// the front of that space, and the used part can finally be taken out of the
/// arena.
pub struct BorrowedBuffer<'arena, 'buf> {
    /// The arena space this buffer writes into.
    pub inner: TempBuffer<'arena, 'buf>,
    /// Number of bytes appended so far.
    pub used: usize,
}

impl<'arena, 'buf> BorrowedBuffer<'arena, 'buf> {
    /// The bytes appended so far.
    pub open spec fn contents(&self) -> Seq<u8> {
        self.inner.free().subrange(0, self.used as int)
    }

    /// Number of bytes appended so far.
    pub open spec fn used(&self) -> int {
        self.used as int
    }

    /// How many bytes the buffer can hold.
    pub open spec fn spec_capacity(&self) -> int {
        self.inner.free().len() as int
    }

    /// The used part fits in the arena space.
    pub open spec fn wf(&self) -> bool {
        0 <= self.used() <= self.spec_capacity() && self.contents().len() == self.used()
    }

    proof fn lemma_contents(&self)
        requires
            self.used <= self.inner.free().len(),
        ensures
            self.wf(),
    {
    }

    /// Create a new empty buffer over the whole free space of `allocator`.
    pub fn new(allocator: &'arena mut HeadArena<'buf>) -> (r: Self)
        ensures
            r.wf(),
            r.contents() == Seq::<u8>::empty(),
            *r.inner.arena == *old(allocator),
            *final(allocator) == *final(r.inner.arena),
    {
        let r = Self { inner: allocator.temporary(), used: 0 };
        assert(r.contents() =~= Seq::<u8>::empty());
        r
    }

    /// Push a byte into the buffer.
    ///
    /// Returns `Ok(())` on success, `Err(())` if the buffer is full (then nothing changes).
    pub fn push(&mut self, byte: u8) -> (r: Result<(), ()>)
        requires
            old(self).wf(),
        ensures
            *final(final(self).inner.arena) == *final(old(self).inner.arena),
            final((*final(self).inner.arena).arena)@ == final((*old(self).inner.arena).arena)@,
            final(self).wf(),
            final(self).spec_capacity() == old(self).spec_capacity(),
            r is Ok <==> old(self).used() < old(self).spec_capacity(),
            r is Ok ==> final(self).contents() == old(self).contents().push(byte),
            r is Ok ==> final(self).inner.free() == old(self).inner.free().update(old(self).used(), byte),
            r is Err ==> final(self).inner.free() == old(self).inner.free() && final(self).used() == old(self).used(),
    {
        if self.used >= self.inner.len() {
            return Err(());
        }
        let ghost before = self.inner.free();
        let s = self.inner.as_slice_mut();
        s[self.used] = byte;
        proof {
            self.lemma_contents();
        }
        self.used = self.used + 1;
        proof {
            self.lemma_contents();
        }
        assert(self.contents() =~= old(self).contents().push(byte));
        Ok(())
    }

    /// Append a whole slice, or nothing if it does not fit.
    ///
    /// Returns `Ok(())` on success, `Err(())` if there is not enough capacity.
    pub fn append_from_slice(&mut self, slice: &[u8]) -> (r: Result<(), ()>)
        requires
            old(self).wf(),
        ensures
            *final(final(self).inner.arena) == *final(old(self).inner.arena),
            final((*final(self).inner.arena).arena)@ == final((*old(self).inner.arena).arena)@,
            final(self).wf(),
            final(self).spec_capacity() == old(self).spec_capacity(),
            r is Ok <==> old(self).used() + slice@.len() <= old(self).spec_capacity(),
            r is Ok ==> final(self).contents() == old(self).contents() + slice@,
            r is Err ==> final(self).inner.free() == old(self).inner.free() && final(self).used() == old(self).used(),
    {
        if slice.len() > self.inner.len() - self.used {
            return Err(());
        }
        let n = self.copy_in(slice, slice.len());
        Ok(())
    }

    /// Append as much of `slice` as fits, returning the number of bytes appended.
    pub fn try_append_from_slice(&mut self, slice: &[u8]) -> (n: usize)
        requires
            old(self).wf(),
        ensures
            *final(final(self).inner.arena) == *final(old(self).inner.arena),
            final((*final(self).inner.arena).arena)@ == final((*old(self).inner.arena).arena)@,
            final(self).wf(),
            final(self).spec_capacity() == old(self).spec_capacity(),
            n == if slice@.len() <= old(self).spec_capacity() - old(self).used() {
                slice@.len() as int
            } else {
                old(self).spec_capacity() - old(self).used()
            },
            final(self).contents() == old(self).contents() + slice@.subrange(0, n as int),
    {
        let remaining = self.remaining_capacity();
        let to_fill = if remaining < slice.len() { remaining } else { slice.len() };
        self.copy_in(slice, to_fill)
    }

    /// Copies `slice[..n]` behind the used bytes.
    fn copy_in(&mut self, slice: &[u8], n: usize) -> (r: usize)
        requires
            old(self).wf(),
            n <= slice@.len(),
            old(self).used() + n <= old(self).spec_capacity(),
        ensures
            *final(final(self).inner.arena) == *final(old(self).inner.arena),
            final((*final(self).inner.arena).arena)@ == final((*old(self).inner.arena).arena)@,
            r == n,
            final(self).wf(),
            final(self).spec_capacity() == old(self).spec_capacity(),
            final(self).used() == old(self).used() + n,
            final(self).contents() == old(self).contents() + slice@.subrange(0, n as int),
    {
        let start = self.used;
        let ghost orig = self.inner.free();
        let s = self.inner.as_slice_mut();
        let cap = s.len();
        let mut i: usize = 0;
        while i < n
            invariant
                cap == s@.len(),
                i <= n,
                n <= slice@.len(),
                start + n <= orig.len(),
                s@.len() == orig.len(),
                forall|j: int| 0 <= j < start ==> s@[j] == orig[j],
                forall|j: int| 0 <= j < i ==> s@[start + j] == slice@[j],
            decreases n - i,
        {
            s[start + i] = slice[i];
            i = i + 1;
        }
        self.used = start + n;
        proof {
            self.lemma_contents();
        }
        assert(self.contents() =~= old(self).contents() + slice@.subrange(0, n as int));
        n
    }

    /// Get the used portion as a slice
    pub fn as_slice(&self) -> (r: &[u8])
        requires
            self.wf(),
        ensures
            r@ == self.contents(),
    {
        vstd::slice::slice_subrange(self.inner.as_slice(), 0, self.used)
    }

    /// Get the used portion as a mutable slice.  The buffer's contents are
    /// what the slice holds when the borrow ends.
    pub fn as_mut_slice(&mut self) -> (r: &mut [u8])
        requires
            old(self).wf(),
        ensures
            *final(final(self).inner.arena) == *final(old(self).inner.arena),
            final((*final(self).inner.arena).arena)@ == final((*old(self).inner.arena).arena)@,
            r@ == old(self).contents(),
            final(self).used == old(self).used,
            final(self).inner.free() == final(r)@ + old(self).inner.free().subrange(
                old(self).used(),
                old(self).spec_capacity(),
            ),
    {
        let used = self.used;
        let whole = self.inner.as_slice_mut();
        let (head, _tail) = whole.split_at_mut(used);
        head
    }

    /// Get the length of the used portion.
    pub fn len(&self) -> (r: usize)
        ensures
            r == self.used(),
    {
        self.used
    }

    /// Get the total capacity of the buffer
    pub fn capacity(&self) -> (r: usize)
        ensures
            r == self.spec_capacity(),
    {
        self.inner.len()
    }

    /// Get the number of bytes that can still be appended.
    pub fn remaining_capacity(&self) -> (r: usize)
        requires
            self.wf(),
        ensures
            r == self.spec_capacity() - self.used(),
    {
        self.inner.len() - self.used
    }

    /// Clear the buffer
    pub fn clear(&mut self)
        ensures
            *final(final(self).inner.arena) == *final(old(self).inner.arena),
            final((*final(self).inner.arena).arena)@ == final((*old(self).inner.arena).arena)@,
            final(self).wf(),
            final(self).contents() == Seq::<u8>::empty(),
            final(self).inner.free() == old(self).inner.free(),
    {
        self.used = 0;
        assert(self.contents() =~= Seq::<u8>::empty());
    }

    /// Take the used portion out of the arena, consuming self; the arena keeps
    /// the space behind it.  The memory ends up holding what is written into
    /// the used portion, followed by what is written into the arena's rest.
    pub fn take_used(self) -> (r: &'buf mut [u8])
        requires
            self.wf(),
        ensures
            r@ == self.contents(),
            (*final(self.inner.arena))@ == self.inner.free().subrange(
                self.used(),
                self.spec_capacity(),
            ),
            final((*old(self.inner.arena)).arena)@
                == final(r)@ + final((*final(self.inner.arena)).arena)@,
    {
        self.inner.accuire_front_mut(self.used)
    }
}

} // verus!
