//! In-memory streams for testing stream consumers: one over a single buffer
//! and one over several buffers read one after another.
use vstd::prelude::*;

use crate::find_sequence::min_int;
use crate::read_stream_ext::IntoHttpError;

verus! {

/// Error of the in-memory streams.
#[derive(PartialEq, Eq, Clone, Copy, Debug, Structural)]
pub enum DummyReadError {
    /// The connection was reset: nothing is left to read.
    ConnectionReset,
}

/// End of the data of an in-memory stream.
#[derive(PartialEq, Eq, Clone, Copy, Debug, Structural)]
pub struct EOF;

impl IntoHttpError for EOF {}

/// A stream over one buffer.
pub struct DummyReadStream {
    buffer: Vec<u8>,
    position: usize,
}

impl DummyReadStream {
    #[verifier::type_invariant]
    spec fn inv(self) -> bool {
        self.position <= self.buffer@.len()
    }

    /// All the bytes of the stream.
    pub closed spec fn data(self) -> Seq<u8> {
        self.buffer@
    }

    /// Number of bytes already read.
    pub closed spec fn position(self) -> int {
        self.position as int
    }

    /// A stream over `buffer`, at its start.
    pub fn new(buffer: Vec<u8>) -> (r: Self)
        ensures
            r.data() == buffer@,
            r.position() == 0,
    {
        DummyReadStream { buffer, position: 0 }
    }

    /// Number of bytes already read.
    pub fn position_of(&self) -> (r: usize)
        ensures
            r == self.position(),
    {
        self.position
    }

    /// Copies the next bytes into `buf`, as many as fit and are left, and
    /// returns their number; 0 at the end of the data or for an empty `buf`.
    pub fn read(&mut self, buf: &mut [u8]) -> (n: usize)
        ensures
            n == min_int(old(buf)@.len() as int, old(self).data().len() - old(self).position()),
            final(self).data() == old(self).data(),
            final(self).position() == old(self).position() + n,
            final(buf)@ == old(self).data().subrange(
                old(self).position(),
                old(self).position() + n,
            ) + old(buf)@.skip(n as int),
    {
        proof {
            use_type_invariant(&*self);
        }
        let left = self.buffer.len() - self.position;
        let n = if buf.len() < left {
            buf.len()
        } else {
            left
        };
        let ghost b0 = buf@;
        let mut i: usize = 0;
        while i < n
            invariant
                i <= n,
                n <= buf.len(),
                self.position + n <= self.buffer@.len(),
                self.buffer@.len() <= usize::MAX,
                buf@.len() == b0.len(),
                forall|j: int| 0 <= j < i ==> buf@[j] == self.buffer@[self.position + j],
                forall|j: int| i <= j < buf@.len() ==> buf@[j] == b0[j],
            decreases n - i,
        {
            buf[i] = self.buffer[self.position + i];
            i = i + 1;
        }
        assert(buf@ =~= self.buffer@.subrange(self.position as int, self.position + n) + b0.skip(
            n as int,
        ));
        self.position = self.position + n;
        n
    }

    /// The bytes not yet read; `ConnectionReset` when none are left.
    pub fn pending(&self) -> (r: Result<&[u8], DummyReadError>)
        ensures
            self.position() >= self.data().len() ==> r matches Err(DummyReadError::ConnectionReset),
            self.position() < self.data().len() ==> (r matches Ok(s) && s@ == self.data().skip(
                self.position(),
            )),
    {
        proof {
            use_type_invariant(self);
        }
        if self.position >= self.buffer.len() {
            return Err(DummyReadError::ConnectionReset);
        }
        let s = vstd::slice::slice_subrange(self.buffer.as_slice(), self.position, self.buffer.len());
        assert(s@ =~= self.buffer@.skip(self.position as int));
        Ok(s)
    }

    /// Marks the next `n` pending bytes as read.
    pub fn consume(&mut self, n: usize)
        requires
            n <= old(self).data().len() - old(self).position(),
        ensures
            final(self).data() == old(self).data(),
            final(self).position() == old(self).position() + n,
    {
        proof {
            use_type_invariant(&*self);
        }
        let len = self.buffer.len();
        assert(self.position + n <= len);
        self.position = self.position + n;
    }
}

/// A stream over several buffers, read one after another.
pub struct DummyMultipartReadStream {
    multipart_buffer: Vec<Vec<u8>>,
    part: usize,
    position: usize,
}

/// The parts of a list of buffers.
pub open spec fn parts_of(v: Seq<Vec<u8>>) -> Seq<Seq<u8>> {
    Seq::new(v.len(), |i: int| v[i]@)
}

impl DummyMultipartReadStream {
    #[verifier::type_invariant]
    spec fn inv(self) -> bool {
        self.part < self.multipart_buffer@.len() ==> self.position
            <= self.multipart_buffer@[self.part as int]@.len()
    }

    /// The parts of the stream.
    pub closed spec fn parts(self) -> Seq<Seq<u8>> {
        parts_of(self.multipart_buffer@)
    }

    /// The part being read.
    pub closed spec fn part(self) -> int {
        self.part as int
    }

    /// Number of bytes already read from the current part.
    pub closed spec fn position(self) -> int {
        self.position as int
    }

    /// A stream over copies of the given parts, at the start of the first.
    pub fn new(multipart_buffer: &Vec<Vec<u8>>) -> (r: Self)
        ensures
            r.parts() == parts_of(multipart_buffer@),
            r.part() == 0,
            r.position() == 0,
    {
        let mut copy: Vec<Vec<u8>> = Vec::new();
        let mut i: usize = 0;
        while i < multipart_buffer.len()
            invariant
                i <= multipart_buffer@.len(),
                copy@.len() == i,
                forall|j: int| 0 <= j < i ==> copy@[j]@ == multipart_buffer@[j]@,
            decreases multipart_buffer@.len() - i,
        {
            let part = vstd::slice::slice_to_vec(multipart_buffer[i].as_slice());
            copy.push(part);
            i = i + 1;
        }
        assert(parts_of(copy@) =~= parts_of(multipart_buffer@));
        DummyMultipartReadStream { multipart_buffer: copy, part: 0, position: 0 }
    }

    /// The bytes not yet read of the current part, moving on to the next
    /// part when the current one is used up; `ConnectionReset` when no part
    /// is left.
    pub fn pending(&mut self) -> (r: Result<&[u8], DummyReadError>)
        ensures
            final(self).parts() == old(self).parts(),
            old(self).part() >= old(self).parts().len() ==> (r matches Err(
                DummyReadError::ConnectionReset,
            ) && final(self).part() == old(self).part() && final(self).position()
                == old(self).position()),
            old(self).part() < old(self).parts().len() ==> {
                let used_up = old(self).position() >= old(self).parts()[old(self).part()].len();
                let (p, q) = if used_up {
                    (old(self).part() + 1, 0int)
                } else {
                    (old(self).part(), old(self).position())
                };
                &&& final(self).part() == p
                &&& final(self).position() == q
                &&& p >= old(self).parts().len() ==> (r matches Err(DummyReadError::ConnectionReset))
                &&& p < old(self).parts().len() ==> (r matches Ok(s) && s@ == old(self).parts()[p].skip(q))
            },
    {
        proof {
            use_type_invariant(&*self);
        }
        if self.part >= self.multipart_buffer.len() {
            return Err(DummyReadError::ConnectionReset);
        }
        if self.position >= self.multipart_buffer[self.part].len() {
            self.position = 0;
            self.part = self.part + 1;
            if self.part >= self.multipart_buffer.len() {
                return Err(DummyReadError::ConnectionReset);
            }
        }
        let cur = self.multipart_buffer[self.part].as_slice();
        let s = vstd::slice::slice_subrange(cur, self.position, cur.len());
        assert(s@ =~= self.multipart_buffer@[self.part as int]@.skip(self.position as int));
        Ok(s)
    }

    /// Marks the next `n` bytes of the current part as read.
    pub fn consume(&mut self, n: usize)
        requires
            old(self).part() < old(self).parts().len(),
            n <= old(self).parts()[old(self).part()].len() - old(self).position(),
        ensures
            final(self).parts() == old(self).parts(),
            final(self).part() == old(self).part(),
            final(self).position() == old(self).position() + n,
    {
        proof {
            use_type_invariant(&*self);
        }
        let len = self.multipart_buffer[self.part].len();
        assert(self.position + n <= len);
        self.position = self.position + n;
    }

    /// Copies the next bytes of the current part into `buf`, as many as fit
    /// and are left in the part, and returns their number, moving on to the
    /// next part when this one is used up; 0 for an empty `buf` or when no
    /// part is left.
    pub fn read(&mut self, buf: &mut [u8]) -> (n: usize)
        ensures
            final(self).parts() == old(self).parts(),
            old(buf)@.len() == 0 || old(self).part() >= old(self).parts().len() ==> n == 0
                && final(self).part() == old(self).part() && final(self).position()
                == old(self).position() && final(buf)@ == old(buf)@,
            old(buf)@.len() > 0 && old(self).part() < old(self).parts().len() ==> {
                let cur = old(self).parts()[old(self).part()];
                let pos = old(self).position();
                &&& n == min_int(old(buf)@.len() as int, cur.len() - pos)
                &&& final(buf)@ == cur.subrange(pos, pos + n) + old(buf)@.skip(n as int)
                &&& if pos + n >= cur.len() {
                    final(self).part() == old(self).part() + 1 && final(self).position() == 0
                } else {
                    final(self).part() == old(self).part() && final(self).position() == pos + n
                }
            },
    {
        proof {
            use_type_invariant(&*self);
        }
        if buf.len() == 0 || self.part >= self.multipart_buffer.len() {
            return 0;
        }
        let cur = self.multipart_buffer[self.part].as_slice();
        let left = cur.len() - self.position;
        let n = if buf.len() < left {
            buf.len()
        } else {
            left
        };
        let ghost b0 = buf@;
        let mut i: usize = 0;
        while i < n
            invariant
                i <= n,
                n <= buf.len(),
                self.position + n <= cur@.len(),
                cur@.len() <= usize::MAX,
                buf@.len() == b0.len(),
                forall|j: int| 0 <= j < i ==> buf@[j] == cur@[self.position + j],
                forall|j: int| i <= j < buf@.len() ==> buf@[j] == b0[j],
            decreases n - i,
        {
            buf[i] = cur[self.position + i];
            i = i + 1;
        }
        assert(buf@ =~= cur@.subrange(self.position as int, self.position + n) + b0.skip(n as int));
        if self.position + n >= cur.len() {
            self.position = 0;
            self.part = self.part + 1;
        } else {
            self.position = self.position + n;
        }
        n
    }
}

} // verus!
