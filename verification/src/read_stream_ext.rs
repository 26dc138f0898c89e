//! The work that the stream helpers do on each chunk of data a stream lends
//! them: copying bytes into a target buffer until a stop sequence has been
//! read, skipping bytes up to a stop sequence, and appending up to a cut
//! point.  The reading loop itself belongs to whoever owns the stream.
use vstd::prelude::*;

use crate::borrowed_buffer::BorrowedBuffer;
use crate::find_sequence::{find_run, find_step, min_int, FindSequence};

verus! {

/// Error returned by the stream helpers.
#[derive(PartialEq, Eq, Debug)]
pub enum ReadError<SocketReadErrorT> {
    /// The stream failed.
    SocketReadError(SocketReadErrorT),
    /// The target buffer filled up before the stop condition was met.
    TargetBufferOverflow,
}

/// Marks the error types of streams whose errors the HTTP parsers pass on.
pub trait IntoHttpError {}

impl IntoHttpError for () {}

/// Errors of the HTTP-side stream helpers.
#[derive(PartialEq, Eq, Debug)]
pub enum ReadStreamError<E: IntoHttpError> {
    /// Target buffer overflowed while reading
    TargetBufferOverflow,
    /// Error occurred while reading from the stream
    ReadError(E),
}

impl<E: IntoHttpError> From<E> for ReadStreamError<E> {
    fn from(err: E) -> (r: ReadStreamError<E>) {
        ReadStreamError::ReadError(err)
    }
}

impl<E: IntoHttpError> vstd::std_specs::convert::FromSpecImpl<E> for ReadStreamError<E> {
    open spec fn obeys_from_spec() -> bool {
        true
    }

    open spec fn from_spec(v: E) -> ReadStreamError<E> {
        ReadStreamError::ReadError(v)
    }
}

/// Copies bytes of `data` into `buffer[write_size..]`, feeding each to
/// `finder`, until the stop sequence has been read or the buffer or the data
/// runs out.  Returns the number of bytes taken from `data` (the stop
/// sequence included) and whether the stop sequence was read.
pub fn read_till_stop_chunk(
    finder: &mut FindSequence,
    buffer: &mut [u8],
    write_size: usize,
    data: &[u8],
) -> (r: (usize, bool))
    requires
        old(finder).wf(),
        write_size <= old(buffer)@.len(),
    ensures
        final(finder).wf(),
        final(finder).sequence() == old(finder).sequence(),
        ({
            let lim = min_int(old(buffer)@.len() - write_size, data@.len() as int);
            let (n, hit, p) = find_run(old(finder).sequence(), old(finder).position(), data@.subrange(0, lim));
            &&& r.0 == n
            &&& r.1 == hit
            &&& final(finder).position() == p
            &&& final(buffer)@ == old(buffer)@.subrange(0, write_size as int) + data@.subrange(0, n)
                + old(buffer)@.subrange(write_size + n, old(buffer)@.len() as int)
        }),
{
    let blen = buffer.len();
    let room = blen - write_size;
    let to_read = if room < data.len() { room } else { data.len() };
    let ghost s = finder.sequence();
    let ghost p0 = finder.position();
    let ghost orig = buffer@;
    let ghost window = data@.subrange(0, to_read as int);
    let mut i: usize = 0;
    assert(window.subrange(0, to_read as int) =~= window);
    while i < to_read
        invariant
            s == old(finder).sequence(),
            p0 == old(finder).position(),
            orig == old(buffer)@,
            blen == buffer@.len(),
            to_read == min_int(orig.len() - write_size, data@.len() as int),
            i <= to_read,
            to_read <= data@.len(),
            write_size + to_read <= orig.len(),
            buffer@.len() == orig.len(),
            window == data@.subrange(0, to_read as int),
            finder.wf(),
            finder.sequence() == s,
            find_run(s, p0, window) == ({
                let (n, h, q) = find_run(s, finder.position(), window.subrange(i as int, to_read as int));
                (n + i, h, q)
            }),
            buffer@ == orig.subrange(0, write_size as int) + data@.subrange(0, i as int)
                + orig.subrange(write_size + i, orig.len() as int),
        decreases to_read - i,
    {
        let b = data[i];
        let ghost before = finder.position();
        let ghost rest = window.subrange(i as int, to_read as int);
        buffer[write_size + i] = b;
        let found = finder.push_byte(b);
        assert(rest[0] == b);
        assert(rest.subrange(1, rest.len() as int) =~= window.subrange(i + 1, to_read as int));
        assert(buffer@ =~= orig.subrange(0, write_size as int) + data@.subrange(0, i + 1)
            + orig.subrange(write_size + i + 1, orig.len() as int));
        i = i + 1;
        if found {
            assert(find_run(s, before, rest) == (1int, true, finder.position()));
            return (i, true);
        }
    }
    assert(window.subrange(i as int, to_read as int) =~= Seq::<u8>::empty());
    (to_read, false)
}

/// Feeds bytes of `data` to `finder` until the stop sequence has been read.
/// Returns the number of bytes to consume from `data` and whether the
/// consuming must go on with the next chunk (the stop sequence not yet read).
pub fn consume_till_stop_chunk(finder: &mut FindSequence, data: &[u8]) -> (r: (usize, bool))
    requires
        old(finder).wf(),
    ensures
        final(finder).wf(),
        final(finder).sequence() == old(finder).sequence(),
        ({
            let (n, hit, p) = find_run(old(finder).sequence(), old(finder).position(), data@);
            r == (n as usize, !hit) && final(finder).position() == p
        }),
{
    match finder.check_next_slice(data) {
        Some(pos) => (pos, false),
        None => (data.len(), true),
    }
}

/// Copies bytes of `data` into `buffer[write_size..]`, asking `stop` about
/// each copied byte, until `stop` accepts one or the buffer or the data runs
/// out.  Returns the number of bytes taken from `data` (the accepted one
/// included) and whether `stop` accepted a byte.  The predicate belongs to the
/// caller: what is stated is what holds for whatever answers it gives.
pub fn read_till_stop_with_chunk<P: Fn(u8) -> bool>(
    stop: &P,
    buffer: &mut [u8],
    write_size: usize,
    data: &[u8],
) -> (r: (usize, bool))
    requires
        forall|b: u8| call_requires(*stop, (b,)),
        write_size <= old(buffer)@.len(),
    ensures
        ({
            let lim = min_int(old(buffer)@.len() - write_size, data@.len() as int);
            let n = r.0 as int;
            &&& n <= lim
            &&& r.1 ==> 1 <= n && call_ensures(*stop, (data@[n - 1],), true)
            &&& !r.1 ==> n == lim
            &&& forall|i: int|
                0 <= i < (if r.1 {
                    n - 1
                } else {
                    n
                }) ==> call_ensures(*stop, (#[trigger] data@[i],), false)
            &&& final(buffer)@ == old(buffer)@.subrange(0, write_size as int) + data@.subrange(0, n)
                + old(buffer)@.subrange(write_size + n, old(buffer)@.len() as int)
        }),
{
    let room = buffer.len() - write_size;
    let lim = if room < data.len() {
        room
    } else {
        data.len()
    };
    let mut i: usize = 0;
    while i < lim
        invariant
            i <= lim,
            lim == min_int(old(buffer)@.len() - write_size, data@.len() as int),
            write_size <= old(buffer)@.len(),
            buffer@.len() == old(buffer)@.len(),
            buffer.len() == old(buffer)@.len(),
            forall|k: int| 0 <= k < i ==> call_ensures(*stop, (#[trigger] data@[k],), false),
            forall|k: int| 0 <= k < old(buffer)@.len() ==> #[trigger] buffer@[k] == if write_size
                <= k < write_size + i {
                data@[k - write_size]
            } else {
                old(buffer)@[k]
            },
            forall|b: u8| call_requires(*stop, (b,)),
        decreases lim - i,
    {
        let b = data[i];
        buffer[write_size + i] = b;
        i = i + 1;
        if stop(b) {
            assert(buffer@ =~= old(buffer)@.subrange(0, write_size as int) + data@.subrange(
                0,
                i as int,
            ) + old(buffer)@.subrange(write_size + i, old(buffer)@.len() as int));
            return (i, true);
        }
    }
    assert(buffer@ =~= old(buffer)@.subrange(0, write_size as int) + data@.subrange(0, i as int)
        + old(buffer)@.subrange(write_size + i, old(buffer)@.len() as int));
    (i, false)
}

/// Asks `stop` about the bytes of `data` one after the other until it
/// accepts one.  Returns the number of bytes to consume from `data` (the
/// accepted one included) and whether the consuming must go on with the next
/// chunk (no byte accepted).
pub fn consume_till_stop_with_chunk<P: Fn(u8) -> bool>(stop: &P, data: &[u8]) -> (r: (usize, bool))
    requires
        forall|b: u8| call_requires(*stop, (b,)),
    ensures
        ({
            let n = r.0 as int;
            &&& n <= data@.len()
            &&& !r.1 ==> 1 <= n && call_ensures(*stop, (data@[n - 1],), true)
            &&& r.1 ==> n == data@.len()
            &&& forall|i: int|
                0 <= i < (if r.1 {
                    n
                } else {
                    n - 1
                }) ==> call_ensures(*stop, (#[trigger] data@[i],), false)
        }),
{
    let mut i: usize = 0;
    while i < data.len()
        invariant
            i <= data@.len(),
            forall|k: int| 0 <= k < i ==> call_ensures(*stop, (#[trigger] data@[k],), false),
            forall|b: u8| call_requires(*stop, (b,)),
        decreases data@.len() - i,
    {
        let b = data[i];
        i = i + 1;
        if stop(b) {
            return (i, false);
        }
    }
    (i, true)
}

/// The position just past the first `stop_byte` in `chank`, if any.
pub fn position_after(chank: &[u8], stop_byte: u8) -> (r: Option<usize>)
    ensures
        match r {
            Some(n) => 1 <= n <= chank@.len() && chank@[n - 1] == stop_byte && forall|k: int|
                0 <= k < n - 1 ==> chank@[k] != stop_byte,
            None => forall|k: int| 0 <= k < chank@.len() ==> chank@[k] != stop_byte,
        },
{
    let mut i: usize = 0;
    while i < chank.len()
        invariant
            i <= chank@.len(),
            forall|k: int| 0 <= k < i ==> chank@[k] != stop_byte,
        decreases chank@.len() - i,
    {
        if chank[i] == stop_byte {
            return Some(i + 1);
        }
        i = i + 1;
    }
    None
}

/// Appends `chank` (cut to its first `cut` bytes when a cut point is given)
/// to `buffer`, as far as it fits.  Returns the number of bytes appended,
/// whether reading must stop, and whether it stops because the buffer is full.
pub fn read_until_chunk(buffer: &mut BorrowedBuffer, cut: Option<usize>, chank: &[u8]) -> (r: (
    usize,
    bool,
    bool,
))
    requires
        old(buffer).wf(),
        cut matches Some(c) ==> c <= chank@.len(),
    ensures
        final(buffer).wf(),
        final(buffer).spec_capacity() == old(buffer).spec_capacity(),
        ({
            let part = match cut {
                Some(c) => chank@.subrange(0, c as int),
                None => chank@,
            };
            let room = old(buffer).spec_capacity() - old(buffer).used();
            let n = min_int(room, part.len() as int);
            &&& r.0 == n
            &&& final(buffer).contents() == old(buffer).contents() + part.subrange(0, n)
            &&& r.2 == (n < part.len())
            &&& r.1 == (cut is Some || r.2)
        }),
{
    let part = match cut {
        Some(c) => vstd::slice::slice_subrange(chank, 0, c),
        None => chank,
    };
    let appended = buffer.try_append_from_slice(part);
    let overflow = appended < part.len();
    (appended, cut.is_some() || overflow, overflow)
}

/// Feeding a stream in two pieces finds what feeding it whole finds: if the
/// first piece completes the sequence, the second is never looked at; if not,
/// the search goes on in the second piece from where the first left it.
pub proof fn lemma_find_run_concat(sequence: Seq<u8>, position: int, a: Seq<u8>, b: Seq<u8>)
    ensures
        ({
            let (na, ha, pa) = find_run(sequence, position, a);
            let (nb, hb, pb) = find_run(sequence, pa, b);
            find_run(sequence, position, a + b) == if ha {
                (na, ha, pa)
            } else {
                (na + nb, hb, pb)
            }
        }),
    decreases a.len(),
{
    if a.len() > 0 {
        let (p, hit) = find_step(sequence, position, a[0]);
        assert((a + b)[0] == a[0]);
        assert((a + b).subrange(1, (a + b).len() as int) =~= a.subrange(1, a.len() as int) + b);
        if !hit {
            lemma_find_run_concat(sequence, p, a.subrange(1, a.len() as int), b);
        }
    } else {
        assert(a + b =~= b);
    }
}

} // verus!
