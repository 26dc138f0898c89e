//! Incremental search for a byte sequence in a stream of bytes.
//!
//! The finder keeps the length of the longest prefix of the sequence that the
//! bytes fed since the last hit end with.  A byte that completes the sequence
//! reports a hit and starts the search over; any other byte moves the state to
//! the longest prefix that the bytes end with after it, so that a hit is
//! reported exactly when the bytes fed since the last hit end with the
//! sequence (`lemma_find_step_tracks`).
use vstd::prelude::*;

verus! {

/// `s` ends with `t`.
pub open spec fn ends_with(s: Seq<u8>, t: Seq<u8>) -> bool {
    t.len() <= s.len() && s.subrange(s.len() - t.len(), s.len() as int) == t
}

/// The longest prefix of `sequence`, of length at most `k`, that `w` ends
/// with; its length.
pub open spec fn border_from(sequence: Seq<u8>, w: Seq<u8>, k: int) -> int
    decreases k,
{
    if k <= 0 {
        0
    } else if ends_with(w, sequence.take(k)) {
        k
    } else {
        border_from(sequence, w, k - 1)
    }
}

/// One step of the finder from partial match `position` on `byte`: the new
/// partial match and whether `byte` completes the sequence.  The bytes of the
/// partial match followed by `byte` either are the whole sequence (a hit; the
/// search starts over) or end with a longest proper prefix of it, which is the
/// new partial match.
pub open spec fn find_step(sequence: Seq<u8>, position: int, byte: u8) -> (int, bool) {
    let w = sequence.take(position).push(byte);
    if w == sequence {
        (0, true)
    } else {
        (border_from(sequence, w, min_int(w.len() as int, sequence.len() - 1)), false)
    }
}

/// The lesser of two integers.
pub open spec fn min_int(a: int, b: int) -> int {
    if a <= b {
        a
    } else {
        b
    }
}

/// `position` is the state that the finder for `sequence` must be in after
/// the bytes `history` were fed to it since the last hit: the longest proper
/// prefix of `sequence` that `history` ends with (and `history` does not end
/// with the whole sequence).
pub open spec fn tracks(sequence: Seq<u8>, history: Seq<u8>, position: int) -> bool {
    &&& 0 <= position < sequence.len()
    &&& ends_with(history, sequence.take(position))
    &&& forall|k: int|
        position < k <= sequence.len() ==> !ends_with(history, #[trigger] sequence.take(k))
}

proof fn lemma_border_from_bounds(sequence: Seq<u8>, w: Seq<u8>, k: int)
    requires
        0 <= k <= sequence.len(),
    ensures
        0 <= border_from(sequence, w, k) <= k,
        ends_with(w, sequence.take(border_from(sequence, w, k))),
        forall|j: int|
            border_from(sequence, w, k) < j <= k ==> !ends_with(w, #[trigger] sequence.take(j)),
    decreases k,
{
    if k <= 0 {
        assert(w.subrange(w.len() as int, w.len() as int) =~= sequence.take(0));
    } else if !ends_with(w, sequence.take(k)) {
        lemma_border_from_bounds(sequence, w, k - 1);
    }
}

/// Suffixes of suffixes: if `s` ends with `t`, then `s` ends with `u` exactly
/// when `t` does, for `u` no longer than `t`.
proof fn lemma_ends_with_suffix(s: Seq<u8>, t: Seq<u8>, u: Seq<u8>)
    requires
        ends_with(s, t),
        u.len() <= t.len(),
    ensures
        ends_with(s, u) == ends_with(t, u),
{
    let a = s.subrange(s.len() - u.len(), s.len() as int);
    let b = t.subrange(t.len() - u.len(), t.len() as int);
    assert forall|i: int| 0 <= i < u.len() implies a[i] == b[i] by {
        assert(s.subrange(s.len() - t.len(), s.len() as int)[t.len() - u.len() + i] == t[t.len()
            - u.len() + i]);
    }
    assert(a =~= b);
}

/// A sequence ends with a nonempty `t` exactly when its last byte is the last
/// byte of `t` and the rest ends with the rest of `t`.
proof fn lemma_ends_with_push(h: Seq<u8>, b: u8, t: Seq<u8>)
    requires
        t.len() >= 1,
    ensures
        ends_with(h.push(b), t) == (ends_with(h, t.drop_last()) && b == t.last()),
{
    let hb = h.push(b);
    if t.len() <= hb.len() {
        let x = hb.subrange(hb.len() - t.len(), hb.len() as int);
        let y = h.subrange(h.len() - (t.len() - 1), h.len() as int);
        assert(x.drop_last() =~= y);
        assert(x.last() == b);
        if x == t {
            assert(y =~= t.drop_last());
        }
        if y == t.drop_last() && b == t.last() {
            assert forall|i: int| 0 <= i < t.len() implies x[i] == t[i] by {
                if i < t.len() - 1 {
                    assert(x.drop_last()[i] == x[i]);
                    assert(t.drop_last()[i] == t[i]);
                }
            }
            assert(x =~= t);
        }
    }
}

/// The finder's one step keeps track of the bytes fed since the last hit: if
/// `position` is the longest proper prefix of the sequence that `history`
/// ends with, then the step on `byte` reports a hit exactly when
/// `history.push(byte)` ends with the whole sequence; on a hit the search
/// starts over from nothing, and otherwise the new state is the longest proper
/// prefix that `history.push(byte)` ends with.
pub proof fn lemma_find_step_tracks(sequence: Seq<u8>, history: Seq<u8>, position: int, byte: u8)
    requires
        tracks(sequence, history, position),
    ensures
        ({
            let (next, found) = find_step(sequence, position, byte);
            &&& found == ends_with(history.push(byte), sequence)
            &&& found ==> next == 0 && tracks(sequence, Seq::empty(), next)
            &&& !found ==> tracks(sequence, history.push(byte), next)
        }),
{
    let m = sequence.len() as int;
    let p = position;
    let hb = history.push(byte);
    let w = sequence.take(p).push(byte);
    let (next, found) = find_step(sequence, p, byte);
    // For every nonempty prefix of length k, `hb` ends with it exactly when
    // k <= p + 1 and `w` ends with it.
    assert forall|k: int| 1 <= k < m + 1 implies #[trigger] ends_with(hb, sequence.take(k)) == (k
        <= p + 1 && ends_with(w, sequence.take(k))) by {
        let t = sequence.take(k);
        lemma_ends_with_push(history, byte, t);
        lemma_ends_with_push(sequence.take(p), byte, t);
        assert(t.drop_last() =~= sequence.take(k - 1));
        if k - 1 <= p {
            lemma_ends_with_suffix(history, sequence.take(p), sequence.take(k - 1));
        } else {
            assert(!ends_with(history, sequence.take(k - 1)));
            assert(!ends_with(w, t));
        }
    }
    assert(found == (w =~= sequence));
    assert(sequence.take(m) =~= sequence);
    if found {
        assert(ends_with(hb, sequence.take(m)));
        assert(ends_with(Seq::<u8>::empty(), sequence.take(0))) by {
            assert(Seq::<u8>::empty().subrange(0, 0) =~= sequence.take(0));
        }
    } else {
        assert(!ends_with(hb, sequence)) by {
            if ends_with(hb, sequence.take(m)) {
                assert(ends_with(w, sequence.take(m)));
                assert(w.subrange(w.len() - m, w.len() as int) =~= w);
            }
        }
        let kmax = min_int(w.len() as int, m - 1);
        lemma_border_from_bounds(sequence, w, kmax);
        assert(0 <= next < m);
        if next == 0 {
            assert(hb.subrange(hb.len() as int, hb.len() as int) =~= sequence.take(0));
        }
        assert forall|k: int| next < k <= m implies !ends_with(hb, #[trigger] sequence.take(k)) by {
            if k == m {
            } else if k <= kmax {
            } else if k <= p + 1 {
                assert(ends_with(w, sequence.take(k)) ==> sequence.take(k).len() <= w.len());
            }
        }
    }
}

/// A finder that has been fed nothing is in the state it is created in.
pub proof fn lemma_tracks_start(sequence: Seq<u8>)
    requires
        sequence.len() > 0,
    ensures
        tracks(sequence, Seq::empty(), 0),
{
    assert(Seq::<u8>::empty().subrange(0, 0) =~= sequence.take(0));
}

/// Feeds `data` to a finder in state `position`, stopping at the first hit.
/// Returns the number of bytes fed (including the completing byte), whether a
/// hit occurred, and the final partial-match length.
pub open spec fn find_run(sequence: Seq<u8>, position: int, data: Seq<u8>) -> (int, bool, int)
    decreases data.len(),
{
    if data.len() == 0 {
        (0, false, position)
    } else {
        let (p, hit) = find_step(sequence, position, data[0]);
        if hit {
            (1, true, p)
        } else {
            let (n, h, q) = find_run(sequence, p, data.subrange(1, data.len() as int));
            (n + 1, h, q)
        }
    }
}

/// Feeding a run of bytes stops at the first hit: if the finder is in the
/// state that `history` leads to, then `find_run` reports a hit exactly when
/// some prefix of `data` makes `history` end with the sequence, and the number
/// of bytes it feeds is the length of the shortest such prefix (all of `data`
/// when there is none).  The state left behind is the one the bytes fed since
/// the last hit lead to.
pub proof fn lemma_find_run_first_hit(
    sequence: Seq<u8>,
    history: Seq<u8>,
    position: int,
    data: Seq<u8>,
)
    requires
        tracks(sequence, history, position),
    ensures
        ({
            let (n, hit, next) = find_run(sequence, position, data);
            &&& 0 <= n <= data.len()
            &&& forall|i: int|
                1 <= i < n ==> !ends_with(#[trigger] (history + data.take(i)), sequence)
            &&& hit ==> 1 <= n && ends_with(history + data.take(n), sequence) && tracks(
                sequence,
                Seq::empty(),
                next,
            )
            &&& !hit ==> n == data.len() && !ends_with(history + data, sequence) && tracks(
                sequence,
                history + data,
                next,
            )
        }),
    decreases data.len(),
{
    if data.len() == 0 {
        assert(history + data =~= history);
        assert(!ends_with(history, sequence)) by {
            if ends_with(history, sequence) {
                assert(sequence.take(sequence.len() as int) =~= sequence);
            }
        }
    } else {
        let b = data[0];
        let rest = data.subrange(1, data.len() as int);
        lemma_find_step_tracks(sequence, history, position, b);
        let (p, found) = find_step(sequence, position, b);
        assert(history + data.take(1) =~= history.push(b));
        if !found {
            lemma_find_run_first_hit(sequence, history.push(b), p, rest);
            let (n, hit, next) = find_run(sequence, p, rest);
            assert forall|i: int| 1 <= i < n + 1 implies !ends_with(
                #[trigger] (history + data.take(i)),
                sequence,
            ) by {
                if i > 1 {
                    assert(history + data.take(i) =~= history.push(b) + rest.take(i - 1));
                }
            }
            assert(history + data.take(n + 1) =~= history.push(b) + rest.take(n));
            assert(history + data =~= history.push(b) + rest);
        }
    }
}

/// Whether the first `p` bytes of `sequence` followed by `byte` end with the
/// first `k` bytes of `sequence`.
fn ends_with_prefix(sequence: &[u8], p: usize, byte: u8, k: usize) -> (r: bool)
    requires
        1 <= k <= p + 1,
        p < sequence@.len(),
    ensures
        r == ends_with(sequence@.take(p as int).push(byte), sequence@.take(k as int)),
{
    let ghost w = sequence@.take(p as int).push(byte);
    let ghost t = sequence@.take(k as int);
    let off = p - (k - 1);
    if sequence[k - 1] != byte {
        assert(w.subrange(off as int, w.len() as int)[k - 1] == byte);
        return false;
    }
    let mut j: usize = 0;
    while j < k - 1
        invariant
            j <= k - 1,
            k <= p + 1,
            off == p + 1 - k,
            p < sequence@.len(),
            w == sequence@.take(p as int).push(byte),
            t == sequence@.take(k as int),
            forall|i: int| 0 <= i < j ==> #[trigger] sequence@[i] == sequence@[off + i],
        decreases k - 1 - j,
    {
        if sequence[j] != sequence[off + j] {
            assert(w.subrange(off as int, w.len() as int)[j as int] == w[off + j]);
            assert(t[j as int] == sequence@[j as int]);
            return false;
        }
        j = j + 1;
    }
    assert(w.subrange(off as int, w.len() as int) =~= t);
    true
}

/// Finds a byte sequence in a stream that is fed to it byte by byte.
pub struct FindSequence<'a> {
    sequence: &'a [u8],
    position: usize,
}

impl<'a> FindSequence<'a> {
    /// The sequence searched for.
    pub closed spec fn sequence(&self) -> Seq<u8> {
        self.sequence@
    }

    /// Length of the current partial match.
    pub closed spec fn position(&self) -> int {
        self.position as int
    }

    /// The finder is ready to take bytes: the sequence is not empty and the
    /// partial match is shorter than it.
    pub open spec fn wf(&self) -> bool {
        0 <= self.position() < self.sequence().len()
    }

    /// Create a new FindSequence for the given byte sequence
    pub fn new(sequence: &'a [u8]) -> (r: Self)
        ensures
            r.sequence() == sequence@,
            r.position() == 0,
    {
        Self { sequence, position: 0 }
    }

    /// Push a byte into the sequence finder; returns `true` exactly when the
    /// bytes pushed since the last `true` (or since `new`), this one included,
    /// end with the sequence (`lemma_find_step_tracks`).
    pub fn push_byte(&mut self, byte: u8) -> (found: bool)
        requires
            old(self).wf(),
        ensures
            final(self).wf(),
            final(self).sequence() == old(self).sequence(),
            (final(self).position(), found) == find_step(
                old(self).sequence(),
                old(self).position(),
                byte,
            ),
    {
        let p = self.position;
        let m = self.sequence.len();
        let ghost w = self.sequence@.take(p as int).push(byte);
        if p + 1 == m && byte == self.sequence[p] {
            assert(w =~= self.sequence@);
            self.position = 0;
            return true;
        }
        assert(w != self.sequence@) by {
            if w == self.sequence@ {
                assert(w[p as int] == byte);
            }
        }
        let mut k: usize = if p + 1 < m {
            p + 1
        } else {
            m - 1
        };
        let ghost k0 = k as int;
        loop
            invariant
                0 <= k <= k0,
                k0 == min_int(w.len() as int, self.sequence@.len() - 1),
                m == self.sequence@.len(),
                p < m,
                w == self.sequence@.take(p as int).push(byte),
                border_from(self.sequence@, w, k0) == border_from(self.sequence@, w, k as int),
            ensures
                border_from(self.sequence@, w, k0) == k,
            decreases k,
        {
            if k == 0 {
                break;
            }
            if ends_with_prefix(self.sequence, p, byte, k) {
                break;
            }
            k = k - 1;
        }
        proof {
            lemma_border_from_bounds(self.sequence@, w, k0);
        }
        self.position = k;
        false
    }

    /// Feeds the bytes of `chank` until the sequence is completed.
    ///
    /// Returns `Some(n)` when the `n`-th byte of `chank` completes the
    /// sequence (the remaining bytes are not fed), `None` when the whole
    /// chunk was fed without completing it.
    pub fn check_next_slice(&mut self, chank: &[u8]) -> (r: Option<usize>)
        requires
            old(self).wf(),
        ensures
            final(self).wf(),
            final(self).sequence() == old(self).sequence(),
            ({
                let (n, hit, p) = find_run(old(self).sequence(), old(self).position(), chank@);
                &&& final(self).position() == p
                &&& hit ==> r == Some(n as usize)
                &&& !hit ==> r is None && n == chank@.len()
            }),
    {
        let ghost s = self.sequence();
        let ghost p0 = self.position();
        let mut i: usize = 0;
        assert(chank@.subrange(0, chank@.len() as int) =~= chank@);
        while i < chank.len()
            invariant
                s == old(self).sequence(),
                p0 == old(self).position(),
                self.wf(),
                self.sequence() == s,
                i <= chank@.len(),
                find_run(s, p0, chank@) == ({
                    let (n, h, q) = find_run(s, self.position(), chank@.subrange(i as int, chank@.len() as int));
                    (n + i, h, q)
                }),
            decreases chank@.len() - i,
        {
            let ghost before = self.position();
            let ghost rest = chank@.subrange(i as int, chank@.len() as int);
            let found = self.push_byte(chank[i]);
            assert(rest[0] == chank@[i as int]);
            assert(rest.subrange(1, rest.len() as int) =~= chank@.subrange(i + 1, chank@.len() as int));
            i = i + 1;
            if found {
                assert(find_run(s, before, rest) == (1int, true, self.position()));
                return Some(i);
            }
        }
        assert(chank@.subrange(i as int, chank@.len() as int) =~= Seq::<u8>::empty());
        None
    }
}

} // verus!
