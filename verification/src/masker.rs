//! WebSocket payload masking (RFC 6455, section 5.3).
//!
//! A payload byte at stream position `p` is XOR-ed with byte `p % 4` of the
//! 4-byte masking key.  [`PayloadMasker`] keeps the key and the current
//! position modulo 4, so a payload can be masked in several pieces.  Masking is
//! an involution: applying the same masker twice restores the data.
use vstd::prelude::*;

verus! {

/// Byte `k` (0 = least significant) of a 64-bit word.
pub open spec fn byte_of(w: u64, k: int) -> u8 {
    if k == 0 {
        (w & 0xff) as u8
    } else if k == 1 {
        ((w >> 8u64) & 0xff) as u8
    } else if k == 2 {
        ((w >> 16u64) & 0xff) as u8
    } else if k == 3 {
        ((w >> 24u64) & 0xff) as u8
    } else if k == 4 {
        ((w >> 32u64) & 0xff) as u8
    } else if k == 5 {
        ((w >> 40u64) & 0xff) as u8
    } else if k == 6 {
        ((w >> 48u64) & 0xff) as u8
    } else {
        ((w >> 56u64) & 0xff) as u8
    }
}

/// The big-endian bytes of a 32-bit masking key, as it appears on the wire.
pub open spec fn be_bytes(k: u32) -> Seq<u8> {
    seq![byte_of(k as u64, 3), byte_of(k as u64, 2), byte_of(k as u64, 1), byte_of(k as u64, 0)]
}

/// `data` masked with `key`, the first byte of `data` standing at stream position `phase`.
pub open spec fn masked(key: Seq<u8>, phase: int, data: Seq<u8>) -> Seq<u8> {
    Seq::new(data.len(), |i: int| data[i] ^ key[(phase + i) % 4])
}

/// A stateful masker for applying a WebSocket mask key across payload bytes.
pub struct PayloadMasker {
    offset: usize,
    mask_key: [u8; 4],
}

impl PayloadMasker {
    #[verifier::type_invariant]
    spec fn inv(self) -> bool {
        self.offset < 4
    }

    /// The four key bytes, in the order they are applied.
    pub closed spec fn key(self) -> Seq<u8> {
        self.mask_key@
    }

    /// Position of the next payload byte, modulo 4.
    pub closed spec fn phase(self) -> int {
        self.offset as int
    }

    /// Create a new PayloadMasker with the given mask key.
    pub fn new(mask_key: u32) -> (r: Self)
        ensures
            r.key() == be_bytes(mask_key),
            r.phase() == 0,
    {
        Self::new_with_offset(mask_key, 0)
    }

    /// Create a new PayloadMasker with the given mask key and initial offset.
    pub fn new_with_offset(mask_key: u32, offset: usize) -> (r: Self)
        ensures
            r.key() == be_bytes(mask_key),
            r.phase() == offset % 4,
    {
        let k = mask_key as u64;
        let key: [u8; 4] = [
            ((k >> 24u64) & 0xff) as u8,
            ((k >> 16u64) & 0xff) as u8,
            ((k >> 8u64) & 0xff) as u8,
            (k & 0xff) as u8,
        ];
        let r = Self { mask_key: key, offset: offset % 4 };
        assert(r.key() =~= be_bytes(mask_key));
        r
    }

    /// Get the next mask byte, advancing the mask offset by 1.
    pub fn next_mask_byte(&mut self) -> (b: u8)
        ensures
            b == old(self).key()[old(self).phase()],
            final(self).key() == old(self).key(),
            final(self).phase() == (old(self).phase() + 1) % 4,
    {
        proof {
            use_type_invariant(&*self);
        }
        let b = self.mask_key[self.offset];
        if self.offset == 3 {
            self.offset = 0;
        } else {
            self.offset = self.offset + 1;
        }
        b
    }

    /// Mask a single byte, advancing the mask offset by 1.
    pub fn mask_byte(&mut self, byte: u8) -> (r: u8)
        ensures
            r == byte ^ old(self).key()[old(self).phase()],
            final(self).key() == old(self).key(),
            final(self).phase() == (old(self).phase() + 1) % 4,
    {
        byte ^ self.next_mask_byte()
    }

    /// Masks `buf[start..]` byte by byte.
    fn mask_tail(&mut self, buf: &mut [u8], start: usize)
        requires
            start <= old(buf)@.len(),
        ensures
            final(buf)@.len() == old(buf)@.len(),
            forall|j: int| 0 <= j < start ==> final(buf)@[j] == old(buf)@[j],
            forall|j: int|
                start <= j < old(buf)@.len() ==> final(buf)@[j] == old(buf)@[j]
                    ^ old(self).key()[(old(self).phase() + j - start) % 4],
            final(self).key() == old(self).key(),
            final(self).phase() == (old(self).phase() + old(buf)@.len() - start) % 4,
    {
        proof {
            use_type_invariant(&*self);
        }
        let len = buf.len();
        let ghost key = self.key();
        let ghost phase0 = self.phase();
        let ghost orig = buf@;
        let mut i = start;
        while i < len
            invariant
                start <= i <= len,
                len == orig.len(),
                buf@.len() == len,
                self.key() == key,
                0 <= phase0 < 4,
                self.phase() == (phase0 + i - start) % 4,
                forall|j: int| 0 <= j < start ==> buf@[j] == orig[j],
                forall|j: int| start <= j < i ==> buf@[j] == orig[j] ^ key[(phase0 + j - start) % 4],
                forall|j: int| i <= j < len ==> buf@[j] == orig[j],
            decreases len - i,
        {
            let b = buf[i];
            let m = self.mask_byte(b);
            buf[i] = m;
            i = i + 1;
        }
    }

    /// Mask the given buffer in-place, advancing the mask offset accordingly.
    ///
    /// Processes the buffer byte by byte.
    pub fn mask_small_chank(&mut self, buf: &mut [u8])
        ensures
            final(buf)@ == masked(old(self).key(), old(self).phase(), old(buf)@),
            final(self).key() == old(self).key(),
            final(self).phase() == (old(self).phase() + old(buf)@.len()) % 4,
    {
        proof {
            use_type_invariant(&*self);
        }
        self.mask_tail(buf, 0);
        assert(final(buf)@ =~= masked(old(self).key(), old(self).phase(), old(buf)@));
    }

    /// Mask the given buffer in-place, advancing the mask offset accordingly.
    ///
    /// Works a 64-bit word at a time and finishes the tail byte by byte; the
    /// result is the same as that of [`PayloadMasker::mask_small_chank`].
    pub fn mask_chank(&mut self, buf: &mut [u8])
        ensures
            final(buf)@ == masked(old(self).key(), old(self).phase(), old(buf)@),
            final(self).key() == old(self).key(),
            final(self).phase() == (old(self).phase() + old(buf)@.len()) % 4,
    {
        self.mask_chank_impl(buf, 1);
    }

    /// Mask the given buffer in-place, advancing the mask offset accordingly.
    ///
    /// Works on blocks of four 64-bit words (a shape that vectorises well),
    /// then on single words, then byte by byte; the result is the same as that
    /// of [`PayloadMasker::mask_small_chank`].
    pub fn mask_chank_simd(&mut self, buf: &mut [u8])
        ensures
            final(buf)@ == masked(old(self).key(), old(self).phase(), old(buf)@),
            final(self).key() == old(self).key(),
            final(self).phase() == (old(self).phase() + old(buf)@.len()) % 4,
    {
        self.mask_chank_impl(buf, 4);
    }

    /// Masks whole blocks of `block_words` 64-bit words, then single words,
    /// then the remaining bytes.
    fn mask_chank_impl(&mut self, buf: &mut [u8], block_words: usize)
        requires
            1 <= block_words <= 4,
        ensures
            final(buf)@ == masked(old(self).key(), old(self).phase(), old(buf)@),
            final(self).key() == old(self).key(),
            final(self).phase() == (old(self).phase() + old(buf)@.len()) % 4,
    {
        proof {
            use_type_invariant(&*self);
        }
        let len = buf.len();
        let ghost key = self.key();
        let ghost phase = self.phase();
        let ghost orig = buf@;
        let mask_32 = rotate(self.mask_key, self.offset);
        let mask = populate_to_usize(mask_32);
        assert forall|k: int| 0 <= k < 8 implies byte_of(mask, k) == key[(phase + k) % 4] by {
            assert(byte_of(mask, k) == byte_of(mask_32 as u64, k % 4));
            assert((phase + k % 4) % 4 == (phase + k) % 4) by (nonlinear_arith)
                requires
                    0 <= k < 8,
                    0 <= phase < 4,
            ;
        }
        let block = 8 * block_words;
        let mut i: usize = 0;
        let ghost mut q: int = 0;
        while len - i >= 8
            invariant
                i <= len,
                len == orig.len(),
                buf@.len() == len,
                i == 8 * q,
                q >= 0,
                1 <= block_words <= 4,
                block == 8 * block_words,
                0 <= phase < 4,
                key.len() == 4,
                forall|k: int| 0 <= k < 8 ==> byte_of(mask, k) == key[(phase + k) % 4],
                forall|t: int| 0 <= t < i ==> buf@[t] == orig[t] ^ key[(phase + t) % 4],
                forall|t: int| i <= t < len ==> buf@[t] == orig[t],
            decreases len - i,
        {
            let step = if len - i >= block { block_words } else { 1 };
            let mut j: usize = 0;
            let ghost i0 = i;
            while j < step
                invariant
                    i == i0 + 8 * j,
                    i <= len,
                    len == orig.len(),
                    buf@.len() == len,
                    i == 8 * q,
                    q >= 0,
                    j <= step,
                    len - i >= 8 * (step - j),
                    0 <= phase < 4,
                    key.len() == 4,
                    forall|k: int| 0 <= k < 8 ==> byte_of(mask, k) == key[(phase + k) % 4],
                    forall|t: int| 0 <= t < i ==> buf@[t] == orig[t] ^ key[(phase + t) % 4],
                    forall|t: int| i <= t < len ==> buf@[t] == orig[t],
                decreases step - j,
            {
                let ghost before = buf@;
                xor_word(buf, i, mask);
                assert forall|t: int| 0 <= t < i + 8 implies buf@[t] == orig[t] ^ key[(phase + t)
                    % 4] by {
                    if t >= i {
                        let k = t - i;
                        assert(buf@[i + k] == before[i + k] ^ byte_of(mask, k));
                        lemma_mod4_shift(phase + k, q);
                    }
                }
                i = i + 8;
                proof {
                    q = q + 1;
                }
                j = j + 1;
            }
        }
        let ghost mid = buf@;
        self.mask_tail(buf, i);
        assert forall|t: int| 0 <= t < len implies buf@[t] == orig[t] ^ key[(phase + t) % 4] by {
            if t >= i {
                lemma_mod4_shift(phase + t - i, q);
            }
        }
        proof {
            lemma_mod4_shift(phase + len - i, q);
        }
        assert(buf@ =~= masked(key, phase, orig));
    }
}

proof fn lemma_mod4_shift(a: int, q: int)
    requires
        q >= 0,
    ensures
        (a + 8 * q) % 4 == a % 4,
{
    assert((a + 8 * q) % 4 == a % 4) by (nonlinear_arith)
        requires
            q >= 0,
    ;
}

proof fn lemma_rotate_bytes(m0: u8, m1: u8, m2: u8, m3: u8, x: u32)
    by (bit_vector)
    requires
        x == (m0 as u32) | ((m1 as u32) << 8u32) | ((m2 as u32) << 16u32) | ((m3 as u32) << 24u32),
    ensures
        ((x as u64) & 0xff) as u8 == m0,
        (((x as u64) >> 8u64) & 0xff) as u8 == m1,
        (((x as u64) >> 16u64) & 0xff) as u8 == m2,
        (((x as u64) >> 24u64) & 0xff) as u8 == m3,
        ((((x >> 8u32) | (x << 24u32)) as u64) & 0xff) as u8 == m1,
        (((((x >> 8u32) | (x << 24u32)) as u64) >> 8u64) & 0xff) as u8 == m2,
        (((((x >> 8u32) | (x << 24u32)) as u64) >> 16u64) & 0xff) as u8 == m3,
        (((((x >> 8u32) | (x << 24u32)) as u64) >> 24u64) & 0xff) as u8 == m0,
        ((((x >> 16u32) | (x << 16u32)) as u64) & 0xff) as u8 == m2,
        (((((x >> 16u32) | (x << 16u32)) as u64) >> 8u64) & 0xff) as u8 == m3,
        (((((x >> 16u32) | (x << 16u32)) as u64) >> 16u64) & 0xff) as u8 == m0,
        (((((x >> 16u32) | (x << 16u32)) as u64) >> 24u64) & 0xff) as u8 == m1,
        ((((x >> 24u32) | (x << 8u32)) as u64) & 0xff) as u8 == m3,
        (((((x >> 24u32) | (x << 8u32)) as u64) >> 8u64) & 0xff) as u8 == m0,
        (((((x >> 24u32) | (x << 8u32)) as u64) >> 16u64) & 0xff) as u8 == m1,
        (((((x >> 24u32) | (x << 8u32)) as u64) >> 24u64) & 0xff) as u8 == m2,
{
}

/// The masking key read as a little-endian 32-bit word and rotated right by
/// `n % 4` bytes: byte `j` of the result is the key byte for position `n + j`.
fn rotate(mask: [u8; 4], n: usize) -> (r: u32)
    ensures
        forall|j: int| 0 <= j < 4 ==> #[trigger] byte_of(r as u64, j) == mask@[(n + j) % 4],
{
    let x: u32 = (mask[0] as u32) | ((mask[1] as u32) << 8u32) | ((mask[2] as u32) << 16u32) | ((
    mask[3] as u32) << 24u32);
    proof {
        lemma_rotate_bytes(mask[0], mask[1], mask[2], mask[3], x);
    }
    let s = n % 4;
    let r = if s == 0 {
        x
    } else if s == 1 {
        (x >> 8u32) | (x << 24u32)
    } else if s == 2 {
        (x >> 16u32) | (x << 16u32)
    } else {
        (x >> 24u32) | (x << 8u32)
    };
    assert forall|j: int| 0 <= j < 4 implies #[trigger] byte_of(r as u64, j) == mask@[(n + j) % 4] by {
        assert((n + j) % 4 == (s + j) % 4);
    }
    r
}

proof fn lemma_populate_bytes(m: u32, p: u64)
    by (bit_vector)
    requires
        p == (m as u64) | ((m as u64) << 32u64),
    ensures
        (p & 0xff) as u8 == ((m as u64) & 0xff) as u8,
        ((p >> 8u64) & 0xff) as u8 == (((m as u64) >> 8u64) & 0xff) as u8,
        ((p >> 16u64) & 0xff) as u8 == (((m as u64) >> 16u64) & 0xff) as u8,
        ((p >> 24u64) & 0xff) as u8 == (((m as u64) >> 24u64) & 0xff) as u8,
        ((p >> 32u64) & 0xff) as u8 == ((m as u64) & 0xff) as u8,
        ((p >> 40u64) & 0xff) as u8 == (((m as u64) >> 8u64) & 0xff) as u8,
        ((p >> 48u64) & 0xff) as u8 == (((m as u64) >> 16u64) & 0xff) as u8,
        ((p >> 56u64) & 0xff) as u8 == (((m as u64) >> 24u64) & 0xff) as u8,
{
}

/// Repeats a 32-bit mask word twice to fill a 64-bit word.
fn populate_to_usize(mask: u32) -> (p: u64)
    ensures
        forall|k: int| 0 <= k < 8 ==> byte_of(p, k) == byte_of(mask as u64, k % 4),
{
    let m = mask as u64;
    let p = m | (m << 32u64);
    proof {
        lemma_populate_bytes(mask, p);
    }
    assert forall|k: int| 0 <= k < 8 implies byte_of(p, k) == byte_of(mask as u64, k % 4) by {
        if k == 0 {
        } else if k == 1 {
        } else if k == 2 {
        } else if k == 3 {
        } else if k == 4 {
        } else if k == 5 {
        } else if k == 6 {
        } else {
        }
    }
    p
}

proof fn lemma_compose_bytes(b0: u8, b1: u8, b2: u8, b3: u8, b4: u8, b5: u8, b6: u8, b7: u8, w: u64)
    by (bit_vector)
    requires
        w == (b0 as u64) | ((b1 as u64) << 8u64) | ((b2 as u64) << 16u64) | ((b3 as u64) << 24u64)
            | ((b4 as u64) << 32u64) | ((b5 as u64) << 40u64) | ((b6 as u64) << 48u64) | ((b7 as u64)
            << 56u64),
    ensures
        (w & 0xff) as u8 == b0,
        ((w >> 8u64) & 0xff) as u8 == b1,
        ((w >> 16u64) & 0xff) as u8 == b2,
        ((w >> 24u64) & 0xff) as u8 == b3,
        ((w >> 32u64) & 0xff) as u8 == b4,
        ((w >> 40u64) & 0xff) as u8 == b5,
        ((w >> 48u64) & 0xff) as u8 == b6,
        ((w >> 56u64) & 0xff) as u8 == b7,
{
}

proof fn lemma_xor_bytes(w: u64, m: u64)
    by (bit_vector)
    ensures
        ((w ^ m) & 0xff) as u8 == ((w & 0xff) as u8) ^ ((m & 0xff) as u8),
        (((w ^ m) >> 8u64) & 0xff) as u8 == (((w >> 8u64) & 0xff) as u8) ^ (((m >> 8u64) & 0xff) as u8),
        (((w ^ m) >> 16u64) & 0xff) as u8 == (((w >> 16u64) & 0xff) as u8) ^ (((m >> 16u64) & 0xff) as u8),
        (((w ^ m) >> 24u64) & 0xff) as u8 == (((w >> 24u64) & 0xff) as u8) ^ (((m >> 24u64) & 0xff) as u8),
        (((w ^ m) >> 32u64) & 0xff) as u8 == (((w >> 32u64) & 0xff) as u8) ^ (((m >> 32u64) & 0xff) as u8),
        (((w ^ m) >> 40u64) & 0xff) as u8 == (((w >> 40u64) & 0xff) as u8) ^ (((m >> 40u64) & 0xff) as u8),
        (((w ^ m) >> 48u64) & 0xff) as u8 == (((w >> 48u64) & 0xff) as u8) ^ (((m >> 48u64) & 0xff) as u8),
        (((w ^ m) >> 56u64) & 0xff) as u8 == (((w >> 56u64) & 0xff) as u8) ^ (((m >> 56u64) & 0xff) as u8),
{
}

/// Reads `buf[i..i + 8]` as a little-endian 64-bit word.
fn load_word(buf: &[u8], i: usize) -> (w: u64)
    requires
        i + 8 <= buf@.len(),
    ensures
        forall|k: int| 0 <= k < 8 ==> byte_of(w, k) == buf@[i + k],
{
    let b0 = buf[i];
    let b1 = buf[i + 1];
    let b2 = buf[i + 2];
    let b3 = buf[i + 3];
    let b4 = buf[i + 4];
    let b5 = buf[i + 5];
    let b6 = buf[i + 6];
    let b7 = buf[i + 7];
    let w = (b0 as u64) | ((b1 as u64) << 8u64) | ((b2 as u64) << 16u64) | ((b3 as u64) << 24u64)
        | ((b4 as u64) << 32u64) | ((b5 as u64) << 40u64) | ((b6 as u64) << 48u64) | ((b7 as u64)
        << 56u64);
    proof {
        lemma_compose_bytes(b0, b1, b2, b3, b4, b5, b6, b7, w);
    }
    w
}

/// XORs the little-endian word at `buf[i..i + 8]` with `m`.
fn xor_word(buf: &mut [u8], i: usize, m: u64)
    requires
        i + 8 <= old(buf)@.len(),
    ensures
        final(buf)@.len() == old(buf)@.len(),
        forall|j: int|
            0 <= j < old(buf)@.len() && !(i <= j < i + 8) ==> final(buf)@[j] == old(buf)@[j],
        forall|k: int| 0 <= k < 8 ==> final(buf)@[i + k] == old(buf)@[i + k] ^ byte_of(m, k),
{
    let ghost ob = buf@;
    let w = load_word(buf, i);
    let x = w ^ m;
    proof {
        lemma_xor_bytes(w, m);
    }
    buf[i] = (x & 0xff) as u8;
    buf[i + 1] = ((x >> 8u64) & 0xff) as u8;
    buf[i + 2] = ((x >> 16u64) & 0xff) as u8;
    buf[i + 3] = ((x >> 24u64) & 0xff) as u8;
    buf[i + 4] = ((x >> 32u64) & 0xff) as u8;
    buf[i + 5] = ((x >> 40u64) & 0xff) as u8;
    buf[i + 6] = ((x >> 48u64) & 0xff) as u8;
    buf[i + 7] = ((x >> 56u64) & 0xff) as u8;
    assert forall|k: int| 0 <= k < 8 implies buf@[i + k] == ob[i + k] ^ byte_of(m, k) by {
        assert(byte_of(w, k) == ob[i + k]);
        if k == 0 {
        } else if k == 1 {
        } else if k == 2 {
        } else if k == 3 {
        } else if k == 4 {
        } else if k == 5 {
        } else if k == 6 {
        } else {
        }
    }
}

proof fn lemma_xor_twice(x: u8, k: u8)
    by (bit_vector)
    ensures
        (x ^ k) ^ k == x,
{
}

/// Masking is an involution: masking already masked data with the same key
/// from the same stream position restores the data.
pub proof fn lemma_masked_involution(key: Seq<u8>, phase: int, data: Seq<u8>)
    ensures
        masked(key, phase, masked(key, phase, data)) == data,
{
    assert forall|i: int| 0 <= i < data.len() implies masked(
        key,
        phase,
        masked(key, phase, data),
    )[i] == data[i] by {
        lemma_xor_twice(data[i], key[(phase + i) % 4]);
    }
    assert(masked(key, phase, masked(key, phase, data)) =~= data);
}

/// Masking a payload in two consecutive pieces, the second starting at the
/// stream position where the first ended, gives the same bytes as masking it
/// whole.
pub proof fn lemma_masked_split(key: Seq<u8>, phase: int, a: Seq<u8>, b: Seq<u8>)
    ensures
        masked(key, phase, a + b) == masked(key, phase, a) + masked(key, phase + a.len(), b),
{
    assert forall|i: int| 0 <= i < a.len() + b.len() implies masked(key, phase, a + b)[i] == (
    masked(key, phase, a) + masked(key, phase + a.len(), b))[i] by {
        if i >= a.len() {
            assert(phase + a.len() + (i - a.len()) == phase + i);
        }
    }
    assert(masked(key, phase, a + b) =~= masked(key, phase, a) + masked(key, phase + a.len(), b));
}

/// The phase a masker reaches from `phase` after `n` calls of
/// `next_mask_byte` (each moves it on by one, modulo 4).
pub open spec fn phase_after(phase: int, n: nat) -> int
    decreases n,
{
    if n == 0 {
        phase
    } else {
        (phase_after(phase, (n - 1) as nat) + 1) % 4
    }
}

/// A masker made with `new_with_offset(key, offset)` is the masker made with
/// `new(key)` after `offset` calls of `next_mask_byte`: both have the key's
/// bytes and the phase `offset % 4`, so they hand out the same mask bytes
/// from then on.
pub proof fn lemma_offset_is_advance(offset: nat)
    ensures
        phase_after(0, offset) == offset % 4,
        forall|i: int| 0 <= i ==> (#[trigger] (phase_after(0, offset) + i)) % 4 == (offset + i) % 4,
    decreases offset,
{
    if offset > 0 {
        lemma_offset_is_advance((offset - 1) as nat);
        assert(((offset - 1) % 4 + 1) % 4 == offset % 4) by (nonlinear_arith)
            requires
                offset >= 1,
        ;
    }
    assert forall|i: int| 0 <= i implies (#[trigger] (phase_after(0, offset) + i)) % 4 == (offset
        + i) % 4 by {
        assert((offset % 4 + i) % 4 == (offset + i) % 4) by (nonlinear_arith)
            requires
                i >= 0,
        ;
    }
}

/// Only the stream position modulo 4 matters.
pub proof fn lemma_masked_phase_mod(key: Seq<u8>, phase: int, data: Seq<u8>)
    ensures
        masked(key, phase, data) == masked(key, phase % 4, data),
{
    assert forall|i: int| 0 <= i < data.len() implies masked(key, phase, data)[i] == masked(
        key,
        phase % 4,
        data,
    )[i] by {
        assert((phase + i) % 4 == (phase % 4 + i) % 4) by (nonlinear_arith);
    }
    assert(masked(key, phase, data) =~= masked(key, phase % 4, data));
}

} // verus!
