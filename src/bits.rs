//! Bit sequences, held in `bitvec`'s `BitVec` with the most significant bit of
//! each byte first.

use bitvec::order::Msb0;
use bitvec::vec::BitVec;
use vstd::prelude::*;

verus! {

/// A sequence of bits, stored in a `bitvec` vector.
#[verifier::external_body]
pub struct BitStream {
    inner: BitVec<Msb0, u8>,
}

/// The bits held by a stream, in order.
pub uninterp spec fn bits_of(b: BitStream) -> Seq<bool>;

impl View for BitStream {
    type V = Seq<bool>;

    open spec fn view(&self) -> Seq<bool> {
        bits_of(*self)
    }
}

/// The `len` low bits of `v`, most significant first.
pub open spec fn value_bits(v: u32, len: nat) -> Seq<bool> {
    Seq::new(len, |k: int| (v >> ((len - 1 - k) as u32)) & 1u32 == 1u32)
}

/// Bytes as bits, each byte most significant bit first.
pub open spec fn bytes_to_bits(bs: Seq<u8>) -> Seq<bool>
    decreases bs.len(),
{
    if bs.len() == 0 {
        Seq::empty()
    } else {
        bytes_to_bits(bs.drop_last()) + value_bits(bs.last() as u32, 8)
    }
}

/// `n` zero bits.
pub open spec fn zeros(n: nat) -> Seq<bool> {
    Seq::new(n, |i: int| false)
}

/// The bits of zero are all zero.
pub proof fn lemma_value_bits_zero(n: nat)
    requires
        n <= 32,
    ensures
        value_bits(0, n) == zeros(n),
{
    assert forall|k: int| 0 <= k < n implies #[trigger] value_bits(0, n)[k] == zeros(n)[k] by {
        let sh = (n - 1 - k) as u32;
        assert((0u32 >> sh) & 1u32 == 0u32) by (bit_vector);
    }
    assert(value_bits(0, n) =~= zeros(n));
}

/// Eight bits for each byte.
pub proof fn lemma_bytes_to_bits_len(bs: Seq<u8>)
    ensures
        bytes_to_bits(bs).len() == 8 * bs.len(),
    decreases bs.len(),
{
    if bs.len() > 0 {
        lemma_bytes_to_bits_len(bs.drop_last());
    }
}

/// Appending a byte appends its eight bits.
pub proof fn lemma_bytes_to_bits_push(bs: Seq<u8>, b: u8)
    ensures
        bytes_to_bits(bs.push(b)) == bytes_to_bits(bs) + value_bits(b as u32, 8),
{
    assert(bs.push(b).drop_last() =~= bs);
}

proof fn lemma_byte_bits_eq(x: u8, y: u8)
    requires
        value_bits(x as u32, 8) == value_bits(y as u32, 8),
    ensures
        x == y,
{
    let a = x as u32;
    let b = y as u32;
    assert(value_bits(a, 8)[0] == value_bits(b, 8)[0]);
    assert(value_bits(a, 8)[1] == value_bits(b, 8)[1]);
    assert(value_bits(a, 8)[2] == value_bits(b, 8)[2]);
    assert(value_bits(a, 8)[3] == value_bits(b, 8)[3]);
    assert(value_bits(a, 8)[4] == value_bits(b, 8)[4]);
    assert(value_bits(a, 8)[5] == value_bits(b, 8)[5]);
    assert(value_bits(a, 8)[6] == value_bits(b, 8)[6]);
    assert(value_bits(a, 8)[7] == value_bits(b, 8)[7]);
    assert(a == b) by (bit_vector)
        requires
            a < 256,
            b < 256,
            ((a >> 7u32) & 1u32 == 1u32) == ((b >> 7u32) & 1u32 == 1u32),
            ((a >> 6u32) & 1u32 == 1u32) == ((b >> 6u32) & 1u32 == 1u32),
            ((a >> 5u32) & 1u32 == 1u32) == ((b >> 5u32) & 1u32 == 1u32),
            ((a >> 4u32) & 1u32 == 1u32) == ((b >> 4u32) & 1u32 == 1u32),
            ((a >> 3u32) & 1u32 == 1u32) == ((b >> 3u32) & 1u32 == 1u32),
            ((a >> 2u32) & 1u32 == 1u32) == ((b >> 2u32) & 1u32 == 1u32),
            ((a >> 1u32) & 1u32 == 1u32) == ((b >> 1u32) & 1u32 == 1u32),
            ((a >> 0u32) & 1u32 == 1u32) == ((b >> 0u32) & 1u32 == 1u32),
    ;
}

/// Distinct byte sequences have distinct bits.
pub proof fn lemma_bytes_to_bits_injective(a: Seq<u8>, b: Seq<u8>)
    requires
        bytes_to_bits(a) == bytes_to_bits(b),
    ensures
        a == b,
    decreases a.len(),
{
    lemma_bytes_to_bits_len(a);
    lemma_bytes_to_bits_len(b);
    if a.len() > 0 {
        let pa = bytes_to_bits(a.drop_last());
        let pb = bytes_to_bits(b.drop_last());
        lemma_bytes_to_bits_len(a.drop_last());
        lemma_bytes_to_bits_len(b.drop_last());
        let n = pa.len() as int;
        assert(pa =~= bytes_to_bits(a).subrange(0, n));
        assert(pb =~= bytes_to_bits(b).subrange(0, n));
        assert(value_bits(a.last() as u32, 8) =~= bytes_to_bits(a).subrange(n, n + 8));
        assert(value_bits(b.last() as u32, 8) =~= bytes_to_bits(b).subrange(n, n + 8));
        lemma_bytes_to_bits_injective(a.drop_last(), b.drop_last());
        lemma_byte_bits_eq(a.last(), b.last());
        assert(a =~= a.drop_last().push(a.last()));
        assert(b =~= b.drop_last().push(b.last()));
    } else {
        assert(a =~= b);
    }
}

/// A bound on lengths, far below what `BitVec` can hold on any target.
pub const MAX_BITS: usize = 0x1000_0000;

/// Relies on `BitVec::new`: an empty vector.
#[verifier::external_body]
fn bits_new() -> (r: BitStream)
    ensures
        bits_of(r) == Seq::<bool>::empty(),
{
    BitStream { inner: BitVec::new() }
}

/// Relies on `BitVec::push`: appends one bit at the end.
#[verifier::external_body]
fn bits_push(b: &mut BitStream, v: bool)
    requires
        bits_of(*old(b)).len() < MAX_BITS,
    ensures
        bits_of(*final(b)) == bits_of(*old(b)).push(v),
{
    b.inner.push(v)
}

/// Relies on `BitSlice::len`: the number of bits.
#[verifier::external_body]
fn bits_len(b: &BitStream) -> (r: usize)
    ensures
        r == bits_of(*b).len(),
{
    b.inner.len()
}

/// Relies on `Index<usize>` of `BitVec`: the bit at a position.
#[verifier::external_body]
fn bits_get(b: &BitStream, i: usize) -> (r: bool)
    requires
        i < bits_of(*b).len(),
    ensures
        r == bits_of(*b)[i as int],
{
    b.inner[i]
}

/// Relies on `BitVec::from_vec`: the bits of the bytes in order, each byte
/// most significant bit first (the `Msb0` order).
#[verifier::external_body]
fn bits_from_bytes(v: Vec<u8>) -> (r: BitStream)
    requires
        v@.len() < MAX_BITS / 8,
    ensures
        bits_of(r) == bytes_to_bits(v@),
{
    BitStream { inner: BitVec::from_vec(v) }
}

proof fn lemma_shift_in(b: u32, c: u32, j: u32)
    requires
        b >> j == 0,
        c <= 1,
        j < 8,
    ensures
        ((b << 1u32) | c) >> (j + 1) as u32 == 0,
        ((b << 1u32) | c) & 1u32 == c,
        (((b << 1u32) | c) >> 0u32) & 1u32 == c,
{
    assert(((b << 1u32) | c) >> (j + 1) as u32 == 0) by (bit_vector)
        requires
            b >> j == 0,
            c <= 1,
            j < 8,
    ;
    assert(((b << 1u32) | c) & 1u32 == c) by (bit_vector)
        requires
            c <= 1,
    ;
    assert((((b << 1u32) | c) >> 0u32) & 1u32 == c) by (bit_vector)
        requires
            c <= 1,
    ;
}

proof fn lemma_shift_keep(b: u32, c: u32, e: u32)
    requires
        c <= 1,
        e < 8,
    ensures
        (((b << 1u32) | c) >> (e + 1) as u32) & 1u32 == (b >> e) & 1u32,
{
    assert((((b << 1u32) | c) >> (e + 1) as u32) & 1u32 == (b >> e) & 1u32) by (bit_vector)
        requires
            c <= 1,
            e < 8,
    ;
}

proof fn lemma_byte_bound(b: u32)
    requires
        b >> 8u32 == 0,
    ensures
        b < 256,
{
    assert(b < 256) by (bit_vector)
        requires
            b >> 8u32 == 0,
    ;
}

impl BitStream {
    /// An empty stream.
    pub fn new() -> (r: BitStream)
        ensures
            r@ == Seq::<bool>::empty(),
    {
        bits_new()
    }

    /// Appends one bit.
    pub fn push(&mut self, v: bool)
        requires
            old(self)@.len() < MAX_BITS,
        ensures
            final(self)@ == old(self)@.push(v),
    {
        bits_push(self, v)
    }

    /// The number of bits.
    pub fn len(&self) -> (r: usize)
        ensures
            r == self@.len(),
    {
        bits_len(self)
    }

    /// The bit at position `i`.
    pub fn get(&self, i: usize) -> (r: bool)
        requires
            i < self@.len(),
        ensures
            r == self@[i as int],
    {
        bits_get(self, i)
    }

    /// A stream of the bits of `v`, each byte most significant bit first.
    pub fn from_bytes(v: Vec<u8>) -> (r: BitStream)
        requires
            v@.len() < MAX_BITS / 8,
        ensures
            r@ == bytes_to_bits(v@),
    {
        bits_from_bytes(v)
    }

    /// The bytes of a stream whose length is a whole number of bytes.
    pub fn to_bytes(&self) -> (r: Vec<u8>)
        requires
            self@.len() % 8 == 0,
        ensures
            r@.len() == self@.len() / 8,
            bytes_to_bits(r@) == self@,
    {
        let len = self.len();
        let n = len / 8;
        let mut r: Vec<u8> = Vec::new();
        let mut k: usize = 0;
        while k < n
            invariant
                len == self@.len(),
                n == self@.len() / 8,
                self@.len() % 8 == 0,
                k <= n,
                r@.len() == k,
                bytes_to_bits(r@) == self@.subrange(0, 8 * k),
            decreases n - k,
        {
            let mut b: u32 = 0;
            let mut j: usize = 0;
            assert(0u32 >> 0u32 == 0u32) by (bit_vector);
            while j < 8
                invariant
                    k < n,
                    len == self@.len(),
                    self@.len() % 8 == 0,
                    n == self@.len() / 8,
                    j <= 8,
                    b >> (j as u32) == 0,
                    forall|m: int|
                        0 <= m < j ==> ((b >> ((j - 1 - m) as u32)) & 1u32 == 1u32) == #[trigger] self@[8
                            * k + m],
                decreases 8 - j,
            {
                let bit = self.get(8 * k + j);
                let c: u32 = if bit {
                    1
                } else {
                    0
                };
                proof {
                    lemma_shift_in(b, c, j as u32);
                    let b2 = (b << 1u32) | c;
                    assert forall|m: int| 0 <= m < j + 1 implies ((b2 >> ((j + 1 - 1 - m) as u32))
                        & 1u32 == 1u32) == #[trigger] self@[8 * k + m] by {
                        if m < j {
                            lemma_shift_keep(b, c, (j - 1 - m) as u32);
                        }
                    }
                }
                b = (b << 1u32) | c;
                j = j + 1;
            }
            proof {
                lemma_byte_bound(b);
            }
            let byte = b as u8;
            proof {
                assert(byte as u32 == b);
                lemma_bytes_to_bits_push(r@, byte);
                assert forall|m: int| 0 <= m < 8 implies #[trigger] value_bits(byte as u32, 8)[m]
                    == self@.subrange(8 * k, 8 * k + 8)[m] by {
                    assert(self@.subrange(8 * k, 8 * k + 8)[m] == self@[8 * k + m]);
                    assert(((8 - 1 - m) as u32) == ((j - 1 - m) as u32));
                }
                assert(value_bits(byte as u32, 8) =~= self@.subrange(8 * k, 8 * k + 8));
                assert(self@.subrange(0, 8 * k) + self@.subrange(8 * k, 8 * k + 8) =~= self@.subrange(
                    0,
                    8 * k + 8,
                ));
            }
            r.push(byte);
            k = k + 1;
        }
        assert(self@.subrange(0, 8 * k) =~= self@);
        r
    }

    /// Appends all bits of `other`.
    pub fn extend_from(&mut self, other: &BitStream)
        requires
            old(self)@.len() + other@.len() < MAX_BITS,
        ensures
            final(self)@ == old(self)@ + other@,
    {
        let ghost start = self@;
        let n = other.len();
        let mut i: usize = 0;
        while i < n
            invariant
                n == other@.len(),
                i <= n,
                start.len() + n < MAX_BITS,
                self@ == start + other@.subrange(0, i as int),
            decreases n - i,
        {
            self.push(other.get(i));
            i = i + 1;
            assert(self@ =~= start + other@.subrange(0, i as int));
        }
        assert(other@.subrange(0, i as int) =~= other@);
    }
}

} // verus!
