//! Fixed-length bit sequences and Hamming distances.
//!
//! A hash is an ordered sequence of bits.  It is held as an explicit bit
//! vector; for configurations of at most 64 or 128 bits the packed-integer
//! forms and their distances are provided as well.

use vstd::prelude::*;
use vstd::string::StringSliceAdditionalSpecFns;

use crate::errors::LshError;

verus! {

/// Number of positions, among the first `n`, where two bit sequences
/// differ.
pub open spec fn spec_hamming_bits(a: Seq<bool>, b: Seq<bool>, n: int) -> int
    decreases n,
{
    if n <= 0 {
        0
    } else {
        spec_hamming_bits(a, b, n - 1) + if a[n - 1] != b[n - 1] {
            1int
        } else {
            0int
        }
    }
}

/// The distance of a bit sequence to itself is zero.
pub proof fn lemma_hamming_bits_self(a: Seq<bool>, n: int)
    ensures
        spec_hamming_bits(a, a, n) == 0,
    decreases n,
{
    if n > 0 {
        lemma_hamming_bits_self(a, n - 1);
    }
}

/// The distance never exceeds the number of compared positions.
pub proof fn lemma_hamming_bits_bound(a: Seq<bool>, b: Seq<bool>, n: int)
    requires
        n >= 0,
    ensures
        0 <= spec_hamming_bits(a, b, n) <= n,
    decreases n,
{
    if n > 0 {
        lemma_hamming_bits_bound(a, b, n - 1);
    }
}

/// An ordered, fixed-length sequence of hash bits.
#[derive(Debug)]
pub struct BitString {
    /// The bits, index 0 first.
    bits: Vec<bool>,
}

impl View for BitString {
    type V = Seq<bool>;

    closed spec fn view(&self) -> Seq<bool> {
        self.bits@
    }
}

impl BitString {
    /// The empty bit string.
    pub fn new() -> (r: BitString)
        ensures
            r@ == Seq::<bool>::empty(),
    {
        BitString { bits: Vec::new() }
    }

    /// Wrap an explicit bit vector.
    pub fn from_bits(bits: Vec<bool>) -> (r: BitString)
        ensures
            r@ == bits@,
    {
        BitString { bits }
    }

    /// Append one bit.
    pub fn push(&mut self, bit: bool)
        ensures
            final(self)@ == old(self)@.push(bit),
    {
        self.bits.push(bit);
    }

    /// Number of bits.
    pub fn len(&self) -> (r: usize)
        ensures
            r == self@.len(),
    {
        self.bits.len()
    }

    /// The bit at a position.
    pub fn bit_at(&self, i: usize) -> (r: bool)
        requires
            i < self@.len(),
        ensures
            r == self@[i as int],
    {
        self.bits[i]
    }

    /// A copy of the bits as a plain vector.
    pub fn to_bits(&self) -> (r: Vec<bool>)
        ensures
            r@ == self@,
    {
        let mut out: Vec<bool> = Vec::new();
        let n = self.bits.len();
        let mut i: usize = 0;
        while i < n
            invariant
                0 <= i <= n == self@.len(),
                out@ == self@.take(i as int),
            decreases n - i,
        {
            out.push(self.bits[i]);
            proof {
                assert(out@ =~= self@.take(i + 1));
            }
            i = i + 1;
        }
        proof {
            assert(out@ =~= self@);
        }
        out
    }

    /// Hamming distance to another bit string of the same length; fails
    /// with `LengthMismatch` exactly when the lengths differ (or exceed
    /// the `u32` count range).
    pub fn distance(&self, other: &BitString) -> (r: Result<u32, LshError>)
        ensures
            r is Ok <==> self@.len() == other@.len() && self@.len() <= u32::MAX,
            r is Ok ==> r->Ok_0 == spec_hamming_bits(self@, other@, self@.len() as int),
            r is Err ==> r->Err_0 == LshError::LengthMismatch,
    {
        let n = self.bits.len();
        if n != other.bits.len() {
            return Err(LshError::LengthMismatch);
        }
        if n > u32::MAX as usize {
            return Err(LshError::LengthMismatch);
        }
        proof {
            lemma_hamming_bits_bound(self@, other@, n as int);
        }
        let mut count: u32 = 0;
        let mut i: usize = 0;
        while i < n
            invariant
                0 <= i <= n == self@.len(),
                n == other@.len(),
                n <= u32::MAX,
                count == spec_hamming_bits(self@, other@, i as int),
                count <= i,
            decreases n - i,
        {
            if self.bits[i] != other.bits[i] {
                count = count + 1;
            }
            i = i + 1;
        }
        Ok(count)
    }
}

/// Number of bit positions, among the low `n`, where two words differ.
pub open spec fn spec_hamming_u64(a: u64, b: u64, n: int) -> int
    decreases n,
{
    if n <= 0 {
        0
    } else {
        spec_hamming_u64(a, b, n - 1) + if (a >> (n - 1) as u64) & 1 != (b >> (n - 1) as u64)
            & 1 {
            1int
        } else {
            0int
        }
    }
}

/// The distance of a word to itself is zero.
pub proof fn lemma_hamming_u64_self(a: u64, n: int)
    ensures
        spec_hamming_u64(a, a, n) == 0,
    decreases n,
{
    if n > 0 {
        lemma_hamming_u64_self(a, n - 1);
    }
}

/// Number of bit positions, among the low `n`, where two 128-bit words
/// differ.
pub open spec fn spec_hamming_u128(a: u128, b: u128, n: int) -> int
    decreases n,
{
    if n <= 0 {
        0
    } else {
        spec_hamming_u128(a, b, n - 1) + if (a >> (n - 1) as u128) & 1 != (b >> (n - 1) as u128)
            & 1 {
            1int
        } else {
            0int
        }
    }
}

/// The distance of a 128-bit word to itself is zero.
pub proof fn lemma_hamming_u128_self(a: u128, n: int)
    ensures
        spec_hamming_u128(a, a, n) == 0,
    decreases n,
{
    if n > 0 {
        lemma_hamming_u128_self(a, n - 1);
    }
}

/// Hamming distance between two 64-bit packed hashes.
pub fn hamming_distance(a: u64, b: u64) -> (r: u32)
    ensures
        r == spec_hamming_u64(a, b, 64),
{
    let mut count: u32 = 0;
    let mut i: u32 = 0;
    while i < 64
        invariant
            0 <= i <= 64,
            count == spec_hamming_u64(a, b, i as int),
            count <= i,
        decreases 64 - i,
    {
        if (a >> i as u64) & 1 != (b >> i as u64) & 1 {
            count = count + 1;
        }
        i = i + 1;
    }
    count
}

/// Hamming distance between two 128-bit packed hashes.
pub fn hamming_distance_128(a: u128, b: u128) -> (r: u32)
    ensures
        r == spec_hamming_u128(a, b, 128),
{
    let mut count: u32 = 0;
    let mut i: u32 = 0;
    while i < 128
        invariant
            0 <= i <= 128,
            count == spec_hamming_u128(a, b, i as int),
            count <= i,
        decreases 128 - i,
    {
        if (a >> i as u128) & 1 != (b >> i as u128) & 1 {
            count = count + 1;
        }
        i = i + 1;
    }
    count
}

/// Number of positions, among the first `n`, where two byte sequences
/// differ.
pub open spec fn spec_hamming_bytes(a: Seq<u8>, b: Seq<u8>, n: int) -> int
    decreases n,
{
    if n <= 0 {
        0
    } else {
        spec_hamming_bytes(a, b, n - 1) + if a[n - 1] != b[n - 1] {
            1int
        } else {
            0int
        }
    }
}

/// The distance of a byte sequence to itself is zero.
pub proof fn lemma_hamming_bytes_self(a: Seq<u8>, n: int)
    ensures
        spec_hamming_bytes(a, a, n) == 0,
    decreases n,
{
    if n > 0 {
        lemma_hamming_bytes_self(a, n - 1);
    }
}

/// The distance never exceeds the number of compared positions.
pub proof fn lemma_hamming_bytes_bound(a: Seq<u8>, b: Seq<u8>, n: int)
    requires
        n >= 0,
    ensures
        0 <= spec_hamming_bytes(a, b, n) <= n,
    decreases n,
{
    if n > 0 {
        lemma_hamming_bytes_bound(a, b, n - 1);
    }
}

/// Hamming distance between two textual hashes, compared byte by byte;
/// fails with `LengthMismatch` exactly when their byte lengths differ (or
/// exceed the `u32` count range).  Hash text is ASCII (`'0'`/`'1'`), where
/// bytes and characters coincide position by position.
pub fn hamming_distance_string(a: &str, b: &str) -> (r: Result<u32, LshError>)
    ensures
        r is Ok <==> a.spec_bytes().len() == b.spec_bytes().len() && a.spec_bytes().len()
            <= u32::MAX,
        r is Ok ==> r->Ok_0 == spec_hamming_bytes(
            a.spec_bytes(),
            b.spec_bytes(),
            a.spec_bytes().len() as int,
        ),
        r is Err ==> r->Err_0 == LshError::LengthMismatch,
{
    let ab = a.as_bytes();
    let bb = b.as_bytes();
    let n = ab.len();
    if n != bb.len() {
        return Err(LshError::LengthMismatch);
    }
    if n > u32::MAX as usize {
        return Err(LshError::LengthMismatch);
    }
    proof {
        lemma_hamming_bytes_bound(ab@, bb@, n as int);
    }
    let mut count: u32 = 0;
    let mut i: usize = 0;
    while i < n
        invariant
            0 <= i <= n == ab@.len(),
            n == bb@.len(),
            n <= u32::MAX,
            ab@ == a.spec_bytes(),
            bb@ == b.spec_bytes(),
            count == spec_hamming_bytes(ab@, bb@, i as int),
            count <= i,
        decreases n - i,
    {
        if ab[i] != bb[i] {
            count = count + 1;
        }
        i = i + 1;
    }
    Ok(count)
}

} // verus!
