use vstd::prelude::*;
use bitvec::order::Lsb0;
use bitvec::vec::BitVec;

verus! {

/// A bit-vector of `bitvec` over bytes, bits in `Lsb0` order; opaque to proofs, which
/// see its bits through `bits_of`.
#[verifier::external_body]
pub struct Bits {
    bits: BitVec<u8, Lsb0>,
}

/// The bits a bit-vector holds, in order.
pub uninterp spec fn bits_of(v: Bits) -> Seq<bool>;

/// The bits of `data`, each byte from its least significant bit up.
pub open spec fn lsb0_bits(data: Seq<u8>) -> Seq<bool> {
    Seq::new(8 * data.len(), |i: int| (data[i / 8] >> ((i % 8) as u8)) & 1 == 1)
}

/// `len` bytes are few enough for a bit-vector to address all their bits (it
/// addresses fewer than `usize::MAX / 8` bits).
pub open spec fn bits_fit(len: nat) -> bool {
    8 * len <= usize::MAX / 16
}

/// `BitVec::from_slice`: a new bit-vector covering every bit of `data`, each byte
/// least significant bit first (`Lsb0`). It panics only on slices too long to
/// address, which `bits_fit` leaves out.
#[verifier::external_body]
pub(crate) fn bits_of_bytes(data: &Vec<u8>) -> (b: Bits)
    requires
        bits_fit(data@.len()),
    ensures
        bits_of(b) == lsb0_bits(data@),
{
    Bits { bits: BitVec::<u8, Lsb0>::from_slice(data.as_slice()) }
}

/// `BitVec::len`: the number of bits held.
#[verifier::external_body]
pub(crate) fn bitvec_len(b: &Bits) -> (n: usize)
    ensures
        n == bits_of(*b).len(),
{
    b.bits.len()
}

/// `b[start..end].to_bitvec()`: a new bit-vector of the bits `start..end` of `b`.
#[verifier::external_body]
pub(crate) fn bitvec_range(b: &Bits, start: usize, end: usize) -> (r: Bits)
    requires
        start <= end <= bits_of(*b).len(),
    ensures
        bits_of(r) == bits_of(*b).subrange(start as int, end as int),
{
    Bits { bits: b.bits[start..end].to_bitvec() }
}

/// `b.bits[i]`: the bit at index `i`.
#[verifier::external_body]
fn bitvec_get(b: &Bits, i: usize) -> (bit: bool)
    requires
        i < bits_of(*b).len(),
    ensures
        bit == bits_of(*b)[i as int],
{
    b.bits[i]
}

impl Bits {
    /// The number of bits held.
    pub fn len(&self) -> (n: usize)
        ensures
            n == bits_of(*self).len(),
    {
        bitvec_len(self)
    }

    /// The bit at index `i`.
    pub fn get(&self, i: usize) -> (bit: bool)
        requires
            i < bits_of(*self).len(),
        ensures
            bit == bits_of(*self)[i as int],
    {
        bitvec_get(self, i)
    }
}

} // verus!
