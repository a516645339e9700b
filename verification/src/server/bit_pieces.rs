use vstd::prelude::*;
use crate::common::bits::{Bits, bits_of, lsb0_bits, bits_fit, bits_of_bytes, bitvec_len, bitvec_range};

verus! {

/// Number of bits in a piece of a compressed mesh.
pub const PIECE_BITS: usize = 8000;

/// Number of pieces of at most `PIECE_BITS` bits that hold `len` bits.
pub open spec fn piece_count(len: int) -> int {
    (len + 7999) / 8000
}

/// Piece `i` of `bits`: bits `8000 * i` up to `8000 * (i + 1)` or the end.
pub open spec fn piece(bits: Seq<bool>, i: int) -> Seq<bool> {
    let end = if 8000 * (i + 1) < bits.len() { 8000 * (i + 1) } else { bits.len() as int };
    bits.subrange(8000 * i, end)
}

/// The bits of `data`, least significant first within each byte, cut into
/// consecutive pieces of `PIECE_BITS` bits, the last one shorter.
pub fn bit_pieces(data: &Vec<u8>) -> (pieces: Vec<Bits>)
    requires
        bits_fit(data@.len()),
    ensures
        pieces@.len() == piece_count(8 * data@.len() as int),
        forall|i: int| 0 <= i < pieces@.len() ==> bits_of(#[trigger] pieces@[i]) == piece(lsb0_bits(data@), i),
{
    let bits = bits_of_bytes(data);
    let len = bitvec_len(&bits);
    let ghost all = bits_of(bits);
    let mut pieces: Vec<Bits> = Vec::new();
    let mut start: usize = 0;
    while start < len
        invariant
            all == bits_of(bits),
            len == all.len(),
            all == lsb0_bits(data@),
            start <= len,
            start < len ==> start == 8000 * pieces@.len(),
            start < len ==> pieces@.len() < piece_count(len as int),
            start >= len ==> pieces@.len() == piece_count(len as int),
            forall|i: int| 0 <= i < pieces@.len() ==> bits_of(#[trigger] pieces@[i]) == piece(all, i),
        decreases len - start,
    {
        let end = if len - start > PIECE_BITS { start + PIECE_BITS } else { len };
        let ghost k = pieces@.len() as int;
        let p = bitvec_range(&bits, start, end);
        assert(bits_of(p) == piece(all, k));
        pieces.push(p);
        start = end;
        proof {
            let n = len as int;
            if start < n {
                assert(start == 8000 * (k + 1));
                assert(piece_count(n) > k + 1) by (nonlinear_arith)
                    requires
                        8000 * (k + 1) < n,
                        piece_count(n) == (n + 7999) / 8000,
                ;
            } else {
                assert(piece_count(n) == k + 1) by (nonlinear_arith)
                    requires
                        8000 * k < n,
                        n <= 8000 * (k + 1),
                        piece_count(n) == (n + 7999) / 8000,
                ;
            }
        }
    }
    proof {
        if len == 0 {
            assert(piece_count(0) == 0);
        }
    }
    pieces
}

} // verus!
