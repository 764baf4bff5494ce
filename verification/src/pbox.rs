//! The 64-bit permutation layer of PRESENT and its inverse.

use vstd::prelude::*;

verus! {

/// Where the forward permutation sends bit position `i`:
/// `P(i) = (i mod 4) * 16 + i div 4`, written with bit operations so that it
/// can be unfolded inside bit-vector proofs.
pub open spec fn spec_p_enc(i: u64) -> u64
    recommends
        i < 64,
{
    ((i & 3) << 4) | (i >> 2)
}

/// Where the inverse permutation sends bit position `j`:
/// `P_inv(j) = j div 16 + (j mod 16) * 4`.
pub open spec fn spec_p_dec(i: u64) -> u64
    recommends
        i < 64,
{
    (i >> 4) | ((i & 15) << 2)
}

/// `spec_p_enc` and `spec_p_dec` agree with the arithmetic formulas of the
/// cipher's definition, and are mutually inverse permutations of `0..64`.
pub proof fn lemma_p_positions(i: u64)
    requires
        i < 64,
    ensures
        spec_p_enc(i) == (i % 4) * 16 + i / 4,
        spec_p_dec(i) == i / 16 + (i % 16) * 4,
        spec_p_enc(i) < 64,
        spec_p_dec(i) < 64,
        spec_p_dec(spec_p_enc(i)) == i,
        spec_p_enc(spec_p_dec(i)) == i,
{
    assert(spec_p_enc(i) == (i % 4) * 16 + i / 4) by (bit_vector)
        requires
            i < 64,
    ;
    assert(spec_p_dec(i) == i / 16 + (i % 16) * 4) by (bit_vector)
        requires
            i < 64,
    ;
    assert(spec_p_enc(i) < 64 && spec_p_dec(i) < 64 && spec_p_dec(spec_p_enc(i)) == i
        && spec_p_enc(spec_p_dec(i)) == i) by (bit_vector)
        requires
            i < 64,
    ;
}

/// The state with every bit moved to its image position: bit `i` of `x`
/// becomes bit `spec_p_enc(i)` of the result, for the lowest `n` positions.
pub open spec fn spec_p_layer_enc_rec(x: u64, n: u64) -> u64
    decreases n,
{
    if n == 0 {
        0
    } else {
        spec_p_layer_enc_rec(x, (n - 1) as u64) | (((x >> (n - 1) as u64) & 1) << spec_p_enc(
            (n - 1) as u64,
        ))
    }
}

/// The forward permutation layer over the whole 64-bit state.
pub open spec fn spec_p_layer_enc(x: u64) -> u64 {
    spec_p_layer_enc_rec(x, 64)
}

/// The inverse image: bit `i` of `x` becomes bit `spec_p_dec(i)` of the
/// result, for the lowest `n` positions.
pub open spec fn spec_p_layer_dec_rec(x: u64, n: u64) -> u64
    decreases n,
{
    if n == 0 {
        0
    } else {
        spec_p_layer_dec_rec(x, (n - 1) as u64) | (((x >> (n - 1) as u64) & 1) << spec_p_dec(
            (n - 1) as u64,
        ))
    }
}

/// The inverse permutation layer over the whole 64-bit state.
pub open spec fn spec_p_layer_dec(x: u64) -> u64 {
    spec_p_layer_dec_rec(x, 64)
}

/// The two permutation layers undo one another on every 64-bit state.
pub proof fn lemma_p_layer_involution(x: u64)
    ensures
        spec_p_layer_dec(spec_p_layer_enc(x)) == x,
        spec_p_layer_enc(spec_p_layer_dec(x)) == x,
{
    assert(spec_p_layer_dec_rec(spec_p_layer_enc_rec(x, 64), 64) == x) by (bit_vector);
    assert(spec_p_layer_enc_rec(spec_p_layer_dec_rec(x, 64), 64) == x) by (bit_vector);
}

/// PRESENT's bit permutation over the 64-bit state.
///
/// The permutation is a fixed bijection of the bit positions `0..64`; a value
/// of this type only gives it a home, it carries no state of its own.
pub struct PBox {}

impl PBox {
    /// Constructs the P-box.
    pub fn new() -> Self {
        PBox {  }
    }

    /// Applies the forward permutation to a 64-bit state.
    pub fn apply_enc(&self, input: u64) -> (r: u64)
        ensures
            r == spec_p_layer_enc(input),
    {
        let mut output: u64 = 0;
        let mut bit: u64 = 0;
        while bit < 64
            invariant
                bit <= 64,
                output == spec_p_layer_enc_rec(input, bit),
            decreases 64 - bit,
        {
            let target = ((bit & 3) << 4) | (bit >> 2);
            assert(target == spec_p_enc(bit));
            assert(target < 64) by (bit_vector)
                requires
                    target == ((bit & 3) << 4) | (bit >> 2) && bit < 64,
            ;
            output = output | (((input >> bit) & 1) << target);
            bit = bit + 1;
        }
        output
    }

    /// Applies the inverse permutation to a 64-bit state.
    pub fn apply_dec(&self, input: u64) -> (r: u64)
        ensures
            r == spec_p_layer_dec(input),
    {
        let mut output: u64 = 0;
        let mut bit: u64 = 0;
        while bit < 64
            invariant
                bit <= 64,
                output == spec_p_layer_dec_rec(input, bit),
            decreases 64 - bit,
        {
            let target = (bit >> 4) | ((bit & 15) << 2);
            assert(target == spec_p_dec(bit));
            assert(target < 64) by (bit_vector)
                requires
                    target == (bit >> 4) | ((bit & 15) << 2) && bit < 64,
            ;
            output = output | (((input >> bit) & 1) << target);
            bit = bit + 1;
        }
        output
    }
}

} // verus!
