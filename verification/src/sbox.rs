//! The 4-bit substitution box of PRESENT and its inverse.

use vstd::prelude::*;

verus! {

/// The forward S-box: the fixed 4-bit permutation
/// `[C, 5, 6, B, 9, 0, A, D, 3, E, F, 8, 4, 7, 1, 2]`,
/// indexed by an input nibble in `0..16`.
pub open spec fn spec_sbox_enc(n: u8) -> u8
    recommends
        n < 16,
{
    if n == 0 {
        0xC
    } else if n == 1 {
        0x5
    } else if n == 2 {
        0x6
    } else if n == 3 {
        0xB
    } else if n == 4 {
        0x9
    } else if n == 5 {
        0x0
    } else if n == 6 {
        0xA
    } else if n == 7 {
        0xD
    } else if n == 8 {
        0x3
    } else if n == 9 {
        0xE
    } else if n == 10 {
        0xF
    } else if n == 11 {
        0x8
    } else if n == 12 {
        0x4
    } else if n == 13 {
        0x7
    } else if n == 14 {
        0x1
    } else {
        0x2
    }
}

/// The inverse S-box: the fixed 4-bit permutation
/// `[5, E, F, 8, C, 1, 2, D, B, 4, 6, 3, 0, 7, 9, A]`,
/// indexed by an input nibble in `0..16`.
pub open spec fn spec_sbox_dec(n: u8) -> u8
    recommends
        n < 16,
{
    if n == 0 {
        0x5
    } else if n == 1 {
        0xE
    } else if n == 2 {
        0xF
    } else if n == 3 {
        0x8
    } else if n == 4 {
        0xC
    } else if n == 5 {
        0x1
    } else if n == 6 {
        0x2
    } else if n == 7 {
        0xD
    } else if n == 8 {
        0xB
    } else if n == 9 {
        0x4
    } else if n == 10 {
        0x6
    } else if n == 11 {
        0x3
    } else if n == 12 {
        0x0
    } else if n == 13 {
        0x7
    } else if n == 14 {
        0x9
    } else {
        0xA
    }
}

/// The two tables are mutual inverses on the nibble range `0..16`, and both
/// stay within that range.
pub proof fn lemma_sbox_involution()
    ensures
        forall|n: u8| n < 16 ==> #[trigger] spec_sbox_dec(spec_sbox_enc(n)) == n,
        forall|n: u8| n < 16 ==> #[trigger] spec_sbox_enc(spec_sbox_dec(n)) == n,
        forall|n: u8| n < 16 ==> #[trigger] spec_sbox_enc(n) < 16,
        forall|n: u8| n < 16 ==> #[trigger] spec_sbox_dec(n) < 16,
{
}

/// PRESENT's substitution box over nibbles.
///
/// The tables are fixed permutations of `0..16`; a value of this type only
/// gives them a home, it carries no state of its own.
pub struct SBox {}

impl SBox {
    /// Constructs the S-box.
    pub fn new() -> Self {
        SBox {  }
    }

    /// Sends a nibble through the forward S-box.
    ///
    /// An input outside `0..16` is a caller bug, ruled out by contract.
    pub fn apply_enc(&self, input: u8) -> (r: u8)
        requires
            input < 16,
        ensures
            r == spec_sbox_enc(input),
            r < 16,
    {
        if input == 0 {
            0xC
        } else if input == 1 {
            0x5
        } else if input == 2 {
            0x6
        } else if input == 3 {
            0xB
        } else if input == 4 {
            0x9
        } else if input == 5 {
            0x0
        } else if input == 6 {
            0xA
        } else if input == 7 {
            0xD
        } else if input == 8 {
            0x3
        } else if input == 9 {
            0xE
        } else if input == 10 {
            0xF
        } else if input == 11 {
            0x8
        } else if input == 12 {
            0x4
        } else if input == 13 {
            0x7
        } else if input == 14 {
            0x1
        } else {
            0x2
        }
    }

    /// Sends a nibble through the inverse S-box.
    ///
    /// An input outside `0..16` is a caller bug, ruled out by contract.
    pub fn apply_dec(&self, input: u8) -> (r: u8)
        requires
            input < 16,
        ensures
            r == spec_sbox_dec(input),
            r < 16,
    {
        if input == 0 {
            0x5
        } else if input == 1 {
            0xE
        } else if input == 2 {
            0xF
        } else if input == 3 {
            0x8
        } else if input == 4 {
            0xC
        } else if input == 5 {
            0x1
        } else if input == 6 {
            0x2
        } else if input == 7 {
            0xD
        } else if input == 8 {
            0xB
        } else if input == 9 {
            0x4
        } else if input == 10 {
            0x6
        } else if input == 11 {
            0x3
        } else if input == 12 {
            0x0
        } else if input == 13 {
            0x7
        } else if input == 14 {
            0x9
        } else {
            0xA
        }
    }
}

} // verus!
