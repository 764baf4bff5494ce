//! Block cipher modes of operation and the random-IV source.

use crate::block::Block;
use vstd::prelude::*;

verus! {

/// Enum representing block cipher modes of operation.
pub enum OpMode {
    /// Electronic Code Book (unsafe).  Does not require an initialization
    /// vector.
    ECB,
    /// Cipher Block Chaining.  Requires an initialization vector.
    CBC,
}

/// Generates a random initialization vector using a random number generator
/// provided by the operating system.
///
/// Relies on `rand::rngs::OsRng` (through `RngCore::next_u64`) for a fresh
/// 64-bit value from the operating system's secure generator.  Nothing is
/// promised of the value; a failure of the operating system's generator
/// aborts, which no input can provoke.
#[verifier::external_body]
pub fn random_iv() -> Block {
    Block::new(rand::RngCore::next_u64(&mut rand::rngs::OsRng))
}

} // verus!
