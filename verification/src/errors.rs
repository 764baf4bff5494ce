//! The closed set of decryption failures.

use vstd::prelude::*;

verus! {

/// Error type describing string decryption errors.
#[derive(Debug, PartialEq, Eq, Structural)]
pub enum DecryptError {
    /// The decrypted bytes cannot be converted to a valid UTF-8-encoded
    /// string.
    Utf8Error,
    /// The ciphertext length is not a multiple of the block size; carries
    /// the length of the given ciphertext.
    CiphertextNotAligned(usize),
    /// The ciphertext is shorter than one block; carries the length of the
    /// given ciphertext.
    CiphertextTooShort(usize),
    /// The padding bytes at the end of the decrypted string are invalid or
    /// corrupted.
    InvalidPadding,
    /// An operation mode that needs an initialization vector was used for
    /// decryption without one.
    InitVecMissing,
}

} // verus!
