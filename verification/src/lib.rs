//! The PRESENT lightweight block cipher (Bogdanov et al., CHES 2007).
//!
//! The core is a 31-round substitution-permutation network over a 64-bit
//! state, with key schedules for 80-bit and 128-bit master keys.  On top of
//! the block engine sit the ECB and CBC modes of operation together with
//! PKCS-style padding, so that byte strings of arbitrary length can be
//! encrypted and decrypted.

mod block;
mod errors;
mod keys;
mod modes;
mod pbox;
mod sbox;

pub use crate::block::Block;
pub use crate::errors::DecryptError;
pub use crate::keys::{Key, Key128Bit, Key80Bit, RoundKey};
pub use crate::modes::{random_iv, OpMode};
pub use crate::pbox::PBox;
pub use crate::sbox::SBox;

use crate::block::{spec_be64, spec_block_bytes, spec_decrypt_block, spec_encrypt_block};
use vstd::prelude::*;
use vstd::utf8::{decode_utf8, encode_utf8, valid_utf8};

verus! {

/// How many padding bytes a plaintext of length `l` receives: enough to
/// reach the next multiple of eight, and a full block of eight when the
/// length is already a multiple of eight.
pub open spec fn spec_pad_len(l: nat) -> nat {
    (8 - l % 8) as nat
}

/// The plaintext with its PKCS-style padding appended: `spec_pad_len`
/// bytes, each holding that count.
pub open spec fn spec_padded(p: Seq<u8>) -> Seq<u8> {
    p + Seq::new(spec_pad_len(p.len()), |i: int| spec_pad_len(p.len()) as u8)
}

/// Whether the final block of a decryption carries well-formed padding: its
/// last byte `p` must lie in `1..=8` and the last `p` bytes must all
/// equal `p`.
pub open spec fn spec_pad_ok(b: Seq<u8>) -> bool
    recommends
        b.len() == 8,
{
    &&& 1 <= b[7] <= 8
    &&& forall|i: int| 8 - b[7] <= i < 8 ==> #[trigger] b[i] == b[7]
}

/// The decrypted byte string with its padding verified and removed, or
/// nothing when the padding is invalid.
pub open spec fn spec_unpad(p: Seq<u8>) -> Option<Seq<u8>>
    recommends
        p.len() >= 8 && p.len() % 8 == 0,
{
    if spec_pad_ok(p.skip(p.len() - 8)) {
        Some(p.take(p.len() - p[p.len() - 1]))
    } else {
        None
    }
}

/// ECB encryption of a byte string that is a multiple of eight bytes long:
/// every block is loaded big-endian, encrypted, and stored big-endian.
pub open spec fn spec_ecb_encrypt(p: Seq<u8>, ks: Seq<u64>) -> Seq<u8>
    decreases p.len(),
{
    if p.len() < 8 {
        Seq::empty()
    } else {
        spec_block_bytes(spec_encrypt_block(spec_be64(p), ks)) + spec_ecb_encrypt(p.skip(8), ks)
    }
}

/// ECB decryption: the mirror of `spec_ecb_encrypt`.
pub open spec fn spec_ecb_decrypt(c: Seq<u8>, ks: Seq<u64>) -> Seq<u8>
    decreases c.len(),
{
    if c.len() < 8 {
        Seq::empty()
    } else {
        spec_block_bytes(spec_decrypt_block(spec_be64(c), ks)) + spec_ecb_decrypt(c.skip(8), ks)
    }
}

/// CBC encryption with the previous ciphertext block `prev` (the
/// initialization vector for the first block): each plaintext block is
/// XORed with the previous ciphertext block before encryption.
pub open spec fn spec_cbc_encrypt(p: Seq<u8>, ks: Seq<u64>, prev: u64) -> Seq<u8>
    decreases p.len(),
{
    if p.len() < 8 {
        Seq::empty()
    } else {
        let c0 = spec_encrypt_block(spec_be64(p) ^ prev, ks);
        spec_block_bytes(c0) + spec_cbc_encrypt(p.skip(8), ks, c0)
    }
}

/// CBC decryption with the previous ciphertext block `prev`: each block is
/// decrypted and then XORed with the previous ciphertext block.
pub open spec fn spec_cbc_decrypt(c: Seq<u8>, ks: Seq<u64>, prev: u64) -> Seq<u8>
    decreases c.len(),
{
    if c.len() < 8 {
        Seq::empty()
    } else {
        spec_block_bytes(spec_decrypt_block(spec_be64(c), ks) ^ prev) + spec_cbc_decrypt(
            c.skip(8),
            ks,
            spec_be64(c),
        )
    }
}

/// The bytes of a sequence of blocks, in order, each block stored
/// big-endian.
pub open spec fn spec_blocks_bytes(blocks: Seq<Block>) -> Seq<u8>
    decreases blocks.len(),
{
    if blocks.len() == 0 {
        Seq::empty()
    } else {
        spec_block_bytes(blocks[0]@) + spec_blocks_bytes(blocks.drop_first())
    }
}

proof fn lemma_blocks_bytes_snoc(blocks: Seq<Block>, b: Block)
    ensures
        spec_blocks_bytes(blocks.push(b)) == spec_blocks_bytes(blocks) + spec_block_bytes(b@),
    decreases blocks.len(),
{
    if blocks.len() == 0 {
        let e = Seq::<Block>::empty();
        assert(spec_blocks_bytes(e) == Seq::<u8>::empty());
        assert(blocks.push(b).drop_first() =~= e);
        assert(blocks.push(b)[0] == b);
        assert(spec_blocks_bytes(blocks.push(b)) == spec_block_bytes(b@) + spec_blocks_bytes(e));
        assert(spec_block_bytes(b@) + Seq::<u8>::empty() =~= Seq::<u8>::empty() + spec_block_bytes(
            b@,
        ));
    } else {
        assert(blocks.push(b).drop_first() =~= blocks.drop_first().push(b));
        lemma_blocks_bytes_snoc(blocks.drop_first(), b);
        assert(spec_blocks_bytes(blocks.push(b)) == spec_block_bytes(blocks[0]@) + (
        spec_blocks_bytes(blocks.drop_first()) + spec_block_bytes(b@)));
        assert(spec_block_bytes(blocks[0]@) + (spec_blocks_bytes(blocks.drop_first())
            + spec_block_bytes(b@)) =~= (spec_block_bytes(blocks[0]@) + spec_blocks_bytes(
            blocks.drop_first(),
        )) + spec_block_bytes(b@));
    }
}

/// Appends PKCS-style padding to the final, possibly partial, block.
///
/// With `pad_len` bytes of padding to add, the last `pad_len` bytes of the
/// block are each set to `pad_len`.  A padding length over eight would be a
/// caller bug, ruled out by contract.
pub fn add_padding(current_bytes: &mut [u8; 8], pad_len: usize)
    requires
        1 <= pad_len <= 8,
    ensures
        final(current_bytes)@ == old(current_bytes)@.take(8 - pad_len as int) + Seq::new(
            pad_len as nat,
            |i: int| pad_len as u8,
        ),
{
    let mut i: usize = 8 - pad_len;
    while i < 8
        invariant
            1 <= pad_len <= 8,
            8 - pad_len <= i <= 8,
            current_bytes@.len() == 8,
            forall|j: int| 0 <= j < 8 - pad_len ==> current_bytes@[j] == old(current_bytes)@[j],
            forall|j: int| 8 - pad_len <= j < i ==> current_bytes@[j] == pad_len as u8,
        decreases 8 - i,
    {
        current_bytes[i] = pad_len as u8;
        i = i + 1;
    }
    assert(current_bytes@ =~= old(current_bytes)@.take(8 - pad_len as int) + Seq::new(
        pad_len as nat,
        |i: int| pad_len as u8,
    ));
}

/// Verifies the padding of the final block of a decryption and returns how
/// many bytes to strip, or the invalid-padding error.
///
/// A slice that is not exactly one block long would be a caller bug, ruled
/// out by contract.
pub fn check_padding(final_block: &[u8]) -> (r: Result<usize, DecryptError>)
    requires
        final_block@.len() == 8,
    ensures
        match r {
            Ok(p) => spec_pad_ok(final_block@) && p == final_block@[7],
            Err(e) => !spec_pad_ok(final_block@) && e == DecryptError::InvalidPadding,
        },
{
    let pad = final_block[7];
    if pad < 1 || pad > 8 {
        return Err(DecryptError::InvalidPadding);
    }
    let mut i: usize = 8 - pad as usize;
    while i < 8
        invariant
            final_block@.len() == 8,
            1 <= pad <= 8,
            pad == final_block@[7],
            8 - pad <= i <= 8,
            forall|j: int| 8 - pad <= j < i ==> final_block@[j] == pad,
        decreases 8 - i,
    {
        if final_block[i] != pad {
            return Err(DecryptError::InvalidPadding);
        }
        i = i + 1;
    }
    Ok(pad as usize)
}

/// Concatenates the bytes of the given blocks, most significant byte of
/// each block first.
pub fn blocks_to_bytes(blocks: Vec<Block>) -> (r: Vec<u8>)
    ensures
        r@ == spec_blocks_bytes(blocks@),
{
    let mut ret: Vec<u8> = Vec::new();
    let mut i: usize = 0;
    while i < blocks.len()
        invariant
            i <= blocks@.len(),
            ret@ == spec_blocks_bytes(blocks@.take(i as int)),
        decreases blocks@.len() - i,
    {
        let bytes = blocks[i].to_bytes();
        ret.extend_from_slice(bytes.as_slice());
        proof {
            assert(blocks@.take(i + 1) =~= blocks@.take(i as int).push(blocks@[i as int]));
            lemma_blocks_bytes_snoc(blocks@.take(i as int), blocks@[i as int]);
        }
        i = i + 1;
    }
    assert(blocks@.take(blocks@.len() as int) =~= blocks@);
    ret
}

/// The ciphertext of a whole-block plaintext is exactly as long as the
/// plaintext, in either mode.
pub proof fn lemma_mode_encrypt_len(p: Seq<u8>, ks: Seq<u64>, prev: u64)
    requires
        p.len() % 8 == 0,
    ensures
        spec_ecb_encrypt(p, ks).len() == p.len(),
        spec_cbc_encrypt(p, ks, prev).len() == p.len(),
    decreases p.len(),
{
    if p.len() >= 8 {
        lemma_mode_encrypt_len(p.skip(8), ks, spec_encrypt_block(spec_be64(p) ^ prev, ks));
    }
}

/// The decryption of a whole-block ciphertext is exactly as long as the
/// ciphertext, in either mode.
pub proof fn lemma_mode_decrypt_len(c: Seq<u8>, ks: Seq<u64>, prev: u64)
    requires
        c.len() % 8 == 0,
    ensures
        spec_ecb_decrypt(c, ks).len() == c.len(),
        spec_cbc_decrypt(c, ks, prev).len() == c.len(),
    decreases c.len(),
{
    if c.len() >= 8 {
        lemma_mode_decrypt_len(c.skip(8), ks, spec_be64(c));
    }
}

/// Copies the eight bytes of the block starting at `off` out of `data`.
fn read_block(data: &[u8], off: usize) -> (r: [u8; 8])
    requires
        off + 8 <= data@.len(),
    ensures
        r@ == data@.subrange(off as int, off as int + 8),
{
    let data_len = data.len();
    let mut current_bytes = [0u8; 8];
    let mut j: usize = 0;
    while j < 8
        invariant
            j <= 8,
            off + 8 <= data_len,
            data_len == data@.len(),
            current_bytes@.len() == 8,
            forall|k: int| 0 <= k < j ==> current_bytes@[k] == data@[off + k],
        decreases 8 - j,
    {
        current_bytes[j] = data[off + j];
        j = j + 1;
    }
    assert(current_bytes@ =~= data@.subrange(off as int, off as int + 8));
    current_bytes
}

fn ecb_encrypt_blocks<K: Key>(padded: &[u8], key: &K) -> (r: Vec<Block>)
    requires
        padded@.len() % 8 == 0,
    ensures
        spec_blocks_bytes(r@) == spec_ecb_encrypt(padded@, key.spec_round_keys()),
{
    let ghost ks = key.spec_round_keys();
    let mut ciphertext: Vec<Block> = Vec::new();
    let mut off: usize = 0;
    proof {
        assert(padded@.skip(0) =~= padded@);
        assert(spec_blocks_bytes(ciphertext@) + spec_ecb_encrypt(padded@, ks) =~= spec_ecb_encrypt(
            padded@,
            ks,
        ));
    }
    while off < padded.len()
        invariant
            padded@.len() % 8 == 0,
            off % 8 == 0,
            off <= padded@.len(),
            ks == key.spec_round_keys(),
            spec_ecb_encrypt(padded@, ks) == spec_blocks_bytes(ciphertext@) + spec_ecb_encrypt(
                padded@.skip(off as int),
                ks,
            ),
        decreases padded@.len() - off,
    {
        assert(off + 8 <= padded@.len());
        let current_bytes = read_block(padded, off);
        let mut block = Block::from_bytes(&current_bytes);
        block.encrypt(key);
        let ghost pre = ciphertext@;
        let ghost rest = padded@.skip(off as int);
        ciphertext.push(block);
        proof {
            assert(spec_be64(current_bytes@) == spec_be64(rest));
            lemma_blocks_bytes_snoc(pre, block);
            assert(rest.skip(8) =~= padded@.skip(off as int + 8));
            assert((spec_blocks_bytes(pre) + spec_block_bytes(block@)) + spec_ecb_encrypt(
                rest.skip(8),
                ks,
            ) =~= spec_blocks_bytes(pre) + (spec_block_bytes(block@) + spec_ecb_encrypt(
                rest.skip(8),
                ks,
            )));
        }
        off = off + 8;
    }
    assert(padded@.skip(padded@.len() as int) =~= Seq::<u8>::empty());
    assert(spec_blocks_bytes(ciphertext@) + Seq::<u8>::empty() =~= spec_blocks_bytes(ciphertext@));
    ciphertext
}

fn cbc_encrypt_blocks<K: Key>(padded: &[u8], key: &K, iv: &Block) -> (r: Vec<Block>)
    requires
        padded@.len() % 8 == 0,
    ensures
        spec_blocks_bytes(r@) == spec_cbc_encrypt(padded@, key.spec_round_keys(), iv@),
{
    let ghost ks = key.spec_round_keys();
    let mut ciphertext: Vec<Block> = Vec::new();
    let mut prev: u64 = iv.get_state();
    let mut off: usize = 0;
    proof {
        assert(padded@.skip(0) =~= padded@);
        assert(spec_blocks_bytes(ciphertext@) + spec_cbc_encrypt(padded@, ks, iv@)
            =~= spec_cbc_encrypt(padded@, ks, iv@));
    }
    while off < padded.len()
        invariant
            padded@.len() % 8 == 0,
            off % 8 == 0,
            off <= padded@.len(),
            ks == key.spec_round_keys(),
            spec_cbc_encrypt(padded@, ks, iv@) == spec_blocks_bytes(ciphertext@)
                + spec_cbc_encrypt(padded@.skip(off as int), ks, prev),
        decreases padded@.len() - off,
    {
        assert(off + 8 <= padded@.len());
        let current_bytes = read_block(padded, off);
        let mut block = Block::from_bytes(&current_bytes);
        block.xor_block(&Block::new(prev));
        block.encrypt(key);
        let next_prev = block.get_state();
        let ghost pre = ciphertext@;
        let ghost rest = padded@.skip(off as int);
        ciphertext.push(block);
        proof {
            assert(spec_be64(current_bytes@) == spec_be64(rest));
            lemma_blocks_bytes_snoc(pre, block);
            assert(rest.skip(8) =~= padded@.skip(off as int + 8));
            assert((spec_blocks_bytes(pre) + spec_block_bytes(block@)) + spec_cbc_encrypt(
                rest.skip(8),
                ks,
                next_prev,
            ) =~= spec_blocks_bytes(pre) + (spec_block_bytes(block@) + spec_cbc_encrypt(
                rest.skip(8),
                ks,
                next_prev,
            )));
        }
        prev = next_prev;
        off = off + 8;
    }
    assert(padded@.skip(padded@.len() as int) =~= Seq::<u8>::empty());
    assert(spec_blocks_bytes(ciphertext@) + Seq::<u8>::empty() =~= spec_blocks_bytes(ciphertext@));
    ciphertext
}

fn ecb_decrypt_bytes<K: Key>(ciphertext: &[u8], key: &K) -> (r: Vec<u8>)
    requires
        ciphertext@.len() % 8 == 0,
    ensures
        r@ == spec_ecb_decrypt(ciphertext@, key.spec_round_keys()),
{
    let ghost ks = key.spec_round_keys();
    let mut plain_bytes: Vec<u8> = Vec::new();
    let mut off: usize = 0;
    proof {
        assert(ciphertext@.skip(0) =~= ciphertext@);
        assert(plain_bytes@ + spec_ecb_decrypt(ciphertext@, ks) =~= spec_ecb_decrypt(
            ciphertext@,
            ks,
        ));
    }
    while off < ciphertext.len()
        invariant
            ciphertext@.len() % 8 == 0,
            off % 8 == 0,
            off <= ciphertext@.len(),
            ks == key.spec_round_keys(),
            spec_ecb_decrypt(ciphertext@, ks) == plain_bytes@ + spec_ecb_decrypt(
                ciphertext@.skip(off as int),
                ks,
            ),
        decreases ciphertext@.len() - off,
    {
        assert(off + 8 <= ciphertext@.len());
        let current_bytes = read_block(ciphertext, off);
        let mut block = Block::from_bytes(&current_bytes);
        block.decrypt(key);
        let bytes = block.to_bytes();
        let ghost pre = plain_bytes@;
        let ghost rest = ciphertext@.skip(off as int);
        plain_bytes.extend_from_slice(bytes.as_slice());
        proof {
            assert(spec_be64(current_bytes@) == spec_be64(rest));
            assert(rest.skip(8) =~= ciphertext@.skip(off as int + 8));
            assert((pre + spec_block_bytes(block@)) + spec_ecb_decrypt(rest.skip(8), ks) =~= pre + (
            spec_block_bytes(block@) + spec_ecb_decrypt(rest.skip(8), ks)));
        }
        off = off + 8;
    }
    assert(ciphertext@.skip(ciphertext@.len() as int) =~= Seq::<u8>::empty());
    assert(plain_bytes@ + Seq::<u8>::empty() =~= plain_bytes@);
    plain_bytes
}

fn cbc_decrypt_bytes<K: Key>(ciphertext: &[u8], key: &K, iv: &Block) -> (r: Vec<u8>)
    requires
        ciphertext@.len() % 8 == 0,
    ensures
        r@ == spec_cbc_decrypt(ciphertext@, key.spec_round_keys(), iv@),
{
    let ghost ks = key.spec_round_keys();
    let mut plain_bytes: Vec<u8> = Vec::new();
    let mut prev: u64 = iv.get_state();
    let mut off: usize = 0;
    proof {
        assert(ciphertext@.skip(0) =~= ciphertext@);
        assert(plain_bytes@ + spec_cbc_decrypt(ciphertext@, ks, iv@) =~= spec_cbc_decrypt(
            ciphertext@,
            ks,
            iv@,
        ));
    }
    while off < ciphertext.len()
        invariant
            ciphertext@.len() % 8 == 0,
            off % 8 == 0,
            off <= ciphertext@.len(),
            ks == key.spec_round_keys(),
            spec_cbc_decrypt(ciphertext@, ks, iv@) == plain_bytes@ + spec_cbc_decrypt(
                ciphertext@.skip(off as int),
                ks,
                prev,
            ),
        decreases ciphertext@.len() - off,
    {
        assert(off + 8 <= ciphertext@.len());
        let current_bytes = read_block(ciphertext, off);
        let mut block = Block::from_bytes(&current_bytes);
        // The ciphertext block must be saved before decryption clobbers it:
        // it becomes the chaining value for the next block.
        let next_prev = block.get_state();
        block.decrypt(key);
        block.xor_block(&Block::new(prev));
        let bytes = block.to_bytes();
        let ghost pre = plain_bytes@;
        let ghost rest = ciphertext@.skip(off as int);
        plain_bytes.extend_from_slice(bytes.as_slice());
        proof {
            assert(spec_be64(current_bytes@) == spec_be64(rest));
            assert(rest.skip(8) =~= ciphertext@.skip(off as int + 8));
            assert((pre + spec_block_bytes(block@)) + spec_cbc_decrypt(rest.skip(8), ks, next_prev)
                =~= pre + (spec_block_bytes(block@) + spec_cbc_decrypt(rest.skip(8), ks, next_prev)));
        }
        prev = next_prev;
        off = off + 8;
    }
    assert(ciphertext@.skip(ciphertext@.len() as int) =~= Seq::<u8>::empty());
    assert(plain_bytes@ + Seq::<u8>::empty() =~= plain_bytes@);
    plain_bytes
}

/// The initialization vector's 64-bit state, where one was given.
pub open spec fn spec_iv_state(iv: Option<Block>) -> Option<u64> {
    match iv {
        Option::Some(b) => Option::Some(b@),
        Option::None => Option::None,
    }
}

/// What decryption returns for a ciphertext, a set of round keys, a mode
/// and an optional initialization vector: the decoded characters, or the
/// one error that the input provokes.
pub open spec fn spec_decrypt_outcome(
    c: Seq<u8>,
    ks: Seq<u64>,
    mode: OpMode,
    iv: Option<u64>,
) -> Result<Seq<char>, DecryptError> {
    if c.len() < 8 {
        Result::Err(DecryptError::CiphertextTooShort(c.len() as usize))
    } else if c.len() % 8 != 0 {
        Result::Err(DecryptError::CiphertextNotAligned(c.len() as usize))
    } else if (mode is CBC) && (iv is None) {
        Result::Err(DecryptError::InitVecMissing)
    } else {
        let padded_plain = match mode {
            OpMode::ECB => spec_ecb_decrypt(c, ks),
            OpMode::CBC => spec_cbc_decrypt(c, ks, iv.unwrap()),
        };
        match spec_unpad(padded_plain) {
            Option::None => Result::Err(DecryptError::InvalidPadding),
            Option::Some(plain) => if valid_utf8(plain) {
                Result::Ok(decode_utf8(plain))
            } else {
                Result::Err(DecryptError::Utf8Error)
            },
        }
    }
}

/// Relies on `String::from_utf8`: it succeeds exactly on byte sequences
/// that are valid UTF-8, and then returns the string of the characters
/// that the bytes encode.
#[verifier::external_body]
fn bytes_to_string(bytes: Vec<u8>) -> (r: Option<String>)
    ensures
        r is Some <==> valid_utf8(bytes@),
        r matches Some(s) ==> s@ == decode_utf8(bytes@),
{
    String::from_utf8(bytes).ok()
}

fn pad_bytes(text_bytes: &[u8]) -> (r: Vec<u8>)
    ensures
        r@ == spec_padded(text_bytes@),
        r@.len() == text_bytes@.len() + spec_pad_len(text_bytes@.len()),
        r@.len() % 8 == 0,
{
    let mut padded_vec: Vec<u8> = Vec::new();
    padded_vec.extend_from_slice(text_bytes);
    let pad_len: usize = 8 - text_bytes.len() % 8;
    let mut k: usize = 0;
    while k < pad_len
        invariant
            1 <= pad_len <= 8,
            pad_len == spec_pad_len(text_bytes@.len()),
            k <= pad_len,
            padded_vec@ == text_bytes@ + Seq::new(k as nat, |i: int| pad_len as u8),
        decreases pad_len - k,
    {
        padded_vec.push(pad_len as u8);
        proof {
            assert(text_bytes@ + Seq::new((k + 1) as nat, |i: int| pad_len as u8) =~= (text_bytes@
                + Seq::new(k as nat, |i: int| pad_len as u8)).push(pad_len as u8));
        }
        k = k + 1;
    }
    assert(padded_vec@ =~= spec_padded(text_bytes@));
    padded_vec
}

/// Encrypts a string under the given key and mode.
///
/// The UTF-8 bytes of the string are padded PKCS-style and encrypted block
/// by block; the ciphertext is therefore strictly longer than the
/// plaintext, by eight bytes less the remainder.  In CBC mode a fresh
/// random initialization vector is drawn and returned beside the
/// ciphertext; in ECB mode no vector is needed or returned.
pub fn encrypt_str<K: Key>(text: &str, key: &K, mode: &OpMode) -> (r: (Vec<u8>, Option<Block>))
    ensures
        ({
            let p = spec_padded(encode_utf8(text@));
            let ks = key.spec_round_keys();
            &&& r.0@.len() == encode_utf8(text@).len() + 8 - (encode_utf8(text@).len() % 8)
            &&& match *mode {
                OpMode::ECB => r.1 is None && r.0@ == spec_ecb_encrypt(p, ks),
                OpMode::CBC => r.1 matches Some(iv) && r.0@ == spec_cbc_encrypt(p, ks, iv@),
            }
        }),
{
    let text_bytes = text.as_bytes();
    let padded = pad_bytes(text_bytes);
    match mode {
        OpMode::ECB => {
            let blocks = ecb_encrypt_blocks(padded.as_slice(), key);
            let out = blocks_to_bytes(blocks);
            proof {
                lemma_mode_encrypt_len(padded@, key.spec_round_keys(), 0);
            }
            (out, None)
        },
        OpMode::CBC => {
            let iv = random_iv();
            let blocks = cbc_encrypt_blocks(padded.as_slice(), key, &iv);
            let out = blocks_to_bytes(blocks);
            proof {
                lemma_mode_encrypt_len(padded@, key.spec_round_keys(), iv@);
            }
            (out, Some(iv))
        },
    }
}

/// Decrypts a ciphertext under the given key and mode and decodes the
/// result as UTF-8.
///
/// The ciphertext must be at least one block long and a whole number of
/// blocks; CBC mode additionally needs the initialization vector that
/// encryption returned.  Exactly the outcome of `spec_decrypt_outcome` is
/// returned: the decoded plaintext, or the one error its input provokes.
pub fn decrypt_str<K: Key>(
    ciphertext: &[u8],
    key: &K,
    mode: &OpMode,
    init_vec: Option<Block>,
) -> (r: Result<String, DecryptError>)
    ensures
        ({
            let out = spec_decrypt_outcome(
                ciphertext@,
                key.spec_round_keys(),
                *mode,
                spec_iv_state(init_vec),
            );
            match r {
                Result::Ok(s) => out == Result::Ok::<Seq<char>, DecryptError>(s@),
                Result::Err(e) => out == Result::Err::<Seq<char>, DecryptError>(e),
            }
        }),
{
    let ghost ks = key.spec_round_keys();
    if ciphertext.len() < 8 {
        return Err(DecryptError::CiphertextTooShort(ciphertext.len()));
    }
    if ciphertext.len() % 8 != 0 {
        return Err(DecryptError::CiphertextNotAligned(ciphertext.len()));
    }
    let mut plain_bytes: Vec<u8> = match mode {
        OpMode::ECB => {
            let v = ecb_decrypt_bytes(ciphertext, key);
            proof {
                lemma_mode_decrypt_len(ciphertext@, ks, 0);
            }
            v
        },
        OpMode::CBC => {
            match init_vec {
                Option::Some(iv) => {
                    let v = cbc_decrypt_bytes(ciphertext, key, &iv);
                    proof {
                        lemma_mode_decrypt_len(ciphertext@, ks, iv@);
                    }
                    v
                },
                Option::None => {
                    return Err(DecryptError::InitVecMissing);
                },
            }
        },
    };
    let ghost padded_plain = plain_bytes@;
    let len = plain_bytes.len();
    let last_block = vstd::slice::slice_subrange(plain_bytes.as_slice(), len - 8, len);
    proof {
        assert(last_block@ =~= padded_plain.skip(len - 8));
    }
    let to_remove = match check_padding(last_block) {
        Result::Ok(p) => p,
        Result::Err(e) => {
            return Err(e);
        },
    };
    plain_bytes.truncate(len - to_remove);
    proof {
        assert(plain_bytes@ =~= padded_plain.take(len - to_remove));
        assert(spec_unpad(padded_plain) == Option::Some(plain_bytes@));
    }
    match bytes_to_string(plain_bytes) {
        Option::Some(s) => Ok(s),
        Option::None => Err(DecryptError::Utf8Error),
    }
}

/// A plaintext whose length is an exact multiple of the block size still
/// gains padding: a full block of eight `0x08` bytes.
pub proof fn lemma_padding_boundary(p: Seq<u8>)
    requires
        p.len() % 8 == 0,
    ensures
        spec_padded(p).len() == p.len() + 8,
        spec_padded(p) == p + Seq::new(8, |i: int| 8u8),
{
    assert(spec_pad_len(p.len()) == 8);
    assert(Seq::new(spec_pad_len(p.len()), |i: int| spec_pad_len(p.len()) as u8) =~= Seq::new(
        8,
        |i: int| 8u8,
    ));
}

/// Verifying and stripping the padding that `spec_padded` appended gives
/// the original plaintext back, whatever its length.
pub proof fn lemma_unpad_of_padded(p: Seq<u8>)
    ensures
        spec_padded(p).len() % 8 == 0,
        spec_padded(p).len() >= 8,
        spec_unpad(spec_padded(p)) == Some(p),
{
    let q = spec_padded(p);
    let pl = spec_pad_len(p.len());
    assert(1 <= pl <= 8);
    assert(q.len() == p.len() + pl);
    assert(q[q.len() - 1] == pl as u8);
    let last = q.skip(q.len() - 8);
    assert(last[7] == pl as u8);
    assert forall|i: int| 8 - last[7] <= i < 8 implies #[trigger] last[i] == last[7] by {
        assert(last[i] == q[q.len() - 8 + i]);
        assert(q.len() - 8 + i >= p.len());
    }
    assert(spec_pad_ok(last));
    assert(q.take(q.len() - q[q.len() - 1]) =~= p);
}

/// ECB decryption undoes ECB encryption on every whole-block byte string.
pub proof fn lemma_ecb_round_trip(p: Seq<u8>, ks: Seq<u64>)
    requires
        p.len() % 8 == 0,
        ks.len() == 32,
    ensures
        spec_ecb_decrypt(spec_ecb_encrypt(p, ks), ks) == p,
    decreases p.len(),
{
    if p.len() < 8 {
        assert(p =~= Seq::<u8>::empty());
    } else {
        let x = spec_be64(p);
        let cb = spec_block_bytes(spec_encrypt_block(x, ks));
        let c = spec_ecb_encrypt(p, ks);
        crate::block::lemma_be64_round_trip(spec_encrypt_block(x, ks), cb);
        assert(spec_be64(c) == spec_encrypt_block(x, ks));
        crate::block::lemma_block_round_trip(x, ks);
        crate::block::lemma_be64_round_trip(x, p.take(8));
        assert(spec_be64(p.take(8)) == x);
        assert(spec_block_bytes(spec_decrypt_block(spec_be64(c), ks)) == p.take(8));
        assert(c.skip(8) =~= spec_ecb_encrypt(p.skip(8), ks));
        lemma_ecb_round_trip(p.skip(8), ks);
        assert(p.take(8) + p.skip(8) =~= p);
    }
}

/// CBC decryption undoes CBC encryption on every whole-block byte string,
/// for every chaining value.
pub proof fn lemma_cbc_round_trip(p: Seq<u8>, ks: Seq<u64>, prev: u64)
    requires
        p.len() % 8 == 0,
        ks.len() == 32,
    ensures
        spec_cbc_decrypt(spec_cbc_encrypt(p, ks, prev), ks, prev) == p,
    decreases p.len(),
{
    if p.len() < 8 {
        assert(p =~= Seq::<u8>::empty());
    } else {
        let x = spec_be64(p);
        let c0 = spec_encrypt_block(x ^ prev, ks);
        let cb = spec_block_bytes(c0);
        let c = spec_cbc_encrypt(p, ks, prev);
        crate::block::lemma_be64_round_trip(c0, cb);
        assert(spec_be64(c) == c0);
        crate::block::lemma_block_round_trip(x ^ prev, ks);
        assert(spec_decrypt_block(c0, ks) == x ^ prev);
        assert((x ^ prev) ^ prev == x) by (bit_vector);
        crate::block::lemma_be64_round_trip(x, p.take(8));
        assert(spec_be64(p.take(8)) == x);
        assert(spec_block_bytes(spec_decrypt_block(spec_be64(c), ks) ^ prev) == p.take(8));
        assert(c.skip(8) =~= spec_cbc_encrypt(p.skip(8), ks, c0));
        lemma_cbc_round_trip(p.skip(8), ks, c0);
        assert(p.take(8) + p.skip(8) =~= p);
    }
}

/// The round trip of the whole string interface: decrypting an encryption
/// under the same round keys, the same mode and, for CBC, the
/// initialization vector that encryption used returns exactly the original
/// character sequence.
pub proof fn lemma_encrypt_decrypt_str(text: Seq<char>, ks: Seq<u64>, iv: u64)
    requires
        ks.len() == 32,
    ensures
        spec_decrypt_outcome(
            spec_ecb_encrypt(spec_padded(encode_utf8(text)), ks),
            ks,
            OpMode::ECB,
            Option::None,
        ) == Result::Ok::<Seq<char>, DecryptError>(text),
        spec_decrypt_outcome(
            spec_cbc_encrypt(spec_padded(encode_utf8(text)), ks, iv),
            ks,
            OpMode::CBC,
            Option::Some(iv),
        ) == Result::Ok::<Seq<char>, DecryptError>(text),
{
    let b = encode_utf8(text);
    let q = spec_padded(b);
    lemma_unpad_of_padded(b);
    lemma_mode_encrypt_len(q, ks, iv);
    lemma_ecb_round_trip(q, ks);
    lemma_cbc_round_trip(q, ks, iv);
    vstd::utf8::encode_utf8_valid_utf8(text);
    vstd::utf8::encode_utf8_decode_utf8(text);
}

} // verus!
