//! The 64-bit block and the round structure of the cipher.

use crate::keys::{Key, RoundKey};
use crate::pbox::{spec_p_layer_dec, spec_p_layer_enc, PBox};
use crate::sbox::{spec_sbox_dec, spec_sbox_enc, SBox};
use vstd::prelude::*;

verus! {

/// The big-endian reading of the first eight bytes: byte 0 lands in the most
/// significant position of the result.
pub open spec fn spec_be64(b: Seq<u8>) -> u64
    recommends
        b.len() >= 8,
{
    (((b[0] as u64) << 56) | ((b[1] as u64) << 48) | ((b[2] as u64) << 40) | ((b[3] as u64) << 32)
        | ((b[4] as u64) << 24) | ((b[5] as u64) << 16) | ((b[6] as u64) << 8) | (b[7] as u64))
}

/// The big-endian bytes of a 64-bit state: the most significant byte first.
pub open spec fn spec_block_bytes(x: u64) -> Seq<u8> {
    seq![
        (x >> 56) as u8,
        (x >> 48) as u8,
        (x >> 40) as u8,
        (x >> 32) as u8,
        (x >> 24) as u8,
        (x >> 16) as u8,
        (x >> 8) as u8,
        x as u8,
    ]
}

/// Reading eight bytes big-endian and writing them back gives the bytes
/// again, and the converse composition gives the state again.
pub proof fn lemma_be64_round_trip(x: u64, b: Seq<u8>)
    requires
        b.len() == 8,
    ensures
        spec_be64(spec_block_bytes(x)) == x,
        spec_block_bytes(spec_be64(b)) == b,
{
    assert(spec_be64(spec_block_bytes(x)) == x) by (bit_vector);
    let b0: u8 = b[0];
    let b1: u8 = b[1];
    let b2: u8 = b[2];
    let b3: u8 = b[3];
    let b4: u8 = b[4];
    let b5: u8 = b[5];
    let b6: u8 = b[6];
    let b7: u8 = b[7];
    let x64: u64 = spec_be64(b);
    assert((x64 >> 56) as u8 == b0 && (x64 >> 48) as u8 == b1 && (x64 >> 40) as u8 == b2 && (x64
        >> 32) as u8 == b3 && (x64 >> 24) as u8 == b4 && (x64 >> 16) as u8 == b5 && (x64 >> 8) as u8
        == b6 && x64 as u8 == b7) by (bit_vector)
        requires
            x64 == (((b0 as u64) << 56) | ((b1 as u64) << 48) | ((b2 as u64) << 40) | ((b3
                as u64) << 32) | ((b4 as u64) << 24) | ((b5 as u64) << 16) | ((b6 as u64) << 8) | (
            b7 as u64)),
    ;
    assert(spec_block_bytes(spec_be64(b)) =~= b);
}

/// The substitution layer over the lowest `n` nibbles: nibble `k` of the
/// result is the forward S-box image of nibble `k` of `x`.
pub open spec fn spec_s_layer_enc_rec(x: u64, n: u64) -> u64
    decreases n,
{
    if n == 0 {
        0
    } else {
        spec_s_layer_enc_rec(x, (n - 1) as u64) | ((spec_sbox_enc(
            ((x >> (4 * (n - 1)) as u64) & 0xf) as u8,
        ) as u64) << (4 * (n - 1)) as u64)
    }
}

/// The substitution layer over the whole state: all sixteen nibbles sent
/// through the forward S-box independently.
pub open spec fn spec_s_layer_enc(x: u64) -> u64 {
    spec_s_layer_enc_rec(x, 16)
}

/// The inverse substitution layer over the lowest `n` nibbles.
pub open spec fn spec_s_layer_dec_rec(x: u64, n: u64) -> u64
    decreases n,
{
    if n == 0 {
        0
    } else {
        spec_s_layer_dec_rec(x, (n - 1) as u64) | ((spec_sbox_dec(
            ((x >> (4 * (n - 1)) as u64) & 0xf) as u8,
        ) as u64) << (4 * (n - 1)) as u64)
    }
}

/// The inverse substitution layer over the whole state.
pub open spec fn spec_s_layer_dec(x: u64) -> u64 {
    spec_s_layer_dec_rec(x, 16)
}

/// The two substitution layers undo one another on every 64-bit state.
pub proof fn lemma_s_layer_involution(x: u64)
    ensures
        spec_s_layer_dec(spec_s_layer_enc(x)) == x,
        spec_s_layer_enc(spec_s_layer_dec(x)) == x,
{
    assert(spec_s_layer_dec_rec(spec_s_layer_enc_rec(x, 16), 16) == x) by (bit_vector);
    assert(spec_s_layer_enc_rec(spec_s_layer_dec_rec(x, 16), 16) == x) by (bit_vector);
}

/// One encryption round without the final whitening: round-key addition,
/// substitution, permutation.
pub open spec fn spec_enc_round(s: u64, k: u64) -> u64 {
    spec_p_layer_enc(spec_s_layer_enc(s ^ k))
}

/// The first `n` encryption rounds, using round keys `ks[0..n]`.
pub open spec fn spec_encrypt_rounds(s: u64, ks: Seq<u64>, n: int) -> u64
    decreases n,
{
    if n <= 0 {
        s
    } else {
        spec_enc_round(spec_encrypt_rounds(s, ks, n - 1), ks[n - 1])
    }
}

/// Encryption of a 64-bit state: 31 rounds followed by the final round-key
/// addition with `ks[31]`.
pub open spec fn spec_encrypt_block(s: u64, ks: Seq<u64>) -> u64
    recommends
        ks.len() == 32,
{
    spec_encrypt_rounds(s, ks, 31) ^ ks[31]
}

/// One decryption round: round-key addition, inverse permutation, inverse
/// substitution.
pub open spec fn spec_dec_round(s: u64, k: u64) -> u64 {
    spec_s_layer_dec(spec_p_layer_dec(s ^ k))
}

/// The decryption rounds for round keys `ks[n]` down to `ks[1]`.
pub open spec fn spec_decrypt_rounds(s: u64, ks: Seq<u64>, n: int) -> u64
    decreases n,
{
    if n <= 0 {
        s
    } else {
        spec_decrypt_rounds(spec_dec_round(s, ks[n]), ks, n - 1)
    }
}

/// Decryption of a 64-bit state: the mirror of `spec_encrypt_block`.
pub open spec fn spec_decrypt_block(c: u64, ks: Seq<u64>) -> u64
    recommends
        ks.len() == 32,
{
    spec_decrypt_rounds(c, ks, 31) ^ ks[0]
}

proof fn lemma_xor_cancel(a: u64, k: u64)
    ensures
        (a ^ k) ^ k == a,
{
    assert((a ^ k) ^ k == a) by (bit_vector);
}

proof fn lemma_decrypt_of_encrypt_rounds(s: u64, ks: Seq<u64>, n: int)
    requires
        0 <= n < ks.len(),
    ensures
        spec_decrypt_rounds(spec_encrypt_rounds(s, ks, n) ^ ks[n], ks, n) == s ^ ks[0],
    decreases n,
{
    if n == 0 {
        lemma_xor_cancel(s, ks[0]);
        assert(spec_encrypt_rounds(s, ks, 0) ^ ks[0] == s ^ ks[0]);
    } else {
        let prev = spec_encrypt_rounds(s, ks, n - 1);
        let e = spec_encrypt_rounds(s, ks, n);
        lemma_xor_cancel(e, ks[n]);
        assert(spec_dec_round(e ^ ks[n], ks[n]) == spec_s_layer_dec(spec_p_layer_dec(e)));
        crate::pbox::lemma_p_layer_involution(spec_s_layer_enc(prev ^ ks[n - 1]));
        lemma_s_layer_involution(prev ^ ks[n - 1]);
        assert(spec_s_layer_dec(spec_p_layer_dec(e)) == prev ^ ks[n - 1]);
        lemma_decrypt_of_encrypt_rounds(s, ks, n - 1);
    }
}

proof fn lemma_encrypt_of_decrypt_rounds(c: u64, ks: Seq<u64>, n: int)
    requires
        0 <= n < ks.len(),
    ensures
        spec_encrypt_rounds(spec_decrypt_rounds(c, ks, n) ^ ks[0], ks, n) == c ^ ks[n],
    decreases n,
{
    if n == 0 {
        lemma_xor_cancel(c, ks[0]);
    } else {
        let c1 = spec_dec_round(c, ks[n]);
        lemma_encrypt_of_decrypt_rounds(c1, ks, n - 1);
        assert(spec_encrypt_rounds(spec_decrypt_rounds(c, ks, n) ^ ks[0], ks, n)
            == spec_enc_round(c1 ^ ks[n - 1], ks[n - 1]));
        lemma_xor_cancel(c1, ks[n - 1]);
        lemma_s_layer_involution(spec_p_layer_dec(c ^ ks[n]));
        crate::pbox::lemma_p_layer_involution(c ^ ks[n]);
        lemma_xor_cancel(c, ks[n]);
    }
}

/// Encrypting any 64-bit state and then decrypting it with the same round
/// keys gives the state back, and likewise in the other order.
pub proof fn lemma_block_round_trip(s: u64, ks: Seq<u64>)
    requires
        ks.len() == 32,
    ensures
        spec_decrypt_block(spec_encrypt_block(s, ks), ks) == s,
        spec_encrypt_block(spec_decrypt_block(s, ks), ks) == s,
{
    lemma_decrypt_of_encrypt_rounds(s, ks, 31);
    lemma_xor_cancel(s, ks[0]);
    lemma_encrypt_of_decrypt_rounds(s, ks, 31);
    lemma_xor_cancel(s, ks[31]);
}

/// A single 64-bit block used for encryption and decryption.
pub struct Block {
    /// The current state of the block.  The block size of the cipher is
    /// fixed at 64 bits.
    state: u64,
}

impl View for Block {
    type V = u64;

    closed spec fn view(&self) -> u64 {
        self.state
    }
}

impl Block {
    /// Constructs a new block with the given state.
    pub fn new(state: u64) -> (r: Self)
        ensures
            r@ == state,
    {
        Block { state }
    }

    /// Constructs a new block from the given bytes, with the most
    /// significant byte of the state at the beginning of the array.
    pub fn from_bytes(bytes: &[u8; 8]) -> (r: Self)
        ensures
            r@ == spec_be64(bytes@),
    {
        let state = ((bytes[0] as u64) << 56) | ((bytes[1] as u64) << 48) | ((bytes[2] as u64)
            << 40) | ((bytes[3] as u64) << 32) | ((bytes[4] as u64) << 24) | ((bytes[5] as u64)
            << 16) | ((bytes[6] as u64) << 8) | (bytes[7] as u64);
        Block { state }
    }

    /// Returns the state of the block as a byte array, with the most
    /// significant byte of the state at the beginning.
    pub fn to_bytes(&self) -> (r: [u8; 8])
        ensures
            r@ == spec_block_bytes(self@),
    {
        let r = [
            (self.state >> 56) as u8,
            (self.state >> 48) as u8,
            (self.state >> 40) as u8,
            (self.state >> 32) as u8,
            (self.state >> 24) as u8,
            (self.state >> 16) as u8,
            (self.state >> 8) as u8,
            self.state as u8,
        ];
        assert(r@ =~= spec_block_bytes(self@));
        r
    }

    /// Adds a round key to the state (bitwise XOR).
    pub fn add_round_key(&mut self, round_key: &RoundKey)
        ensures
            final(self)@ == old(self)@ ^ round_key.value,
    {
        self.state = self.state ^ round_key.value;
    }

    /// Adds another block to this block (bitwise XOR); used for chaining
    /// with an initialization vector.
    pub fn xor_block(&mut self, rhs: &Block)
        ensures
            final(self)@ == old(self)@ ^ rhs@,
    {
        self.state = self.state ^ rhs.state;
    }

    /// Applies the substitution layer: the state is split into sixteen 4-bit
    /// nibbles and each is sent through the forward S-box independently.
    pub fn apply_substitution_enc(&mut self)
        ensures
            final(self)@ == spec_s_layer_enc(old(self)@),
    {
        let s_box = SBox::new();
        let state = self.state;
        let mut new_state: u64 = 0;
        let mut split: u64 = 0;
        while split < 16
            invariant
                split <= 16,
                new_state == spec_s_layer_enc_rec(state, split),
            decreases 16 - split,
        {
            let shift = 4 * split;
            let nib = ((state >> shift) & 0xf) as u8;
            assert(nib < 16) by (bit_vector)
                requires
                    nib == ((state >> shift) & 0xf) as u8,
            ;
            let s = s_box.apply_enc(nib);
            new_state = new_state | ((s as u64) << shift);
            split = split + 1;
        }
        self.state = new_state;
    }

    /// Applies the inverse substitution layer, nibble by nibble through the
    /// inverse S-box; required for decryption.
    pub fn apply_substitution_dec(&mut self)
        ensures
            final(self)@ == spec_s_layer_dec(old(self)@),
    {
        let s_box = SBox::new();
        let state = self.state;
        let mut new_state: u64 = 0;
        let mut split: u64 = 0;
        while split < 16
            invariant
                split <= 16,
                new_state == spec_s_layer_dec_rec(state, split),
            decreases 16 - split,
        {
            let shift = 4 * split;
            let nib = ((state >> shift) & 0xf) as u8;
            assert(nib < 16) by (bit_vector)
                requires
                    nib == ((state >> shift) & 0xf) as u8,
            ;
            let s = s_box.apply_dec(nib);
            new_state = new_state | ((s as u64) << shift);
            split = split + 1;
        }
        self.state = new_state;
    }

    /// Applies the permutation layer to the state.
    pub fn apply_permutation_enc(&mut self)
        ensures
            final(self)@ == spec_p_layer_enc(old(self)@),
    {
        let p_box = PBox::new();
        self.state = p_box.apply_enc(self.state);
    }

    /// Applies the inverse permutation layer to the state; required for
    /// decryption.
    pub fn apply_permutation_dec(&mut self)
        ensures
            final(self)@ == spec_p_layer_dec(old(self)@),
    {
        let p_box = PBox::new();
        self.state = p_box.apply_dec(self.state);
    }

    /// Encrypts this block using the given key: 31 rounds of round-key
    /// addition, substitution and permutation, then the final round key.
    pub fn encrypt<K: Key>(&mut self, key: &K)
        ensures
            final(self)@ == spec_encrypt_block(old(self)@, key.spec_round_keys()),
    {
        let round_keys = key.generate_round_keys();
        let ghost s0 = self.state;
        let ghost ks = key.spec_round_keys();
        let mut round: usize = 0;
        while round < 31
            invariant
                round <= 31,
                self.state == spec_encrypt_rounds(s0, ks, round as int),
                ks.len() == 32,
                forall|i: int| 0 <= i < 32 ==> round_keys@[i].value == ks[i],
            decreases 31 - round,
        {
            let rk = round_keys[round];
            self.add_round_key(&rk);
            self.apply_substitution_enc();
            self.apply_permutation_enc();
            round = round + 1;
        }
        let rk = round_keys[31];
        self.add_round_key(&rk);
    }

    /// Decrypts this block using the given key: the rounds of `encrypt` in
    /// reverse order, with the inverse substitution and permutation.
    pub fn decrypt<K: Key>(&mut self, key: &K)
        ensures
            final(self)@ == spec_decrypt_block(old(self)@, key.spec_round_keys()),
    {
        let round_keys = key.generate_round_keys();
        let ghost c0 = self.state;
        let ghost ks = key.spec_round_keys();
        let mut round: usize = 31;
        while round >= 1
            invariant
                round <= 31,
                spec_decrypt_rounds(c0, ks, 31) == spec_decrypt_rounds(
                    self.state,
                    ks,
                    round as int,
                ),
                ks.len() == 32,
                forall|i: int| 0 <= i < 32 ==> round_keys@[i].value == ks[i],
            decreases round,
        {
            let rk = round_keys[round];
            self.add_round_key(&rk);
            self.apply_permutation_dec();
            self.apply_substitution_dec();
            round = round - 1;
        }
        let rk = round_keys[0];
        self.add_round_key(&rk);
    }

    /// Retrieves the current state of the block as saved internally.
    pub fn get_state(&self) -> (r: u64)
        ensures
            r == self@,
    {
        self.state
    }
}

} // verus!
