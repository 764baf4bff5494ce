//! Master keys and the key schedules deriving the 32 round keys.

use crate::block::spec_be64;
use crate::sbox::{spec_sbox_enc, SBox};
use vstd::prelude::*;

verus! {

/// A single round key.  Its length is always 64 bits (the block size).
#[derive(Copy, Clone)]
pub struct RoundKey {
    /// The value of the round key.
    pub value: u64,
}

/// A master key of one of the supported widths.
///
/// Any type implementing this trait can drive encryption and decryption: it
/// must derive the 32 round keys used by the 32 rounds of the cipher, and
/// `spec_round_keys` says which keys those are.
pub trait Key {
    /// The sequence of 32 round keys that this master key derives.
    spec fn spec_round_keys(&self) -> Seq<u64>;

    /// Generates the 32 round keys of this master key.
    fn generate_round_keys(&self) -> (r: [RoundKey; 32])
        ensures
            self.spec_round_keys().len() == 32,
            forall|i: int| 0 <= i < 32 ==> r@[i].value == self.spec_round_keys()[i],
    ;
}

/// The whole key register rotated left by 61 bits, written byte-wise: the
/// new byte `b` takes the low 3 bits of byte `(b + 7) mod B` as its high
/// bits and the high 5 bits of byte `(b + 8) mod B` as its low bits.
pub open spec fn spec_rotate61(t: Seq<u8>) -> Seq<u8> {
    Seq::new(
        t.len(),
        |b: int| (t[(b + 7) % (t.len() as int)] << 5) | (t[(b + 8) % (t.len() as int)] >> 3),
    )
}

/// The forward S-box applied to the top nibble of the register only, as the
/// 80-bit schedule prescribes.
pub open spec fn spec_sbox_top80(t: Seq<u8>) -> Seq<u8> {
    t.update(0, (spec_sbox_enc(t[0] >> 4) << 4) | (t[0] & 0xf))
}

/// The forward S-box applied to both nibbles of the top byte, as the
/// 128-bit schedule prescribes.
pub open spec fn spec_sbox_top128(t: Seq<u8>) -> Seq<u8> {
    t.update(0, (spec_sbox_enc(t[0] >> 4) << 4) | spec_sbox_enc(t[0] & 0xf))
}

/// The round counter XORed into bits 19..15 of the 80-bit register.
pub open spec fn spec_xor_counter80(t: Seq<u8>, r: u8) -> Seq<u8> {
    t.update(7, t[7] ^ (r >> 1)).update(8, t[8] ^ (r << 7))
}

/// The round counter XORed into bits 66..62 of the 128-bit register.
pub open spec fn spec_xor_counter128(t: Seq<u8>, r: u8) -> Seq<u8> {
    t.update(7, t[7] ^ (r >> 2)).update(8, t[8] ^ (r << 6))
}

/// One mutation step of the 80-bit key schedule with round counter `r`.
pub open spec fn spec_sched_step80(t: Seq<u8>, r: u8) -> Seq<u8> {
    spec_xor_counter80(spec_sbox_top80(spec_rotate61(t)), r)
}

/// One mutation step of the 128-bit key schedule with round counter `r`.
pub open spec fn spec_sched_step128(t: Seq<u8>, r: u8) -> Seq<u8> {
    spec_xor_counter128(spec_sbox_top128(spec_rotate61(t)), r)
}

/// The 80-bit key register after the first `n` mutation steps, whose round
/// counters run `1..n`.
pub open spec fn spec_register80(key: Seq<u8>, n: int) -> Seq<u8>
    decreases n,
{
    if n <= 0 {
        key
    } else {
        spec_sched_step80(spec_register80(key, n - 1), n as u8)
    }
}

/// The 128-bit key register after the first `n` mutation steps.
pub open spec fn spec_register128(key: Seq<u8>, n: int) -> Seq<u8>
    decreases n,
{
    if n <= 0 {
        key
    } else {
        spec_sched_step128(spec_register128(key, n - 1), n as u8)
    }
}

/// Round key `i` of the 80-bit schedule: the top 64 bits of the register
/// after `i` mutation steps, so index 0 is the raw master key's top half.
pub open spec fn spec_round_key80(key: Seq<u8>, i: int) -> u64 {
    spec_be64(spec_register80(key, i))
}

/// Round key `i` of the 128-bit schedule.
pub open spec fn spec_round_key128(key: Seq<u8>, i: int) -> u64 {
    spec_be64(spec_register128(key, i))
}

/// An 80-bit master key, most significant byte first.
pub struct Key80Bit {
    /// The value of the key as a byte array.
    pub value: [u8; 10],
}

impl Key80Bit {
    /// Constructs a new 80-bit key from the given bytes.
    pub fn new(value: [u8; 10]) -> (r: Self)
        ensures
            r.value@ == value@,
    {
        Key80Bit { value }
    }
}

impl Key for Key80Bit {
    /// The 32 round keys of the 80-bit key schedule.
    open spec fn spec_round_keys(&self) -> Seq<u64> {
        Seq::new(32, |i: int| spec_round_key80(self.value@, i))
    }

    /// The key schedule for 80-bit keys: 31 times, emit the top 64 bits of
    /// the register and then rotate, substitute the top nibble and XOR the
    /// round counter; the 32nd round key is the final register's top half.
    fn generate_round_keys(&self) -> (r: [RoundKey; 32]) {
        let s_box = SBox::new();
        let mut round_keys = [RoundKey { value: 0u64 };32];
        let mut key_register: [u8; 10] = self.value;
        let mut round: u8 = 1;
        while round < 32
            invariant
                1 <= round <= 32,
                key_register@ == spec_register80(self.value@, round as int - 1),
                forall|i: int|
                    0 <= i < round as int - 1 ==> round_keys@[i].value == spec_round_key80(
                        self.value@,
                        i,
                    ),
            decreases 32 - round,
        {
            let key_val = ((key_register[0] as u64) << 56) | ((key_register[1] as u64) << 48) | ((
            key_register[2] as u64) << 40) | ((key_register[3] as u64) << 32) | ((key_register[4]
                as u64) << 24) | ((key_register[5] as u64) << 16) | ((key_register[6] as u64) << 8)
                | (key_register[7] as u64);
            assert(key_val == spec_be64(key_register@));
            round_keys[(round - 1) as usize] = RoundKey { value: key_val };

            let ghost before = key_register@;
            let tmp_register = key_register;
            let mut b: usize = 0;
            while b < 10
                invariant
                    b <= 10,
                    tmp_register@ == before,
                    key_register@.len() == 10,
                    forall|j: int| 0 <= j < b ==> key_register@[j] == spec_rotate61(before)[j],
                decreases 10 - b,
            {
                key_register[b] = (tmp_register[(b + 7) % 10] << 5) | (tmp_register[(b + 8) % 10]
                    >> 3);
                b = b + 1;
            }
            assert(key_register@ =~= spec_rotate61(before));

            let top_byte = key_register[0];
            let top = top_byte >> 4;
            assert(top < 16) by (bit_vector)
                requires
                    top == top_byte >> 4,
            ;
            let sbox_result = s_box.apply_enc(top);
            key_register[0] = (sbox_result << 4) | (top_byte & 0xf);
            assert(key_register@ =~= spec_sbox_top80(spec_rotate61(before)));

            key_register[7] = key_register[7] ^ (round >> 1);
            key_register[8] = key_register[8] ^ (round << 7);
            assert(key_register@ =~= spec_sched_step80(before, round));

            round = round + 1;
        }
        let final_key = ((key_register[0] as u64) << 56) | ((key_register[1] as u64) << 48) | ((
        key_register[2] as u64) << 40) | ((key_register[3] as u64) << 32) | ((key_register[4]
            as u64) << 24) | ((key_register[5] as u64) << 16) | ((key_register[6] as u64) << 8) | (
        key_register[7] as u64);
        assert(final_key == spec_be64(key_register@));
        round_keys[31] = RoundKey { value: final_key };
        round_keys
    }
}

/// A 128-bit master key, most significant byte first.
pub struct Key128Bit {
    /// The value of the key as a byte array.
    pub value: [u8; 16],
}

impl Key128Bit {
    /// Constructs a new 128-bit key from the given bytes.
    pub fn new(value: [u8; 16]) -> (r: Self)
        ensures
            r.value@ == value@,
    {
        Key128Bit { value }
    }
}

impl Key for Key128Bit {
    /// The 32 round keys of the 128-bit key schedule.
    open spec fn spec_round_keys(&self) -> Seq<u64> {
        Seq::new(32, |i: int| spec_round_key128(self.value@, i))
    }

    /// The key schedule for 128-bit keys: as for 80-bit keys, except that
    /// the S-box is applied to both nibbles of the top byte and the round
    /// counter lands in bits 66..62 of the wider register.
    fn generate_round_keys(&self) -> (r: [RoundKey; 32]) {
        let s_box = SBox::new();
        let mut round_keys = [RoundKey { value: 0u64 };32];
        let mut key_register: [u8; 16] = self.value;
        let mut round: u8 = 1;
        while round < 32
            invariant
                1 <= round <= 32,
                key_register@ == spec_register128(self.value@, round as int - 1),
                forall|i: int|
                    0 <= i < round as int - 1 ==> round_keys@[i].value == spec_round_key128(
                        self.value@,
                        i,
                    ),
            decreases 32 - round,
        {
            let key_val = ((key_register[0] as u64) << 56) | ((key_register[1] as u64) << 48) | ((
            key_register[2] as u64) << 40) | ((key_register[3] as u64) << 32) | ((key_register[4]
                as u64) << 24) | ((key_register[5] as u64) << 16) | ((key_register[6] as u64) << 8)
                | (key_register[7] as u64);
            assert(key_val == spec_be64(key_register@));
            round_keys[(round - 1) as usize] = RoundKey { value: key_val };

            let ghost before = key_register@;
            let tmp_register = key_register;
            let mut b: usize = 0;
            while b < 16
                invariant
                    b <= 16,
                    tmp_register@ == before,
                    key_register@.len() == 16,
                    forall|j: int| 0 <= j < b ==> key_register@[j] == spec_rotate61(before)[j],
                decreases 16 - b,
            {
                key_register[b] = (tmp_register[(b + 7) % 16] << 5) | (tmp_register[(b + 8) % 16]
                    >> 3);
                b = b + 1;
            }
            assert(key_register@ =~= spec_rotate61(before));

            let top_byte = key_register[0];
            let top = top_byte >> 4;
            let low = top_byte & 0xf;
            assert(top < 16 && low < 16) by (bit_vector)
                requires
                    top == top_byte >> 4 && low == top_byte & 0xf,
            ;
            let sbox_result_1 = s_box.apply_enc(top);
            let sbox_result_2 = s_box.apply_enc(low);
            key_register[0] = (sbox_result_1 << 4) | sbox_result_2;
            assert(key_register@ =~= spec_sbox_top128(spec_rotate61(before)));

            key_register[7] = key_register[7] ^ (round >> 2);
            key_register[8] = key_register[8] ^ (round << 6);
            assert(key_register@ =~= spec_sched_step128(before, round));

            round = round + 1;
        }
        let final_key = ((key_register[0] as u64) << 56) | ((key_register[1] as u64) << 48) | ((
        key_register[2] as u64) << 40) | ((key_register[3] as u64) << 32) | ((key_register[4]
            as u64) << 24) | ((key_register[5] as u64) << 16) | ((key_register[6] as u64) << 8) | (
        key_register[7] as u64);
        assert(final_key == spec_be64(key_register@));
        round_keys[31] = RoundKey { value: final_key };
        round_keys
    }
}

} // verus!
