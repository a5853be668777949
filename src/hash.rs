//! The coordinate hasher and the placement of the cat.

use vstd::prelude::*;

verus! {

/// Seed of the mixing hash.
pub const HASH_SEED: u64 = 0x517cc1b727220a95;

/// Multiplier of the mixing hash.
pub const HASH_MUL: u64 = 0x6c62272e07bb0142;

/// The mixing hash of a coordinate: multiply, fold in `x`, multiply, fold in
/// `y`, multiply, all modulo 2^64.
pub open spec fn hash_of(x: i32, y: i32) -> u64 {
    let h = HASH_SEED.wrapping_mul(HASH_MUL);
    let h = (h ^ (x as u64)).wrapping_mul(HASH_MUL);
    (h ^ (y as u64)).wrapping_mul(HASH_MUL)
}

/// The name whose digest places the cat: the bytes of "ascicat".
pub const LANDMARK_NAME: [u8; 7] = [0x61, 0x73, 0x63, 0x69, 0x63, 0x61, 0x74];

/// The mixing hash over a byte string: from the seed, multiply and then fold
/// in each byte in turn.
pub open spec fn bytes_digest(bytes: Seq<u8>) -> u64
    decreases bytes.len(),
{
    if bytes.len() == 0 {
        HASH_SEED
    } else {
        bytes_digest(bytes.drop_last()).wrapping_mul(HASH_MUL) ^ (bytes.last() as u64)
    }
}

/// The one coordinate where the cat lives. Bits 16 to 47 of the name's digest
/// give `x` and its low 32 bits give `y`, each read as a signed 32-bit value
/// and moved down by 50000 in wrapping arithmetic.
pub open spec fn landmark() -> (i32, i32) {
    let d = bytes_digest(LANDMARK_NAME@);
    (
        (((d >> 16u64) & 0xFFFF_FFFFu64) as i32).wrapping_sub(50_000),
        ((d & 0xFFFF_FFFFu64) as i32).wrapping_sub(50_000),
    )
}

/// Whether `(x, y)` is where the cat lives.
pub open spec fn is_landmark(x: i32, y: i32) -> bool {
    (x, y) == landmark()
}

/// One step of the byte digest on given values.
proof fn lemma_digest_step(s: Seq<u8>, h: u64, b: u8, r: u64)
    requires
        s.len() > 0,
        bytes_digest(s.drop_last()) == h,
        s.last() == b,
        h.wrapping_mul(HASH_MUL) ^ (b as u64) == r,
    ensures
        bytes_digest(s) == r,
{
}

/// Where the cat lives, in numbers.
pub proof fn lemma_landmark_value()
    ensures
        landmark() == (-102009382i32, 959029586i32),
{
    let s = LANDMARK_NAME@;
    assert(s =~= seq![0x61u8, 0x73u8, 0x63u8, 0x69u8, 0x63u8, 0x61u8, 0x74u8]);
    assert(bytes_digest(s.take(0)) == HASH_SEED);
    assert(0x517cc1b727220a95u64.wrapping_mul(0x6c62272e07bb0142u64) ^ 0x61u64 == 0x228bc64d06a84f0bu64) by (bit_vector);
    assert(s.take(1).drop_last() =~= s.take(0));
    lemma_digest_step(s.take(1), HASH_SEED, 0x61, 0x228bc64d06a84f0b);
    assert(0x228bc64d06a84f0bu64.wrapping_mul(0x6c62272e07bb0142u64) ^ 0x73u64 == 0x25c0c4f769bc6ba5u64) by (bit_vector);
    assert(s.take(2).drop_last() =~= s.take(1));
    lemma_digest_step(s.take(2), 0x228bc64d06a84f0b, 0x73, 0x25c0c4f769bc6ba5);
    assert(0x25c0c4f769bc6ba5u64.wrapping_mul(0x6c62272e07bb0142u64) ^ 0x63u64 == 0xa6819d6d238665e9u64) by (bit_vector);
    assert(s.take(3).drop_last() =~= s.take(2));
    lemma_digest_step(s.take(3), 0x25c0c4f769bc6ba5, 0x63, 0xa6819d6d238665e9);
    assert(0xa6819d6d238665e9u64.wrapping_mul(0x6c62272e07bb0142u64) ^ 0x69u64 == 0x9498721a7f3f2f7bu64) by (bit_vector);
    assert(s.take(4).drop_last() =~= s.take(3));
    lemma_digest_step(s.take(4), 0xa6819d6d238665e9, 0x69, 0x9498721a7f3f2f7b);
    assert(0x9498721a7f3f2f7bu64.wrapping_mul(0x6c62272e07bb0142u64) ^ 0x63u64 == 0x894177e21952b8d5u64) by (bit_vector);
    assert(s.take(5).drop_last() =~= s.take(4));
    lemma_digest_step(s.take(5), 0x9498721a7f3f2f7b, 0x63, 0x894177e21952b8d5);
    assert(0x894177e21952b8d5u64.wrapping_mul(0x6c62272e07bb0142u64) ^ 0x61u64 == 0x29c23624b0a37b8bu64) by (bit_vector);
    assert(s.take(6).drop_last() =~= s.take(5));
    lemma_digest_step(s.take(6), 0x894177e21952b8d5, 0x61, 0x29c23624b0a37b8b);
    assert(0x29c23624b0a37b8bu64.wrapping_mul(0x6c62272e07bb0142u64) ^ 0x74u64 == 0xa851f9ec392a64a2u64) by (bit_vector);
    assert(s.take(7).drop_last() =~= s.take(6));
    lemma_digest_step(s.take(7), 0x29c23624b0a37b8b, 0x74, 0xa851f9ec392a64a2);
    assert(s.take(7) =~= s);
    let d: u64 = 0xa851f9ec392a64a2;
    assert((((d >> 16u64) & 0xFFFF_FFFFu64) as i32).wrapping_sub(50_000) == -102009382i32) by (bit_vector)
        requires d == 0xa851f9ec392a64a2u64;
    assert(((d & 0xFFFF_FFFFu64) as i32).wrapping_sub(50_000) == 959029586i32) by (bit_vector)
        requires d == 0xa851f9ec392a64a2u64;
}

} // verus!
