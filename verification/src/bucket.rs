//! The bucket value generator: a deterministic pseudo-random value in
//! [-1, 1] (fixed point: [-SCALE, SCALE]) for every integer bucket index,
//! seeded afresh on every call so that no generator state survives between
//! buckets.

use vstd::prelude::*;
use crate::SCALE;
use crate::numeric::lemma_div_le;

verus! {

/// The first 32-bit draw of a `rand::rngs::StdRng` seeded from the given
/// 64-bit value.  For the pinned version of `rand` this is a fixed function
/// of the seed material alone, identical on every machine.
pub uninterp spec fn std_rng_draw(material: u64) -> u32;

/// Relies on `rand::rngs::StdRng` (ChaCha with 12 rounds) and
/// `rand::SeedableRng::seed_from_u64`: seeding is a pure expansion of the
/// 64-bit state and the first `next_u32` draw depends on the seed alone.
#[verifier::external_body]
fn std_rng_first_draw(material: u64) -> (r: u32)
    ensures
        r == std_rng_draw(material),
{
    let mut rng: rand::rngs::StdRng = rand::SeedableRng::seed_from_u64(material);
    rand::RngCore::next_u32(&mut rng)
}

/// The two's-complement bit pattern of a bucket index, used as seed
/// material.  Injective over the whole `i64` range.
pub open spec fn index_bits_spec(index: int) -> u64
    recommends
        i64::MIN <= index <= i64::MAX,
{
    if index >= 0 {
        index as u64
    } else {
        (index + 0x1_0000_0000_0000_0000) as u64
    }
}

fn index_bits(index: i64) -> (b: u64)
    ensures
        b == index_bits_spec(index as int),
{
    if index >= 0 {
        index as u64
    } else {
        u64::MAX - ((-(index + 1)) as u64)
    }
}

/// Seed material for one bucket: the global seed combined with the index
/// bits, so distinct indices under one seed never collide.
pub open spec fn material_spec(seed: u64, index: int) -> u64 {
    seed ^ index_bits_spec(index)
}

/// The raw 32-bit draw reinterpreted as a signed value and scaled down from
/// amplitude 2^31 to amplitude SCALE, truncating toward zero.
pub open spec fn value_of_draw(d: int) -> int {
    if d < 0x8000_0000 {
        d / 0x800
    } else {
        -((0x1_0000_0000 - d) / 0x800)
    }
}

/// The bucket value: what `bucket_value` returns, as a function of the seed
/// and the bucket index alone.
pub open spec fn bucket_value_spec(seed: u64, index: int) -> int {
    value_of_draw(std_rng_draw(material_spec(seed, index)) as int)
}

/// Deterministically derives the pseudo-random value of one bucket, in
/// fixed-point units: the result `v` stands for `v / SCALE` in [-1, 1].
/// A fresh generator is seeded from `(seed, index)` on every call, so the
/// same pair always yields the same value and no state is retained.
pub fn bucket_value(seed: u64, index: i64) -> (v: i64)
    ensures
        v as int == bucket_value_spec(seed, index as int),
        -(SCALE as i64) <= v < SCALE as i64,
{
    let material: u64 = seed ^ index_bits(index);
    let draw: u32 = std_rng_first_draw(material);
    if draw < 0x8000_0000 {
        proof {
            lemma_div_le(draw as int, 0x7fff_ffff, 0x800);
        }
        ((draw as u64) / 0x800) as i64
    } else {
        let mag: u64 = 0x1_0000_0000u64 - (draw as u64);
        proof {
            lemma_div_le(mag as int, 0x8000_0000, 0x800);
        }
        -((mag / 0x800) as i64)
    }
}

/// Determinism: two results of the generator for the same seed and index
/// are the same value.
pub proof fn lemma_bucket_value_deterministic(seed: u64, index: int, v1: int, v2: int)
    requires
        v1 == bucket_value_spec(seed, index),
        v2 == bucket_value_spec(seed, index),
    ensures
        v1 == v2,
{
}

/// Range: whatever the underlying generator draws, the bucket value lies in
/// [-SCALE, SCALE], that is in [-1, 1] of real units.
pub proof fn lemma_bucket_value_in_range(seed: u64, index: int)
    ensures
        -(SCALE as int) <= bucket_value_spec(seed, index) <= SCALE as int,
{
    let d = std_rng_draw(material_spec(seed, index)) as int;
    if d < 0x8000_0000 {
        lemma_div_le(d, 0x7fff_ffff, 0x800);
    } else {
        lemma_div_le(0x1_0000_0000 - d, 0x8000_0000, 0x800);
    }
}

/// The sign of a bucket's raw draw, as a unit gradient: +1 for a
/// nonnegative signed draw, -1 otherwise.
pub open spec fn gradient_sign_spec(seed: u64, index: int) -> int {
    if std_rng_draw(material_spec(seed, index)) < 0x8000_0000u32 {
        1
    } else {
        -1
    }
}

/// The unit gradient of one bucket: the sign of the same deterministic draw
/// that `bucket_value` uses.
pub fn gradient_sign(seed: u64, index: i64) -> (g: i64)
    ensures
        g as int == gradient_sign_spec(seed, index as int),
        g == 1i64 || g == -1i64,
{
    let material: u64 = seed ^ index_bits(index);
    let draw: u32 = std_rng_first_draw(material);
    if draw < 0x8000_0000 {
        1
    } else {
        -1
    }
}

} // verus!
