//! The noise evaluator: locates the bucket pair enclosing a coordinate,
//! draws both bucket values, and blends them with the smoothing kernel.

use vstd::prelude::*;
use crate::SCALE;
use crate::bucket::{bucket_value, bucket_value_spec};
use crate::smooth::{smooth, smooth_spec};
use crate::numeric::floor_div;
use vstd::arithmetic::div_mod::{
    lemma_fundamental_div_mod, lemma_mod_division_less_than_divisor,
    lemma_fundamental_div_mod_converse_div, lemma_div_of0,
};
use vstd::arithmetic::mul::{lemma_mul_strict_inequality, lemma_mul_is_commutative};

verus! {

/// Why an evaluation was rejected.
#[derive(Clone, Copy, Debug, PartialEq, Eq, Structural)]
pub enum NoiseError {
    /// The bucket size was zero or negative.
    InvalidBucketSize,
}

/// The bucket index one step to the right of `b0`.  The lattice lives on
/// the 64-bit indices and wraps around at the upper end, so the generator
/// stays total.
pub open spec fn next_bucket_spec(b0: int) -> int {
    if b0 == i64::MAX as int {
        i64::MIN as int
    } else {
        b0 + 1
    }
}

/// The fractional position of `x` inside its bucket, in fixed-point units
/// [0, SCALE).
pub open spec fn offset_spec(bucket_size: int, x: int) -> int {
    ((x % bucket_size) * (SCALE as int)) / bucket_size
}

/// What `eval` returns on a positive bucket size: the smoothing kernel
/// applied to the values of the two enclosing buckets at the fractional
/// offset of `x`.
pub open spec fn eval_spec(seed: u64, bucket_size: int, x: int) -> int {
    let b0 = x / bucket_size;
    smooth_spec(
        bucket_value_spec(seed, b0),
        bucket_value_spec(seed, next_bucket_spec(b0)),
        offset_spec(bucket_size, x),
    )
}

/// Evaluates the noise curve at fixed-point coordinate `x` (standing for
/// `x / SCALE`) on a lattice whose buckets are `bucket_size` ticks wide.
/// Fails exactly on a non-positive bucket size; otherwise the sample is a
/// deterministic function of `(seed, bucket_size, x)` and lies between the
/// two enclosing bucket values.
pub fn eval(seed: u64, bucket_size: i64, x: i64) -> (r: Result<i64, NoiseError>)
    ensures
        r is Err <==> bucket_size <= 0,
        bucket_size <= 0 ==> r == Result::<i64, NoiseError>::Err(NoiseError::InvalidBucketSize),
        r matches Ok(v) ==> v as int == eval_spec(seed, bucket_size as int, x as int),
        r matches Ok(v) ==> -(SCALE as i64) <= v <= SCALE as i64,
{
    if bucket_size <= 0 {
        return Err(NoiseError::InvalidBucketSize);
    }
    let b0: i64 = floor_div(x, bucket_size);
    proof {
        lemma_fundamental_div_mod(x as int, bucket_size as int);
        lemma_mod_division_less_than_divisor(x as int, bucket_size as int);
        lemma_mul_is_commutative(b0 as int, bucket_size as int);
        assert((b0 as int) * (bucket_size as int) == x as int - (x as int) % (bucket_size as int));
    }
    let rem: u64 = ((x as i128) - (b0 as i128) * (bucket_size as i128)) as u64;
    proof {
        lemma_offset_in_range(bucket_size as int, rem as int);
    }
    let dx: u64 = (((rem as u128) * (SCALE as u128)) / (bucket_size as u128)) as u64;
    let b1: i64 = if b0 == i64::MAX {
        i64::MIN
    } else {
        b0 + 1
    };
    let g0: i64 = bucket_value(seed, b0);
    let g1: i64 = bucket_value(seed, b1);
    Ok(smooth(g0, g1, dx as i64))
}

/// The fractional offset computed from a remainder in [0, bucket_size)
/// stays in [0, SCALE), and its defining product stays small.
proof fn lemma_offset_in_range(bucket_size: int, rem: int)
    requires
        0 < bucket_size,
        0 <= rem < bucket_size,
    ensures
        0 <= rem * (SCALE as int) <= bucket_size * (SCALE as int),
        0 <= (rem * (SCALE as int)) / bucket_size < SCALE as int,
{
    let s: int = SCALE as int;
    vstd::arithmetic::mul::lemma_mul_nonnegative(rem, s);
    lemma_mul_strict_inequality(rem, bucket_size, s);
    lemma_mul_is_commutative(rem, s);
    lemma_mul_is_commutative(bucket_size, s);
    vstd::arithmetic::div_mod::lemma_div_pos_is_pos(rem * s, bucket_size);
    vstd::arithmetic::div_mod::lemma_multiply_divide_lt(rem * s, bucket_size, s);
}

/// Continuity at the lattice: exactly at a bucket boundary, that is at
/// x = n * bucket_size, the fractional offset is zero, the kernel collapses
/// to its left input, and the sample equals the bucket value of `n` itself.
pub proof fn lemma_eval_at_lattice_point(seed: u64, bucket_size: int, n: int)
    requires
        0 < bucket_size,
    ensures
        eval_spec(seed, bucket_size, n * bucket_size) == bucket_value_spec(seed, n),
{
    let x: int = n * bucket_size;
    assert(x == n * bucket_size + 0);
    lemma_fundamental_div_mod_converse_div(x, bucket_size, n, 0);
    vstd::arithmetic::div_mod::lemma_fundamental_div_mod_converse_mod(x, bucket_size, n, 0);
    assert(x / bucket_size == n);
    assert(x % bucket_size == 0);
    assert(offset_spec(bucket_size, x) == (0int * (SCALE as int)) / bucket_size);
    assert(0int * (SCALE as int) == 0);
    lemma_div_of0(bucket_size);
    crate::smooth::lemma_boundary_cases(
        bucket_value_spec(seed, n),
        bucket_value_spec(seed, next_bucket_spec(n)),
        0,
    );
}

} // verus!
