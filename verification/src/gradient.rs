//! A gradient-noise variant: each lattice point carries a random unit
//! gradient (+1 or -1) and the two enclosing gradients are blended with the
//! parabolic weight w * (1 - w), plus the heightmap builder that samples it
//! across a pixel row.

use vstd::prelude::*;
use crate::SCALE;
use crate::bucket::{gradient_sign, gradient_sign_spec};
use crate::perlinish::next_bucket_spec;
use crate::numeric::floor_div;
use vstd::arithmetic::div_mod::{
    lemma_fundamental_div_mod, lemma_mod_division_less_than_divisor, lemma_div_pos_is_pos,
    lemma_multiply_divide_lt, lemma_div_is_ordered,
};
use vstd::arithmetic::mul::{lemma_mul_is_commutative, lemma_mul_strict_inequality};

verus! {

/// The parabolic blend weight w * (SCALE - w) / SCALE for a fractional
/// offset w in [0, SCALE): at most SCALE / 4, peaking at the midpoint.
pub open spec fn parabola_spec(w: int) -> int {
    (w * (SCALE as int - w)) / (SCALE as int)
}

/// What `perlin1` returns: the difference of the two enclosing unit
/// gradients (0 or +-2) times the parabolic weight of the offset of `x`.
pub open spec fn perlin1_spec(seed: u64, x: int) -> int {
    let s = SCALE as int;
    let p0 = x / s;
    let w = x % s;
    let g0 = gradient_sign_spec(seed, p0);
    let g1 = gradient_sign_spec(seed, next_bucket_spec(p0));
    (g0 - g1) * parabola_spec(w)
}

/// The parabolic weight stays in [0, SCALE / 4] (262144 fixed-point units)
/// and its defining product stays small.
proof fn lemma_parabola_bounds(w: int)
    requires
        0 <= w < SCALE,
    ensures
        0 <= w * (SCALE as int - w) <= (SCALE as int) * (SCALE as int),
        0 <= parabola_spec(w) <= 262144,
{
    let s: int = SCALE as int;
    vstd::arithmetic::mul::lemma_mul_nonnegative(w, s - w);
    assert(w * (s - w) <= 274877906944) by (nonlinear_arith)
        requires
            0 <= w < s,
            s == 1048576,
    ;
    vstd::arithmetic::mul::lemma_mul_upper_bound(w, s, s - w, s);
    // 262144 * 1048576 + 0 == 274877906944, so the quotient bound follows
    vstd::arithmetic::div_mod::lemma_fundamental_div_mod_converse_div(
        274877906944int,
        1048576int,
        262144int,
        0int,
    );
    lemma_div_is_ordered(w * (s - w), 274877906944, s);
    lemma_div_pos_is_pos(w * (s - w), s);
}

/// Gradient noise at fixed-point coordinate `x` on the unit lattice: the
/// two enclosing unit gradients weighted by w * (1 - w).  The sample is a
/// deterministic function of `(seed, x)` and stays within [-1/2, 1/2] of
/// real units.
pub fn perlin1(seed: u64, x: i64) -> (r: i64)
    ensures
        r as int == perlin1_spec(seed, x as int),
        -(SCALE as i64) <= 2 * r <= SCALE as i64,
{
    let s: i64 = SCALE as i64;
    let p0: i64 = floor_div(x, s);
    proof {
        lemma_fundamental_div_mod(x as int, s as int);
        lemma_mod_division_less_than_divisor(x as int, s as int);
        lemma_mul_is_commutative(p0 as int, s as int);
        assert((p0 as int) * (s as int) == x as int - (x as int) % (s as int));
    }
    let w: u64 = ((x as i128) - (p0 as i128) * (s as i128)) as u64;
    proof {
        lemma_parabola_bounds(w as int);
    }
    let t: u64 = (w * (SCALE - w)) / SCALE;
    let p1: i64 = if p0 == i64::MAX {
        i64::MIN
    } else {
        p0 + 1
    };
    let g0: i64 = gradient_sign(seed, p0);
    let g1: i64 = gradient_sign(seed, p1);
    proof {
        assert(w as int == (x as int) % (SCALE as int));
        assert(t as int == parabola_spec(w as int));
        assert(p0 as int == (x as int) / (SCALE as int));
        assert(p1 as int == next_bucket_spec(p0 as int));
        assert(g0 as int == gradient_sign_spec(seed, p0 as int));
        assert(g1 as int == gradient_sign_spec(seed, next_bucket_spec(p0 as int)));
    }
    if g0 == g1 {
        proof {
            vstd::arithmetic::mul::lemma_mul_basics(parabola_spec(w as int));
        }
        0
    } else if g0 > g1 {
        2 * (t as i64)
    } else {
        -(2 * (t as i64))
    }
}

/// The fixed-point coordinate sampled for pixel column `j` of `width`: the
/// row is spread over sixteen lattice buckets.
pub open spec fn sample_x_spec(j: int, width: int) -> int {
    (j * 16 * (SCALE as int)) / width
}

/// Builds a heightmap of `width` gradient-noise samples, one per pixel
/// column, the row spanning sixteen lattice buckets.
pub fn heightmap(seed: u64, width: usize) -> (h: Vec<i64>)
    ensures
        h@.len() == width,
        forall|j: int|
            0 <= j < width ==> #[trigger] h@[j] as int == perlin1_spec(
                seed,
                sample_x_spec(j, width as int),
            ),
{
    let mut h: Vec<i64> = Vec::new();
    let mut i: usize = 0;
    while i < width
        invariant
            i <= width,
            h@.len() == i,
            forall|j: int|
                0 <= j < i ==> #[trigger] h@[j] as int == perlin1_spec(
                    seed,
                    sample_x_spec(j, width as int),
                ),
        decreases width - i,
    {
        proof {
            lemma_sample_x_in_range(i as int, width as int);
        }
        // 16777216 is 16 * SCALE: the row spans sixteen buckets
        let xf: u64 = (((i as u128) * 16777216u128) / (width as u128)) as u64;
        let v: i64 = perlin1(seed, xf as i64);
        h.push(v);
        i = i + 1;
    }
    h
}

/// Sample coordinates stay below sixteen lattice buckets.
proof fn lemma_sample_x_in_range(j: int, width: int)
    requires
        0 <= j < width,
    ensures
        0 <= j * 16 * (SCALE as int) <= width * (16 * (SCALE as int)),
        0 <= sample_x_spec(j, width) < 16 * (SCALE as int),
{
    let c: int = 16 * (SCALE as int);
    vstd::arithmetic::mul::lemma_mul_is_associative(j, 16, SCALE as int);
    vstd::arithmetic::mul::lemma_mul_nonnegative(j, c);
    lemma_mul_strict_inequality(j, width, c);
    lemma_mul_is_commutative(j, c);
    lemma_mul_is_commutative(width, c);
    lemma_div_pos_is_pos(j * c, width);
    lemma_multiply_divide_lt(j * c, width, c);
}

} // verus!
