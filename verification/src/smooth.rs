//! The smoothing kernel: interpolates between two bucket values with a
//! logistic-sigmoid shape corrected by a cubic term, so that at both
//! endpoints the kernel returns the endpoint value exactly.
//!
//! All arithmetic is fixed point at scale `SCALE` (2^20): the kernel input
//! `x` covers the unit interval as `0..=SCALE`, and `sigmoid` maps
//! `[-SCALE, SCALE]` into `[0, SCALE]`.

use vstd::prelude::*;
use crate::SCALE;
use crate::numeric::{lemma_div_le, lemma_mul_div_le};
use vstd::arithmetic::div_mod::{
    lemma_div_is_ordered_by_denominator, lemma_div_by_multiple, lemma_div_of0,
    lemma_fundamental_div_mod_converse_div,
};
use vstd::arithmetic::mul::{lemma_mul_inequality, lemma_mul_is_commutative, lemma_mul_upper_bound};

verus! {

/// One Horner step of the truncated Taylor series of e^t evaluated at
/// t = -a/SCALE: from the inner partial `u`, the next partial out.
pub open spec fn exp_step(a: int, u: int, k: int) -> int {
    SCALE - (a * u) / (k * SCALE)
}

/// e^(-a/SCALE) in fixed point, for a in [0, SCALE]: a ten-term Taylor
/// series evaluated by Horner's rule, every partial truncated into
/// [0, SCALE].
pub open spec fn exp_neg_spec(a: int) -> int {
    let u10 = exp_step(a, SCALE as int, 10);
    let u9 = exp_step(a, u10, 9);
    let u8 = exp_step(a, u9, 8);
    let u7 = exp_step(a, u8, 7);
    let u6 = exp_step(a, u7, 6);
    let u5 = exp_step(a, u6, 5);
    let u4 = exp_step(a, u5, 4);
    let u3 = exp_step(a, u4, 3);
    let u2 = exp_step(a, u3, 2);
    exp_step(a, u2, 1)
}

/// The logistic sigmoid 1/(1 + e^-x) in fixed point, for x in
/// [-SCALE, SCALE]; negative arguments go through the exact reflection
/// sigmoid(-x) = 1 - sigmoid(x).
pub open spec fn sigmoid_spec(x: int) -> int {
    let s = SCALE as int;
    if x >= 0 {
        (s * s) / (s + exp_neg_spec(x))
    } else {
        s - (s * s) / (s + exp_neg_spec(-x))
    }
}

/// sigmoid(1) in fixed point.
pub open spec fn sig1_spec() -> int {
    sigmoid_spec(SCALE as int)
}

/// The cubic correction coefficient: one third of the sigmoid derivative at
/// 1, sigmoid'(1) = e^-1 * sigmoid(1)^2.
pub open spec fn coeff_d_spec() -> int {
    let s = SCALE as int;
    (((exp_neg_spec(s) * sig1_spec()) / s) * sig1_spec()) / s / 3
}

/// The raw kernel value at the right endpoint: sigmoid(1) - d.
pub open spec fn high_spec() -> int {
    sig1_spec() - coeff_d_spec()
}

/// The raw kernel value at the left endpoint: sigmoid(-1) + d.
pub open spec fn low_spec() -> int {
    (SCALE as int - sig1_spec()) + coeff_d_spec()
}

/// Fixed-point value of the cubic correction coefficient, proved below to
/// equal its definition.
pub const COEFF_D: u64 = 68720;

/// Fixed-point value of the raw kernel's right endpoint.
pub const HIGH: u64 = 697850;

/// Fixed-point value of the raw kernel's left endpoint.
pub const LOW: u64 = 350726;

/// The kernel constants evaluate to the fixed values used by the
/// executable code, and in particular the raw kernel range [low, high]
/// straddles the midpoint SCALE/2 strictly.
pub proof fn lemma_kernel_constants()
    ensures
        exp_neg_spec(SCALE as int) == 385749,
        sig1_spec() == 766570,
        coeff_d_spec() == COEFF_D as int,
        high_spec() == HIGH as int,
        low_spec() == LOW as int,
        low_spec() < (SCALE as int) / 2 < high_spec(),
{
    let s: int = SCALE as int;
    assert(1048576int * 1048576int == 1099511627776int);
    lemma_fundamental_div_mod_converse_div(1099511627776int, 10485760int, 104857int, 6291456int);
    assert(exp_step(s, 1048576, 10) == 943719);
    assert(1048576int * 943719int == 989561094144int);
    lemma_fundamental_div_mod_converse_div(989561094144int, 9437184int, 104857int, 6291456int);
    assert(exp_step(s, 943719, 9) == 943719);
    assert(1048576int * 943719int == 989561094144int);
    lemma_fundamental_div_mod_converse_div(989561094144int, 8388608int, 117964int, 7340032int);
    assert(exp_step(s, 943719, 8) == 930612);
    assert(1048576int * 930612int == 975817408512int);
    lemma_fundamental_div_mod_converse_div(975817408512int, 7340032int, 132944int, 4194304int);
    assert(exp_step(s, 930612, 7) == 915632);
    assert(1048576int * 915632int == 960109740032int);
    lemma_fundamental_div_mod_converse_div(960109740032int, 6291456int, 152605int, 2097152int);
    assert(exp_step(s, 915632, 6) == 895971);
    assert(1048576int * 895971int == 939493687296int);
    lemma_fundamental_div_mod_converse_div(939493687296int, 5242880int, 179194int, 1048576int);
    assert(exp_step(s, 895971, 5) == 869382);
    assert(1048576int * 869382int == 911613100032int);
    lemma_fundamental_div_mod_converse_div(911613100032int, 4194304int, 217345int, 2097152int);
    assert(exp_step(s, 869382, 4) == 831231);
    assert(1048576int * 831231int == 871608877056int);
    lemma_fundamental_div_mod_converse_div(871608877056int, 3145728int, 277077int, 0int);
    assert(exp_step(s, 831231, 3) == 771499);
    assert(1048576int * 771499int == 808975335424int);
    lemma_fundamental_div_mod_converse_div(808975335424int, 2097152int, 385749int, 1048576int);
    assert(exp_step(s, 771499, 2) == 662827);
    assert(1048576int * 662827int == 695024484352int);
    lemma_fundamental_div_mod_converse_div(695024484352int, 1048576int, 662827int, 0int);
    assert(exp_step(s, 662827, 1) == 385749);
    assert(exp_neg_spec(s) == 385749);
    lemma_fundamental_div_mod_converse_div(1099511627776int, 1434325int, 766570int, 1112526int);
    assert(sig1_spec() == 766570);
    assert(385749int * 766570int == 295703610930int);
    lemma_fundamental_div_mod_converse_div(295703610930int, 1048576int, 282004int, 984626int);
    assert(282004int * 766570int == 216175806280int);
    lemma_fundamental_div_mod_converse_div(216175806280int, 1048576int, 206161int, 329544int);
    lemma_fundamental_div_mod_converse_div(206161int, 3int, 68720int, 1int);
    assert(coeff_d_spec() == 68720);
}

/// One Horner step keeps its partial inside [0, SCALE], and the products
/// involved fit well below the 64-bit limit.
proof fn lemma_exp_step_in_range(a: int, u: int, k: int)
    requires
        0 <= a <= SCALE,
        0 <= u <= SCALE,
        1 <= k,
    ensures
        0 <= a * u <= (SCALE as int) * (SCALE as int),
        0 <= (a * u) / (k * SCALE as int) <= SCALE,
        0 <= exp_step(a, u, k) <= SCALE,
{
    let s: int = SCALE as int;
    lemma_mul_inequality(a, s, u);
    lemma_mul_is_commutative(a, u);
    lemma_mul_is_commutative(s, u);
    lemma_mul_inequality(u, s, s);
    assert(a * u <= s * s);
    vstd::arithmetic::mul::lemma_mul_nonnegative(a, u);
    lemma_mul_inequality(1, k, s);
    assert(s <= k * s) by {
        lemma_mul_is_commutative(k, s);
    }
    lemma_div_le(a * u, s * s, k * s);
    lemma_div_is_ordered_by_denominator(s * s, s, k * s);
    lemma_div_by_multiple(s, s);
}

/// Executable e^(-a/SCALE): mirrors `exp_neg_spec` step by step; every
/// partial stays in [0, SCALE].
fn exp_neg(a: u64) -> (r: u64)
    requires
        a <= SCALE,
    ensures
        r as int == exp_neg_spec(a as int),
        r <= SCALE,
{
    let mut u: u64 = SCALE;
    proof {
        lemma_exp_step_in_range(a as int, u as int, 10);
    }
    u = SCALE - (a * u) / (10 * SCALE);
    proof {
        lemma_exp_step_in_range(a as int, u as int, 9);
    }
    u = SCALE - (a * u) / (9 * SCALE);
    proof {
        lemma_exp_step_in_range(a as int, u as int, 8);
    }
    u = SCALE - (a * u) / (8 * SCALE);
    proof {
        lemma_exp_step_in_range(a as int, u as int, 7);
    }
    u = SCALE - (a * u) / (7 * SCALE);
    proof {
        lemma_exp_step_in_range(a as int, u as int, 6);
    }
    u = SCALE - (a * u) / (6 * SCALE);
    proof {
        lemma_exp_step_in_range(a as int, u as int, 5);
    }
    u = SCALE - (a * u) / (5 * SCALE);
    proof {
        lemma_exp_step_in_range(a as int, u as int, 4);
    }
    u = SCALE - (a * u) / (4 * SCALE);
    proof {
        lemma_exp_step_in_range(a as int, u as int, 3);
    }
    u = SCALE - (a * u) / (3 * SCALE);
    proof {
        lemma_exp_step_in_range(a as int, u as int, 2);
    }
    u = SCALE - (a * u) / (2 * SCALE);
    proof {
        lemma_exp_step_in_range(a as int, u as int, 1);
    }
    u = SCALE - (a * u) / (1 * SCALE);
    u
}

/// Bounds for the sigmoid quotient: with e in [0, SCALE], the value
/// SCALE^2 / (SCALE + e) lies in [SCALE/2, SCALE].
proof fn lemma_sigmoid_core_bounds(e: int)
    requires
        0 <= e <= SCALE,
    ensures
        (SCALE as int) / 2 <= (SCALE as int * SCALE as int) / (SCALE as int + e) <= SCALE as int,
{
    let s: int = SCALE as int;
    lemma_div_is_ordered_by_denominator(s * s, s, s + e);
    lemma_div_by_multiple(s, s);
    lemma_div_is_ordered_by_denominator(s * s, s + e, 2 * s);
    assert((s * s) / (2 * s) == s / 2);
}

/// Executable sigmoid: maps [-SCALE, SCALE] into [0, SCALE], equal to
/// `sigmoid_spec` everywhere on that range.
fn sigmoid(x: i64) -> (r: u64)
    requires
        -(SCALE as i64) <= x <= SCALE as i64,
    ensures
        r as int == sigmoid_spec(x as int),
        r <= SCALE,
        x >= 0 ==> r >= SCALE / 2,
{
    if x >= 0 {
        let e: u64 = exp_neg(x as u64);
        proof {
            lemma_sigmoid_core_bounds(e as int);
        }
        (SCALE * SCALE) / (SCALE + e)
    } else {
        let e: u64 = exp_neg((-x) as u64);
        proof {
            lemma_sigmoid_core_bounds(e as int);
        }
        SCALE - (SCALE * SCALE) / (SCALE + e)
    }
}

/// The cubic correction term never exceeds the coefficient d, each
/// intermediate product stays small, and at m = SCALE every division is
/// exact so the term equals d itself.
proof fn lemma_cubic_term_bounds(m: int)
    requires
        0 <= m <= SCALE,
    ensures
        0 <= (COEFF_D as int * m) / (SCALE as int) <= COEFF_D as int,
        0 <= ((COEFF_D as int * m) / (SCALE as int)) * m <= (COEFF_D as int) * (SCALE as int),
        0 <= (((COEFF_D as int * m) / (SCALE as int)) * m) / (SCALE as int) <= COEFF_D as int,
        0 <= ((((COEFF_D as int * m) / (SCALE as int)) * m) / (SCALE as int)) * m <= (
        COEFF_D as int) * (SCALE as int),
        0 <= (((((COEFF_D as int * m) / (SCALE as int)) * m) / (SCALE as int)) * m) / (
        SCALE as int) <= COEFF_D as int,
        m == SCALE as int ==> (((((COEFF_D as int * m) / (SCALE as int)) * m) / (SCALE as int)) * m)
            / (SCALE as int) == COEFF_D as int,
{
    let s: int = SCALE as int;
    let d: int = COEFF_D as int;
    lemma_mul_div_le(d, m, s);
    let t1: int = (d * m) / s;
    lemma_mul_upper_bound(t1, d, m, s);
    vstd::arithmetic::mul::lemma_mul_nonnegative(t1, m);
    lemma_mul_div_le(t1, m, s);
    let t2: int = (t1 * m) / s;
    lemma_mul_upper_bound(t2, d, m, s);
    vstd::arithmetic::mul::lemma_mul_nonnegative(t2, m);
    lemma_mul_div_le(t2, m, s);
    if m == s {
        lemma_div_by_multiple(d, s);
        lemma_div_by_multiple(t1, s);
        lemma_div_by_multiple(t2, s);
    }
}

/// The kernel curve before rescaling: sigmoid(x') minus the cubic
/// correction d * x'^3, truncating toward zero at every fixed-point
/// multiplication, then clamped into [low, high].
pub open spec fn shaped_spec(xp: int) -> int {
    let s = SCALE as int;
    let m = if xp >= 0 { xp } else { -xp };
    let t = ((((coeff_d_spec() * m) / s) * m) / s * m) / s;
    let raw = if xp >= 0 { sigmoid_spec(xp) - t } else { sigmoid_spec(xp) + t };
    if raw < low_spec() {
        low_spec()
    } else if raw > high_spec() {
        high_spec()
    } else {
        raw
    }
}

/// What `smooth` returns: the blend position is clamped into [0, SCALE],
/// remapped to x' in [-SCALE, SCALE], shaped by the corrected sigmoid, and
/// the result rescaled into the interval between y0 and y1 with a single
/// truncating division.
pub open spec fn smooth_spec(y0: int, y1: int, x: int) -> int {
    let s = SCALE as int;
    let xc = if x < 0 { 0 } else if x > s { s } else { x };
    let xp = 2 * xc - s;
    let q = shaped_spec(xp) - low_spec();
    let span = high_spec() - low_spec();
    let dy = y1 - y0;
    if dy >= 0 {
        y0 + (dy * q) / span
    } else {
        y0 - ((-dy) * q) / span
    }
}

/// The shaped value lies in [low, high], and at the two ends of the remapped
/// interval it hits low and high exactly: there the cubic correction equals
/// the constant d, which the low and high constants were built to cancel.
proof fn lemma_shaped_in_range(xp: int)
    requires
        -(SCALE as int) <= xp <= SCALE as int,
    ensures
        low_spec() <= shaped_spec(xp) <= high_spec(),
        xp == -(SCALE as int) ==> shaped_spec(xp) == low_spec(),
        xp == SCALE as int ==> shaped_spec(xp) == high_spec(),
{
    lemma_kernel_constants();
    let s: int = SCALE as int;
    let m: int = if xp >= 0 { xp } else { -xp };
    lemma_cubic_term_bounds(m);
}

/// The blend quotient is between 0 and the magnitude of y1 - y0; a zero
/// numerator yields exactly 0 and a full span yields exactly the magnitude.
proof fn lemma_blend_bounds(mag: int, q: int, span: int)
    requires
        0 <= mag,
        0 < span,
        0 <= q <= span,
    ensures
        0 <= mag * q <= mag * span,
        0 <= (mag * q) / span <= mag,
        q == span ==> (mag * q) / span == mag,
        q == 0 ==> (mag * q) / span == 0,
{
    vstd::arithmetic::mul::lemma_mul_nonnegative(mag, q);
    lemma_mul_inequality(q, span, mag);
    lemma_mul_is_commutative(q, mag);
    lemma_mul_is_commutative(span, mag);
    lemma_mul_div_le(mag, q, span);
    if q == span {
        lemma_div_by_multiple(mag, span);
    }
    if q == 0 {
        assert(mag * 0 == 0);
        lemma_div_of0(span);
    }
}

/// At x <= 0 and x >= SCALE the kernel collapses to the endpoint values.
pub proof fn lemma_boundary_cases(y0: int, y1: int, x: int)
    ensures
        x <= 0 ==> smooth_spec(y0, y1, x) == y0,
        x >= SCALE as int ==> smooth_spec(y0, y1, x) == y1,
{
    lemma_kernel_constants();
    let s: int = SCALE as int;
    let span: int = high_spec() - low_spec();
    let dy: int = y1 - y0;
    if x <= 0 {
        lemma_shaped_in_range(-s);
        if dy >= 0 {
            lemma_blend_bounds(dy, 0, span);
        } else {
            lemma_blend_bounds(-dy, 0, span);
        }
    }
    if x >= s {
        lemma_shaped_in_range(s);
        if dy >= 0 {
            lemma_blend_bounds(dy, span, span);
        } else {
            lemma_blend_bounds(-dy, span, span);
        }
    }
}

/// The kernel never overshoots: wherever it is evaluated, the sample stays
/// within the closed interval spanned by its two inputs.
pub proof fn lemma_smooth_between(y0: int, y1: int, x: int)
    ensures
        y0 <= y1 ==> y0 <= smooth_spec(y0, y1, x) <= y1,
        y1 <= y0 ==> y1 <= smooth_spec(y0, y1, x) <= y0,
{
    lemma_kernel_constants();
    let s: int = SCALE as int;
    let xc: int = if x < 0 { 0 } else if x > s { s } else { x };
    let xp: int = 2 * xc - s;
    lemma_shaped_in_range(xp);
    let q: int = shaped_spec(xp) - low_spec();
    let span: int = high_spec() - low_spec();
    let dy: int = y1 - y0;
    if dy >= 0 {
        lemma_blend_bounds(dy, q, span);
    } else {
        lemma_blend_bounds(-dy, q, span);
    }
}

/// Interpolates between `y0` (at x = 0) and `y1` (at x = SCALE) with the
/// sigmoid kernel.  At the endpoints the construction cancels exactly, so
/// the kernel returns the endpoint values themselves; everywhere the result
/// stays between the two inputs.  Inputs outside [0, SCALE] clamp to the
/// nearer endpoint.
pub fn smooth(y0: i64, y1: i64, x: i64) -> (r: i64)
    ensures
        r as int == smooth_spec(y0 as int, y1 as int, x as int),
        x <= 0 ==> r == y0,
        x >= SCALE as i64 ==> r == y1,
        y0 <= y1 ==> y0 <= r <= y1,
        y1 <= y0 ==> y1 <= r <= y0,
{
    proof {
        lemma_kernel_constants();
    }
    let s: i64 = SCALE as i64;
    let xc: i64 = if x < 0 {
        0
    } else if x > s {
        s
    } else {
        x
    };
    let xp: i64 = 2 * xc - s;
    let sig: u64 = sigmoid(xp);
    let m: u64 = if xp >= 0 {
        xp as u64
    } else {
        (-xp) as u64
    };
    proof {
        lemma_cubic_term_bounds(m as int);
    }
    let t: u64 = ((((COEFF_D * m) / SCALE) * m) / SCALE * m) / SCALE;
    let raw: i64 = if xp >= 0 {
        (sig - t) as i64
    } else {
        (sig + t) as i64
    };
    let shaped: u64 = if raw < LOW as i64 {
        LOW
    } else if raw > HIGH as i64 {
        HIGH
    } else {
        raw as u64
    };
    proof {
        lemma_shaped_in_range(xp as int);
        assert(shaped as int == shaped_spec(xp as int));
    }
    let q: u64 = shaped - LOW;
    let span: u64 = HIGH - LOW;
    let y0w: i128 = y0 as i128;
    let dyw: i128 = (y1 as i128) - y0w;
    let r: i64 = if dyw >= 0 {
        proof {
            lemma_blend_bounds(dyw as int, q as int, span as int);
        }
        let quot: u128 = ((dyw as u128) * (q as u128)) / (span as u128);
        (y0w + (quot as i128)) as i64
    } else {
        proof {
            lemma_blend_bounds((-dyw) as int, q as int, span as int);
        }
        let quot: u128 = (((-dyw) as u128) * (q as u128)) / (span as u128);
        (y0w - (quot as i128)) as i64
    };
    proof {
        lemma_boundary_cases(y0 as int, y1 as int, x as int);
    }
    r
}

} // verus!
