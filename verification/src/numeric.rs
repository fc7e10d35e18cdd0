//! Shared integer helpers: floor division of a signed coordinate by a
//! positive bucket size, and small division/multiplication bounds used
//! throughout the fixed-point arithmetic.

use vstd::prelude::*;
use vstd::arithmetic::div_mod::{
    lemma_fundamental_div_mod, lemma_fundamental_div_mod_converse_div, lemma_div_is_ordered,
    lemma_mod_division_less_than_divisor,
};
use vstd::arithmetic::mul::{lemma_mul_inequality, lemma_mul_is_commutative};

verus! {

/// For a nonnegative numerator, shrinking the numerator cannot grow the
/// quotient.
pub proof fn lemma_div_le(a: int, b: int, d: int)
    requires
        0 <= a <= b,
        0 < d,
    ensures
        a / d <= b / d,
        0 <= a / d,
{
    lemma_div_is_ordered(a, b, d);
    vstd::arithmetic::div_mod::lemma_div_pos_is_pos(a, d);
}

/// Multiplying by a factor of at most `s` and dividing by `s` cannot grow a
/// nonnegative value.
pub proof fn lemma_mul_div_le(x: int, m: int, s: int)
    requires
        0 <= x,
        0 <= m <= s,
        0 < s,
    ensures
        0 <= (x * m) / s <= x,
{
    lemma_mul_inequality(m, s, x);
    lemma_mul_is_commutative(m, x);
    lemma_mul_is_commutative(s, x);
    lemma_div_le(x * m, x * s, s);
    vstd::arithmetic::div_mod::lemma_div_by_multiple(x, s);
}

/// Floor division of any `i64` by a positive `i64`, agreeing with the
/// mathematical (Euclidean) quotient.
pub fn floor_div(x: i64, b: i64) -> (q: i64)
    requires
        b > 0,
    ensures
        q as int == (x as int) / (b as int),
{
    if x >= 0 {
        ((x as u64) / (b as u64)) as i64
    } else {
        // magnitude of x, safe for i64::MIN
        let mx: u64 = ((-(x + 1)) as u64) + 1;
        let bu: u64 = b as u64;
        // ceil(mx / bu); mx >= 1 here
        let c: u64 = (mx - 1) / bu + 1;
        proof {
            let mxi = mx as int;
            let bi = b as int;
            let ci = c as int;
            lemma_fundamental_div_mod(mxi - 1, bi);
            lemma_mod_division_less_than_divisor(mxi - 1, bi);
            // bi * ci lands in [mxi, mxi + bi), so r = bi * ci - mxi is a
            // valid Euclidean remainder for x = -mxi with quotient -ci.
            assert(bi * ci == bi * ((mxi - 1) / bi) + bi) by {
                vstd::arithmetic::mul::lemma_mul_is_distributive_add(bi, (mxi - 1) / bi, 1);
            }
            assert(mxi <= bi * ci < mxi + bi);
            assert(x as int == (-ci) * bi + (bi * ci - mxi)) by {
                vstd::arithmetic::mul::lemma_mul_is_commutative(ci, bi);
                vstd::arithmetic::mul::lemma_mul_unary_negation(ci, bi);
            }
            lemma_fundamental_div_mod_converse_div(x as int, bi, -ci, bi * ci - mxi);
        }
        -((c - 1) as i64) - 1
    }
}

} // verus!
