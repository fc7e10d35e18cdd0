//! One-dimensional value noise with a sigmoid-based smoothing kernel.
//!
//! All quantities are fixed-point numbers: an `i64` (or `u64`) value `v`
//! stands for the real number `v / SCALE`.  The library provides
//! - a per-bucket pseudo-random value generator (`bucket_value`),
//! - a smoothing kernel with exact endpoint behaviour (`smooth`),
//! - the noise evaluator composing the two (`eval`),
//! - a gradient-noise variant (`perlin1`) and a heightmap builder.

use vstd::prelude::*;

mod numeric;
mod bucket;
mod smooth;
mod perlinish;
mod gradient;

pub use bucket::bucket_value;
pub use bucket::bucket_value_spec;
pub use bucket::lemma_bucket_value_deterministic;
pub use bucket::lemma_bucket_value_in_range;
pub use smooth::smooth;
pub use smooth::smooth_spec;
pub use smooth::lemma_smooth_between;
pub use perlinish::eval;
pub use perlinish::eval_spec;
pub use perlinish::NoiseError;
pub use perlinish::lemma_eval_at_lattice_point;
pub use gradient::perlin1;
pub use gradient::heightmap;

verus! {

/// Fixed-point scale: a stored value `v` stands for the real number
/// `v / SCALE`.  One unit interval of the noise lattice is `SCALE` ticks.
pub const SCALE: u64 = 1048576;

} // verus!
