//! Random index selection.  The simulation's random number generator is a
//! permuted congruential generator of `rand_pcg`; indices are drawn with
//! the `Uniform` and `WeightedIndex` distributions of `rand_distr`.
use vstd::prelude::*;

use rand_distr::Distribution;

use crate::errors::SimulationError;

verus! {

#[verifier::external_type_specification]
#[verifier::external_body]
pub struct ExMcg128Xsl64(rand_pcg::Mcg128Xsl64);

#[verifier::external_type_specification]
#[verifier::external_body]
pub struct ExWeightedError(rand_distr::WeightedError);

/// The sum of the weights.
pub open spec fn weights_total(weights: Seq<u64>) -> int
    decreases weights.len(),
{
    if weights.len() == 0 {
        0
    } else {
        weights_total(weights.drop_last()) + weights.last()
    }
}

/// Draws from `rand_distr::Uniform::new(min, max)` with the generator.
/// `Uniform::new` panics unless `min < max`; its integer sampler returns
/// `low + hi` with `hi` below the width of the range, so the result lies
/// in `[min, max)`.  Which value comes depends on the generator's state.
#[verifier::external_body]
fn sample_uniform_usize(min: usize, max: usize, rng: &mut rand_pcg::Mcg128Xsl64) -> (x: usize)
    requires
        min < max,
    ensures
        min <= x < max,
{
    rand_distr::Uniform::new(min, max).sample(rng)
}

/// Draws from `rand_distr::Uniform::new(min, max)` over `u64` with the
/// generator: as for `usize`, `Uniform::new` panics unless `min < max`, and
/// the result lies in `[min, max)`.  Which value comes depends on the
/// generator's state.
#[verifier::external_body]
fn sample_uniform_u64(min: u64, max: u64, rng: &mut rand_pcg::Mcg128Xsl64) -> (x: u64)
    requires
        min < max,
    ensures
        min <= x < max,
{
    rand_distr::Uniform::new(min, max).sample(rng)
}

/// A discrete uniform random variate in `[min, max)`, drawn with the
/// simulation's generator.
pub fn discrete_uniform_variate(min: u64, max: u64, rng: &mut rand_pcg::Mcg128Xsl64) -> (x: u64)
    requires
        min < max,
    ensures
        min <= x < max,
{
    sample_uniform_u64(min, max, rng)
}

/// Draws from `rand_distr::WeightedIndex::new(weights)` with the generator.
/// `WeightedIndex::new` fails with `NoItem` on no weights and with
/// `AllWeightsZero` when they sum to zero (with unsigned weights no other
/// error arises); it sums the weights with `+=`, so the sum must fit.
/// Sampling picks a point below the total and returns the first index whose
/// cumulative weight exceeds it, so the index is in range and its weight is
/// positive.  Which index comes depends on the generator's state.
#[verifier::external_body]
fn sample_weighted_index(weights: Vec<u64>, rng: &mut rand_pcg::Mcg128Xsl64) -> (r: Result<
    usize,
    rand_distr::WeightedError,
>)
    requires
        weights_total(weights@) <= u64::MAX,
    ensures
        r is Err <==> (weights@.len() == 0 || weights_total(weights@) == 0),
        r matches Ok(i) ==> i < weights@.len() && weights@[i as int] > 0,
{
    match rand_distr::WeightedIndex::new(weights) {
        Ok(distribution) => Ok(distribution.sample(rng)),
        Err(e) => Err(e),
    }
}

/// A random variable over indices.
#[derive(Debug, Clone)]
pub enum Index {
    /// Range is inclusive of min, exclusive of max: [min, max)
    Uniform { min: usize, max: usize },
    /// Index `i` is drawn with probability proportional to `weights[i]`.
    WeightedIndex { weights: Vec<u64> },
}

impl Index {
    /// The variable can be drawn from: a uniform range must not be empty,
    /// and weights must sum to a `u64`.
    pub open spec fn valid(&self) -> bool {
        match *self {
            Index::Uniform { min, max } => min < max,
            Index::WeightedIndex { weights } => weights_total(weights@) <= u64::MAX,
        }
    }

    /// The indices the variable can take.
    pub open spec fn in_support(&self, i: usize) -> bool {
        match *self {
            Index::Uniform { min, max } => min <= i < max,
            Index::WeightedIndex { weights } => i < weights@.len() && weights@[i as int] > 0,
        }
    }

    /// Drawing fails exactly for weights that are empty or all zero.
    pub open spec fn fails(&self) -> bool {
        match *self {
            Index::Uniform { .. } => false,
            Index::WeightedIndex { weights } => weights@.len() == 0 || weights_total(weights@)
                == 0,
        }
    }

    /// Draws a random variate with the simulation's generator: an index in
    /// the support of the variable, or the distribution's error.
    pub fn random_variate(&mut self, rng: &mut rand_pcg::Mcg128Xsl64) -> (r: Result<usize, SimulationError>)
        requires
            old(self).valid(),
        ensures
            *final(self) == *old(self),
            r is Err <==> old(self).fails(),
            r matches Ok(i) ==> old(self).in_support(i),
            r matches Err(e) ==> e is WeightedError,
    {
        match self {
            Index::Uniform { min, max } => Ok(sample_uniform_usize(*min, *max, rng)),
            Index::WeightedIndex { weights } => {
                match sample_weighted_index(weights.clone(), rng) {
                    Ok(i) => Ok(i),
                    Err(e) => Err(SimulationError::WeightedError(e)),
                }
            },
        }
    }
}

} // verus!
