//! The bookkeeping of output analysis: independent samples, terminating
//! simulation replications, and the deletion and batching plan of
//! steady-state output analysis.  The arithmetic on the sample values
//! themselves is floating point and is done by the caller, which hands the
//! results to these types.
use vstd::prelude::*;

use crate::errors::SimulationError;
use crate::utils::{integer_sqrt, is_integer_sqrt, lemma_integer_sqrt_unique, usize_sqrt};

verus! {

/// The largest number of batches that steady-state analysis forms.
pub const MAX_BATCH_COUNT: usize = 30;


/// The deletion and batching configuration of a steady-state output.
#[derive(Debug, Clone, Copy, PartialEq, Eq)]
pub struct BatchPlan {
    /// Points before this index are discarded.
    pub deletion_point: usize,
    /// The number of points in each batch.
    pub batch_size: usize,
    /// The number of batches.
    pub batch_count: usize,
}

impl BatchPlan {
    /// The plan covers the time series of length `len` exactly: the batches
    /// start at the deletion point and end at the last point.
    pub open spec fn covers(self, len: int) -> bool {
        &&& 1 <= self.batch_count <= MAX_BATCH_COUNT
        &&& 1 <= self.batch_size
        &&& self.deletion_point + self.batch_count * self.batch_size == len
    }

    /// The first index of batch `i`.
    pub open spec fn spec_batch_start(self, i: int) -> int {
        self.deletion_point + self.batch_size * i
    }
}

/// The fixed-budget plan for a series of length `len` whose MSER deletion
/// point is `d`: `min(isqrt(len - d), 30)` batches of size
/// `(len - d) / count`, with the points left over deleted from the start.
pub open spec fn fixed_budget_spec(len: int, d: int) -> BatchPlan {
    let root = integer_sqrt(len - d);
    let count = if root < MAX_BATCH_COUNT as int { root } else { MAX_BATCH_COUNT as int };
    let size = (len - d) / count;
    BatchPlan {
        deletion_point: (len - count * size) as usize,
        batch_size: size as usize,
        batch_count: count as usize,
    }
}

/// The fixed-budget plan, in terms of the integer square root `r` of the
/// number of points kept after the MSER deletion point `d`: the plan has
/// `min(r, 30)` batches, each of `(len - d) / min(r, 30)` points, and the
/// deletion point moves up just enough for the batches to end at the last
/// point.  (Lengths are those of a series in memory.)
pub proof fn lemma_fixed_budget_counts_kept_points(len: int, d: int, r: int)
    requires
        0 <= d < len <= usize::MAX,
        is_integer_sqrt(len - d, r),
    ensures
        fixed_budget_spec(len, d).batch_count == (if r < 30 { r } else { 30 }),
        fixed_budget_spec(len, d).batch_size == (len - d) / (if r < 30 { r } else { 30 }),
        fixed_budget_spec(len, d).deletion_point == len - (if r < 30 { r } else { 30 }) * ((len
            - d) / (if r < 30 { r } else { 30 })),
{
    lemma_integer_sqrt_unique(len - d, r);
    assert(r >= 1) by (nonlinear_arith)
        requires
            len - d >= 1,
            len - d < (r + 1) * (r + 1),
            r >= 0,
    ;
    let c = if r < 30 { r } else { 30 };
    let q = (len - d) / c;
    assert(0 <= c * q <= len - d) by (nonlinear_arith)
        requires
            c >= 1,
            len - d >= 1,
            q == (len - d) / c,
    ;
    assert(0 <= q <= len - d) by (nonlinear_arith)
        requires
            c >= 1,
            len - d >= 1,
            q == (len - d) / c,
    ;
}

/// Schmeiser's fixed-budget batching: starting from the deletion point that
/// MSER found, form `min(isqrt(len - deletion), 30)` batches of equal size;
/// points left over are also deleted, from the beginning.
pub fn fixed_budget_plan(len: usize, mser_deletion_point: usize) -> (plan: BatchPlan)
    requires
        mser_deletion_point < len,
    ensures
        plan == fixed_budget_spec(len as int, mser_deletion_point as int),
        mser_deletion_point <= plan.deletion_point,
        plan.covers(len as int),
{
    let remaining = len - mser_deletion_point;
    let root = usize_sqrt(remaining);
    assert(root >= 1) by (nonlinear_arith)
        requires
            remaining >= 1,
            remaining < (root + 1) * (root + 1),
    ;
    let batch_count = if root < MAX_BATCH_COUNT { root } else { MAX_BATCH_COUNT };
    let batch_size = remaining / batch_count;
    assert(batch_count * batch_size <= remaining) by (nonlinear_arith)
        requires
            batch_count >= 1,
            batch_size == remaining / batch_count,
    ;
    assert(batch_size >= 1) by (nonlinear_arith)
        requires
            1 <= batch_count <= root,
            root * root <= remaining,
            batch_size == remaining / batch_count,
    {
        assert(batch_count <= remaining) by {
            assert(root <= root * root);
        }
    }
    let deletion_point = len - batch_count * batch_size;
    BatchPlan { deletion_point, batch_size, batch_count }
}

/// The indices of batch `i`: its first index, and one past its last.
pub fn batch_bounds(plan: BatchPlan, len: usize, i: usize) -> (bounds: (usize, usize))
    requires
        plan.covers(len as int),
        i < plan.batch_count,
    ensures
        bounds.0 == plan.spec_batch_start(i as int),
        bounds.1 == plan.spec_batch_start(i + 1),
        bounds.0 + plan.batch_size == bounds.1,
        bounds.1 <= len,
{
    assert(plan.batch_size * (i + 1) <= plan.batch_size * plan.batch_count) by (nonlinear_arith)
        requires
            i < plan.batch_count,
            plan.batch_size >= 1,
    ;
    assert(plan.batch_size * (i + 1) == plan.batch_size * i + plan.batch_size) by (nonlinear_arith);
    assert(plan.batch_count * plan.batch_size == plan.batch_size * plan.batch_count) by (
    nonlinear_arith);
    let start = plan.deletion_point + plan.batch_size * i;
    (start, start + plan.batch_size)
}

/// The batches of a plan that covers a series partition the points after
/// the deletion point: every such point lies in exactly one batch, the one
/// numbered by its offset divided by the batch size, and the batches are
/// consecutive.
pub proof fn lemma_batches_partition(plan: BatchPlan, len: int, j: int)
    requires
        plan.covers(len),
        plan.deletion_point <= j < len,
    ensures
        0 <= (j - plan.deletion_point) / (plan.batch_size as int) < plan.batch_count,
        plan.spec_batch_start((j - plan.deletion_point) / (plan.batch_size as int)) <= j,
        j < plan.spec_batch_start((j - plan.deletion_point) / (plan.batch_size as int) + 1),
        forall|i: int|
            0 <= i < plan.batch_count && #[trigger] plan.spec_batch_start(i) <= j
                < plan.spec_batch_start(i + 1) ==> i == (j - plan.deletion_point) / (
            plan.batch_size as int),
{
    let d = plan.deletion_point as int;
    let s = (plan.batch_size as int);
    let c = plan.batch_count as int;
    let k = (j - d) / s;
    assert(0 <= k < c && s * k <= j - d < s * (k + 1)) by (nonlinear_arith)
        requires
            s >= 1,
            0 <= j - d < c * s,
            k == (j - d) / s,
    ;
    assert forall|i: int|
        0 <= i < c && #[trigger] plan.spec_batch_start(i) <= j < plan.spec_batch_start(i + 1)
        implies i == k by {
        assert(i == k) by (nonlinear_arith)
            requires
                s >= 1,
                d + s * i <= j < d + s * (i + 1),
                s * k <= j - d < s * (k + 1),
        ;
    }
}

/// The independent sample is for independent, identically-distributed (IID)
/// samples.  It holds the points together with their sample mean and sample
/// variance.
#[derive(Debug, Clone)]
pub struct IndependentSample<T> {
    points: Vec<T>,
    mean: T,
    variance: T,
}

impl<T: Copy> IndependentSample<T> {
    /// The points of the sample.
    pub closed spec fn spec_points(&self) -> Seq<T> {
        self.points@
    }

    /// The sample mean.
    pub closed spec fn spec_mean(&self) -> T {
        self.mean
    }

    /// The sample variance.
    pub closed spec fn spec_variance(&self) -> T {
        self.variance
    }

    /// Creates a sample from its points and their statistics.
    pub fn with_statistics(points: Vec<T>, mean: T, variance: T) -> (sample: Self)
        ensures
            sample.spec_points() == points@,
            sample.spec_mean() == mean,
            sample.spec_variance() == variance,
    {
        IndependentSample { points, mean, variance }
    }

    /// The points of the sample.
    pub fn points(&self) -> (points: &Vec<T>)
        ensures
            points@ == self.spec_points(),
    {
        &self.points
    }

    /// Return the sample mean.
    pub fn point_estimate_mean(&self) -> (mean: T)
        ensures
            mean == self.spec_mean(),
    {
        self.mean
    }

    /// Return the sample variance.
    pub fn variance(&self) -> (variance: T)
        ensures
            variance == self.spec_variance(),
    {
        self.variance
    }
}

/// Terminating simulations are useful when the initial and final conditions
/// of a simulation are known.  The output holds one time series for each
/// replication.
#[derive(Debug, Clone)]
pub struct TerminatingSimulationOutput<T> {
    time_series_replications: Vec<Vec<T>>,
    replication_means: Vec<T>,
    replications_mean: Option<T>,
    replications_variance: Option<T>,
}

impl<T> TerminatingSimulationOutput<T> {
    /// The time series of the replications, in the order they were loaded.
    pub closed spec fn spec_replications(&self) -> Seq<Seq<T>> {
        self.time_series_replications@.map_values(|r: Vec<T>| r@)
    }

    /// The stored mean of each replication.
    pub closed spec fn spec_replication_means(&self) -> Seq<T> {
        self.replication_means@
    }

    /// The stored mean over the replications.
    pub closed spec fn spec_replications_mean(&self) -> Option<T> {
        self.replications_mean
    }

    /// The stored variance over the replications.
    pub closed spec fn spec_replications_variance(&self) -> Option<T> {
        self.replications_variance
    }

    /// Creates a new terminating simulation output, with a single
    /// replication.
    pub fn post(time_series: Vec<T>) -> (output: Self)
        ensures
            output.spec_replications() == seq![time_series@],
            output.spec_replication_means().len() == 0,
            output.spec_replications_mean() is None,
            output.spec_replications_variance() is None,
    {
        let mut replications: Vec<Vec<T>> = Vec::new();
        replications.push(time_series);
        let output = TerminatingSimulationOutput {
            time_series_replications: replications,
            replication_means: Vec::new(),
            replications_mean: None,
            replications_variance: None,
        };
        assert(output.spec_replications() =~= seq![output.time_series_replications@[0]@]);
        output
    }

    /// Loads one more replication's time series.
    pub fn put_time_series(&mut self, time_series: Vec<T>)
        ensures
            final(self).spec_replications() == old(self).spec_replications().push(time_series@),
            final(self).spec_replication_means() == old(self).spec_replication_means(),
            final(self).spec_replications_mean() == old(self).spec_replications_mean(),
            final(self).spec_replications_variance() == old(self).spec_replications_variance(),
    {
        let ghost before = self.time_series_replications@;
        self.time_series_replications.push(time_series);
        assert(self.time_series_replications@.map_values(|r: Vec<T>| r@) =~= before.map_values(
            |r: Vec<T>| r@,
        ).push(time_series@));
    }

    /// The number of replications loaded.
    pub fn replication_count(&self) -> (count: usize)
        ensures
            count == self.spec_replications().len(),
    {
        self.time_series_replications.len()
    }
}

/// Steady-state output analysis of a single long time series, with
/// deletion of initialization bias and batching against autocorrelation.
#[derive(Debug, Clone)]
pub struct SteadyStateOutput<T> {
    time_series: Vec<T>,
    deletion_point: Option<usize>,
    batch_size: Option<usize>,
    batch_count: Option<usize>,
    batch_means: Vec<T>,
    batches_mean: Option<T>,
    batches_variance: Option<T>,
}

impl<T: Copy> SteadyStateOutput<T> {
    /// The time series.
    pub closed spec fn spec_time_series(&self) -> Seq<T> {
        self.time_series@
    }

    /// The batching plan, once it has been set.
    pub closed spec fn spec_plan(&self) -> Option<BatchPlan> {
        match (self.deletion_point, self.batch_size, self.batch_count) {
            (Some(d), Some(s), Some(c)) => Some(
                BatchPlan { deletion_point: d, batch_size: s, batch_count: c },
            ),
            _ => None,
        }
    }

    /// The mean of the batch means, once computed.
    pub closed spec fn spec_batches_mean(&self) -> Option<T> {
        self.batches_mean
    }

    /// The variance of the batch means, once computed.
    pub closed spec fn spec_batches_variance(&self) -> Option<T> {
        self.batches_variance
    }

    /// The batch means, once computed.
    pub closed spec fn spec_batch_means(&self) -> Seq<T> {
        self.batch_means@
    }

    /// The plan and the statistics agree: a plan, when set, covers the time
    /// series, and statistics exist only with a plan, one mean per batch.
    pub closed spec fn wf(&self) -> bool {
        &&& (self.deletion_point.is_some() == self.batch_size.is_some())
        &&& (self.batch_size.is_some() == self.batch_count.is_some())
        &&& (self.spec_plan() matches Some(p) ==> p.covers(self.time_series@.len() as int))
        &&& (self.batches_mean.is_some() ==> self.spec_plan() is Some
            && self.batches_variance.is_some()
            && self.batch_means@.len() == self.spec_plan().unwrap().batch_count)
    }

    /// Creates the output from the simulation output time series.
    pub fn post(time_series: Vec<T>) -> (output: Self)
        ensures
            output.wf(),
            output.spec_time_series() == time_series@,
            output.spec_plan() is None,
            output.spec_batches_mean() is None,
            output.spec_batches_variance() is None,
            output.spec_batch_means().len() == 0,
    {
        SteadyStateOutput {
            time_series,
            deletion_point: None,
            batch_size: None,
            batch_count: None,
            batch_means: Vec::new(),
            batches_mean: None,
            batches_variance: None,
        }
    }

    /// The time series.
    pub fn time_series(&self) -> (series: &Vec<T>)
        ensures
            series@ == self.spec_time_series(),
    {
        &self.time_series
    }

    /// The batching plan, once set.
    pub fn plan(&self) -> (plan: Option<BatchPlan>)
        ensures
            plan == self.spec_plan(),
    {
        match (self.deletion_point, self.batch_size, self.batch_count) {
            (Some(d), Some(s), Some(c)) => Some(
                BatchPlan { deletion_point: d, batch_size: s, batch_count: c },
            ),
            _ => None,
        }
    }

    /// Sets the deletion and batching configuration from the MSER
    /// minimum's position (found by the caller over the first half of the
    /// series).  Without such a position the prerequisite calculation
    /// failed.
    pub fn set_to_fixed_budget(&mut self, mser_minimum: Option<usize>) -> (r: Result<(), SimulationError>)
        requires
            old(self).wf(),
            mser_minimum matches Some(d) ==> d < old(self).spec_time_series().len(),
        ensures
            final(self).wf(),
            final(self).spec_time_series() == old(self).spec_time_series(),
            mser_minimum is None ==> r == Err::<(), SimulationError>(
                SimulationError::PrerequisiteCalcError,
            ) && *final(self) == *old(self),
            mser_minimum matches Some(d) ==> {
                &&& r is Ok
                &&& final(self).spec_plan() == Some(
                    fixed_budget_spec(old(self).spec_time_series().len() as int, d as int),
                )
                &&& final(self).spec_batches_mean() is None
                &&& final(self).spec_batch_means().len() == 0
            },
    {
        match mser_minimum {
            None => Err(SimulationError::PrerequisiteCalcError),
            Some(d) => {
                let plan = fixed_budget_plan(self.time_series.len(), d);
                self.deletion_point = Some(plan.deletion_point);
                self.batch_size = Some(plan.batch_size);
                self.batch_count = Some(plan.batch_count);
                self.batch_means = Vec::new();
                self.batches_mean = None;
                self.batches_variance = None;
                Ok(())
            }
        }
    }

    /// Stores the batch means and their mean and variance, computed by the
    /// caller over the batches of the plan.  Without a plan the
    /// prerequisite calculation was not executed; the number of means must
    /// match the number of batches.
    pub fn set_batch_statistics(&mut self, batch_means: Vec<T>, mean: T, variance: T) -> (r:
        Result<(), SimulationError>)
        requires
            old(self).wf(),
        ensures
            final(self).wf(),
            final(self).spec_time_series() == old(self).spec_time_series(),
            final(self).spec_plan() == old(self).spec_plan(),
            r is Ok <==> (old(self).spec_plan() matches Some(p) && batch_means@.len()
                == p.batch_count),
            r is Ok ==> final(self).spec_batches_mean() == Some(mean)
                && final(self).spec_batches_variance() == Some(variance)
                && final(self).spec_batch_means() == batch_means@,
            r is Err ==> r == Err::<(), SimulationError>(SimulationError::PrerequisiteCalcError)
                && *final(self) == *old(self),
    {
        match self.batch_count {
            Some(count) => {
                if batch_means.len() == count {
                    self.batch_means = batch_means;
                    self.batches_mean = Some(mean);
                    self.batches_variance = Some(variance);
                    Ok(())
                } else {
                    Err(SimulationError::PrerequisiteCalcError)
                }
            },
            None => Err(SimulationError::PrerequisiteCalcError),
        }
    }

    /// The stored mean of the batch means: a read of the batch statistics,
    /// which fails while they have not been calculated (the point estimate
    /// itself, computed on demand, is floating-point work of the caller,
    /// which stores its result with `set_batch_statistics`).
    pub fn batches_mean(&self) -> (mean: Result<T, SimulationError>)
        ensures
            self.spec_batches_mean() matches Some(m) ==> mean == Ok::<T, SimulationError>(m),
            self.spec_batches_mean() is None ==> mean == Err::<T, SimulationError>(
                SimulationError::PrerequisiteCalcError,
            ),
    {
        match self.batches_mean {
            Some(m) => Ok(m),
            None => Err(SimulationError::PrerequisiteCalcError),
        }
    }

    /// The variance of the batch means, once calculated.
    pub fn batches_variance(&self) -> (variance: Option<T>)
        ensures
            variance == self.spec_batches_variance(),
    {
        self.batches_variance
    }

    /// The batch means, once calculated.
    pub fn batch_means(&self) -> (means: &Vec<T>)
        ensures
            means@ == self.spec_batch_means(),
    {
        &self.batch_means
    }
}

} // verus!
