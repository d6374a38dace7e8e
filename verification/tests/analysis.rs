use sim::errors::SimulationError;
use sim::output_analysis::{
    batch_bounds, fixed_budget_plan, BatchPlan, IndependentSample, SteadyStateOutput,
    TerminatingSimulationOutput,
};

#[test]
fn fixed_budget_plan_values() {
    assert_eq!(
        fixed_budget_plan(100, 0),
        BatchPlan { deletion_point: 0, batch_size: 10, batch_count: 10 }
    );
    // sqrt(990) = 31 is capped at 30 batches of 33; nothing is left over.
    assert_eq!(
        fixed_budget_plan(1000, 10),
        BatchPlan { deletion_point: 10, batch_size: 33, batch_count: 30 }
    );
    // sqrt(50) = 7 batches of 7 leave one point, deleted from the start.
    assert_eq!(
        fixed_budget_plan(53, 3),
        BatchPlan { deletion_point: 4, batch_size: 7, batch_count: 7 }
    );
    assert_eq!(
        fixed_budget_plan(2, 1),
        BatchPlan { deletion_point: 1, batch_size: 1, batch_count: 1 }
    );
}

#[test]
fn batches_partition_the_tail() {
    let plan = fixed_budget_plan(53, 3);
    let mut next = plan.deletion_point;
    for i in 0..plan.batch_count {
        let (start, end) = batch_bounds(plan, 53, i);
        assert_eq!(start, next);
        assert_eq!(end - start, plan.batch_size);
        next = end;
    }
    assert_eq!(next, 53);
}

#[test]
fn steady_state_bookkeeping() {
    let mut out = SteadyStateOutput::post(vec![1u32; 20]);
    assert!(out.plan().is_none());
    assert!(out.batches_variance().is_none());
    assert!(out.batch_means().is_empty());
    assert!(matches!(out.batches_mean(), Err(SimulationError::PrerequisiteCalcError)));
    assert!(matches!(out.set_to_fixed_budget(None), Err(SimulationError::PrerequisiteCalcError)));
    out.set_to_fixed_budget(Some(4)).unwrap();
    assert_eq!(out.plan(), Some(BatchPlan { deletion_point: 4, batch_size: 4, batch_count: 4 }));
    assert!(matches!(
        out.set_batch_statistics(vec![1, 1], 1, 0),
        Err(SimulationError::PrerequisiteCalcError)
    ));
    out.set_batch_statistics(vec![1, 1, 1, 1], 1, 0).unwrap();
    assert_eq!(out.batches_mean().unwrap(), 1);
    assert_eq!(out.batches_variance(), Some(0));
    assert_eq!(out.batch_means().len(), 4);
}

#[test]
fn independent_sample_statistics() {
    let s = IndependentSample::with_statistics(vec![1, 2, 3], 2, 1);
    assert_eq!(s.point_estimate_mean(), 2);
    assert_eq!(s.variance(), 1);
    assert_eq!(s.points().len(), 3);
}

#[test]
fn terminating_output_replications() {
    let mut t = TerminatingSimulationOutput::post(vec![1, 2]);
    assert_eq!(t.replication_count(), 1);
    t.put_time_series(vec![3]);
    t.put_time_series(vec![]);
    assert_eq!(t.replication_count(), 3);
}
