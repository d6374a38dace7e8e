use sim::errors::SimulationError;
use sim::models::batcher::Batcher;
use sim::models::exclusive_gateway::ExclusiveGateway;
use sim::models::gate::Gate;
use sim::models::generator::Generator;
use sim::models::load_balancer::LoadBalancer;
use sim::models::parallel_gateway::ParallelGateway;
use sim::models::processor::Processor;
use sim::models::stochastic_gate::StochasticGate;
use sim::models::stopwatch::{Metric, Stopwatch, StopwatchArrival};
use sim::models::storage::Storage;
use sim::models::{Model, ModelMessage, Reportable, Timer};
use sim::input_modeling::Index;

fn msg(port: &str, content: &str) -> ModelMessage {
    ModelMessage { port_name: port.to_string(), content: content.to_string() }
}

fn pairs(out: &[ModelMessage]) -> Vec<(String, String)> {
    out.iter().map(|m| (m.port_name.clone(), m.content.clone())).collect()
}

fn p(a: &str, b: &str) -> (String, String) {
    (a.to_string(), b.to_string())
}

#[test]
fn storage_read_after_write() {
    let mut s = Storage::new("store".into(), "read".into(), "stored".into(), true);
    assert_eq!(s.status(), "Empty");
    assert_eq!(s.events_ext(&msg("store", "job 7")).unwrap(), Timer::Keep);
    assert_eq!(s.status(), "Storing job 7");
    assert_eq!(s.events_ext(&msg("read", "")).unwrap(), Timer::Immediate);
    let (out, timer) = s.events_int().unwrap();
    assert_eq!(pairs(&out), vec![p("stored", "job 7")]);
    assert_eq!(timer, Timer::Passive);
    // The value stays stored: a second read gives it again.
    s.events_ext(&msg("read", "")).unwrap();
    let (out, _) = s.events_int().unwrap();
    assert_eq!(pairs(&out), vec![p("stored", "job 7")]);
    let actions: Vec<String> = s.records().iter().map(|r| r.action.clone()).collect();
    assert_eq!(actions, vec!["Arrival", "Departure", "Departure"]);
}

#[test]
fn storage_empty_read_and_unknown_port() {
    let mut s = Storage::new("store".into(), "read".into(), "stored".into(), false);
    s.events_ext(&msg("read", "")).unwrap();
    let (out, _) = s.events_int().unwrap();
    assert!(out.is_empty());
    assert!(matches!(s.events_ext(&msg("other", "x")), Err(SimulationError::InvalidMessage)));
    // Passive storage has no outputs.
    let (out, timer) = s.events_int().unwrap();
    assert!(out.is_empty());
    assert_eq!(timer, Timer::Passive);
    assert!(s.records().is_empty());
}

#[test]
fn processor_queue_capacity_and_fifo() {
    let mut m = Processor::new(Some(2), "job".into(), "processed".into(), true);
    assert_eq!(m.status(), "Passive");
    assert_eq!(m.events_ext(&msg("job", "job 1")).unwrap(), Timer::Scheduled);
    assert_eq!(m.status(), "Processing");
    assert_eq!(m.events_ext(&msg("job", "job 2")).unwrap(), Timer::Keep);
    // Queue full: the third job is dropped.
    assert_eq!(m.events_ext(&msg("job", "job 3")).unwrap(), Timer::Keep);
    let (out, timer) = m.events_int().unwrap();
    assert_eq!(pairs(&out), vec![p("processed", "job 1")]);
    assert_eq!(timer, Timer::Immediate);
    let (out, timer) = m.events_int().unwrap();
    assert!(out.is_empty());
    assert_eq!(timer, Timer::Scheduled);
    let (out, _) = m.events_int().unwrap();
    assert_eq!(pairs(&out), vec![p("processed", "job 2")]);
    let (out, timer) = m.events_int().unwrap();
    assert!(out.is_empty());
    assert_eq!(timer, Timer::Passive);
    let actions: Vec<String> = m.records().iter().map(|r| r.action.clone()).collect();
    assert_eq!(
        actions,
        vec!["Arrival", "Processing Start", "Arrival", "Drop", "Departure", "Processing Start", "Departure"]
    );
}

#[test]
fn processor_of_zero_capacity_serves_one_job_at_a_time() {
    let mut m = Processor::new(Some(0), "job".into(), "processed".into(), true);
    // An idle processor takes the job, whatever its queue capacity.
    assert_eq!(m.events_ext(&msg("job", "job 1")).unwrap(), Timer::Scheduled);
    assert_eq!(m.status(), "Processing");
    // While busy, with no room to queue, a second job is dropped.
    assert_eq!(m.events_ext(&msg("job", "job 2")).unwrap(), Timer::Keep);
    let (out, timer) = m.events_int().unwrap();
    assert_eq!(pairs(&out), vec![p("processed", "job 1")]);
    assert_eq!(timer, Timer::Immediate);
    let (out, timer) = m.events_int().unwrap();
    assert!(out.is_empty());
    assert_eq!(timer, Timer::Passive);
    let actions: Vec<String> = m.records().iter().map(|r| r.action.clone()).collect();
    assert_eq!(actions, vec!["Arrival", "Processing Start", "Drop", "Departure"]);
}

#[test]
fn processor_releases_a_long_queue_in_order() {
    let queue: Vec<String> = (1..=100).map(|k| format!("job {}", k)).collect();
    let mut m = Processor::restore(usize::MAX, "job".into(), "processed job".into(), false, false, queue, vec![]);
    for k in 1..=100 {
        let (out, _) = m.events_int().unwrap();
        assert!(out.is_empty());
        let (out, _) = m.events_int().unwrap();
        assert_eq!(pairs(&out), vec![p("processed job", &format!("job {}", k))]);
    }
}

#[test]
fn processor_errors() {
    let mut m = Processor::new(None, "job".into(), "processed".into(), false);
    assert!(matches!(m.events_ext(&msg("other", "j")), Err(SimulationError::InvalidMessage)));
}

#[test]
fn batcher_releases_batches() {
    let mut b = Batcher::new("job".into(), "job".into(), 3, true);
    assert_eq!(b.status(), "Passive");
    assert_eq!(b.events_ext(&msg("job", "a")).unwrap(), Timer::Scheduled);
    assert_eq!(b.status(), "Creating batch");
    assert_eq!(b.events_ext(&msg("job", "b")).unwrap(), Timer::Keep);
    assert_eq!(b.events_ext(&msg("job", "c")).unwrap(), Timer::Immediate);
    assert_eq!(b.status(), "Releasing batch");
    assert_eq!(b.events_ext(&msg("job", "d")).unwrap(), Timer::Immediate);
    // Four jobs, batch size three: one batch now, the rest starts a batch.
    let (out, timer) = b.events_int().unwrap();
    assert_eq!(pairs(&out), vec![p("job", "a"), p("job", "b"), p("job", "c")]);
    assert_eq!(timer, Timer::Scheduled);
    let (out, timer) = b.events_int().unwrap();
    assert_eq!(pairs(&out), vec![p("job", "d")]);
    assert_eq!(timer, Timer::Passive);
}

#[test]
fn batcher_multiple_batches_and_invalid_state() {
    let mut b = Batcher::new("job".into(), "out".into(), 2, false);
    for j in ["a", "b", "c", "d", "e"] {
        b.events_ext(&msg("job", j)).unwrap();
    }
    let (out, timer) = b.events_int().unwrap();
    assert_eq!(pairs(&out), vec![p("out", "a"), p("out", "b")]);
    assert_eq!(timer, Timer::Immediate);
    let mut z = Batcher::new("job".into(), "out".into(), 0, false);
    assert!(matches!(z.events_int(), Err(SimulationError::InvalidModelState)));
    let mut r = Batcher::new("job".into(), "out".into(), 5, false);
    r.events_ext(&msg("job", "a")).unwrap();
    for j in ["b", "c", "d", "e"] {
        r.events_ext(&msg("job", j)).unwrap();
    }
    // Release phase with room left after a partial release is invalid.
    let (out, _) = r.events_int().unwrap();
    assert_eq!(out.len(), 5);
}

#[test]
fn gate_blocks_when_closed() {
    let mut g = Gate::new("job".into(), "activation".into(), "deactivation".into(), "job".into(), true);
    assert_eq!(g.status(), "Open");
    assert_eq!(g.events_ext(&msg("deactivation", "")).unwrap(), Timer::Passive);
    assert_eq!(g.status(), "Closed");
    assert_eq!(g.events_ext(&msg("job", "job 1")).unwrap(), Timer::Keep);
    let (out, _) = g.events_int().unwrap();
    assert!(out.is_empty());
    g.events_ext(&msg("activation", "")).unwrap();
    assert_eq!(g.events_ext(&msg("job", "job 2")).unwrap(), Timer::Immediate);
    assert_eq!(g.status(), "Passing job 2");
    let (out, timer) = g.events_int().unwrap();
    assert_eq!(pairs(&out), vec![p("job", "job 2")]);
    assert_eq!(timer, Timer::Passive);
    assert!(matches!(g.events_ext(&msg("x", "")), Err(SimulationError::InvalidMessage)));
}

#[test]
fn load_balancer_round_robin() {
    let mut lb = LoadBalancer::new("request".into(), vec!["s1".into(), "s2".into(), "s3".into()], true);
    assert_eq!(lb.status(), "Listening for requests");
    for j in ["a", "b", "c", "d"] {
        assert_eq!(lb.events_ext(&msg("request", j)).unwrap(), Timer::Immediate);
    }
    let mut ports = Vec::new();
    loop {
        let (out, timer) = lb.events_int().unwrap();
        if out.is_empty() {
            assert_eq!(timer, Timer::Passive);
            break;
        }
        ports.push(pairs(&out)[0].clone());
    }
    assert_eq!(ports, vec![p("s2", "a"), p("s3", "b"), p("s1", "c"), p("s2", "d")]);
    assert_eq!(lb.records()[4].subject, "a on s2");
}

#[test]
fn exclusive_gateway_sends_all_on_one_path() {
    let mut rng = rand_pcg::Pcg64Mcg::new(42);
    let mut g = ExclusiveGateway::new(
        vec!["in".into()],
        vec!["s01".into(), "s02".into(), "s03".into()],
        Index::WeightedIndex { weights: vec![0, 1, 0] },
        true,
    );
    assert_eq!(g.status(), "Passive");
    g.events_ext(&msg("in", "job 1")).unwrap();
    g.events_ext(&msg("in", "job 2")).unwrap();
    assert_eq!(g.status(), "Passing job 1");
    let (out, timer) = g.events_int(&mut rng).unwrap();
    assert_eq!(pairs(&out), vec![p("s02", "job 1"), p("s02", "job 2")]);
    assert_eq!(timer, Timer::Passive);
    assert_eq!(g.records()[0].subject, "job 1 on in");
    assert_eq!(g.records()[2].subject, "job 1 on s02");
    let mut h = ExclusiveGateway::new(vec![], vec!["a".into(), "b".into()], Index::Uniform { min: 0, max: 2 }, false);
    h.events_ext(&msg("in", "x")).unwrap();
    let out = h.send_jobs(0);
    assert_eq!(pairs(&out), vec![p("a", "x")]);
}

#[test]
fn exclusive_gateway_weight_errors() {
    let mut rng = rand_pcg::Pcg64Mcg::new(42);
    let mut g = ExclusiveGateway::new(vec![], vec!["a".into()], Index::WeightedIndex { weights: vec![0, 0] }, false);
    g.events_ext(&msg("in", "x")).unwrap();
    assert!(matches!(g.events_int(&mut rng), Err(SimulationError::WeightedError(_))));
    // A failed draw leaves the gateway passive, with its jobs still waiting.
    assert!(!g.is_passing());
    assert_eq!(g.jobs(), &vec!["x".to_string()]);
    assert_eq!(g.status(), "Passive");
}

#[test]
fn parallel_gateway_joins() {
    let mut g = ParallelGateway::new(
        vec!["alpha".into(), "beta".into()],
        vec!["out1".into(), "out2".into()],
        true,
    );
    assert_eq!(g.status(), "Active");
    assert_eq!(g.events_ext(&msg("alpha", "job 1")).unwrap(), Timer::Immediate);
    let (out, timer) = g.events_int().unwrap();
    assert!(out.is_empty());
    assert_eq!(timer, Timer::Passive);
    g.events_ext(&msg("alpha", "job 2")).unwrap();
    g.events_ext(&msg("beta", "job 1")).unwrap();
    let (out, timer) = g.events_int().unwrap();
    assert_eq!(pairs(&out), vec![p("out1", "job 1"), p("out2", "job 1")]);
    assert_eq!(timer, Timer::Immediate);
    let (out, _) = g.events_int().unwrap();
    assert!(out.is_empty());
    assert!(matches!(g.events_ext(&msg("gamma", "job 3")), Err(SimulationError::InvalidMessage)));
}

#[test]
fn stochastic_gate_passes_by_draw() {
    let mut g = StochasticGate::new("job".into(), "job".into(), false);
    assert!(g.is_job_port(&"job".to_string()));
    assert_eq!(g.status(), "Gating");
    assert_eq!(g.events_ext(&msg("job", "job 1"), true).unwrap(), Timer::Immediate);
    assert_eq!(g.events_ext(&msg("job", "job 2"), false).unwrap(), Timer::Immediate);
    let (out, _) = g.events_int(String::new()).unwrap();
    assert_eq!(pairs(&out), vec![p("job", "job 1")]);
    let (out, timer) = g.events_int(String::new()).unwrap();
    assert!(out.is_empty());
    assert_eq!(timer, Timer::Immediate);
    let (out, timer) = g.events_int(String::new()).unwrap();
    assert!(out.is_empty());
    assert_eq!(timer, Timer::Passive);
    // Without records, a records request is ignored.
    assert_eq!(g.events_ext(&msg("records", ""), true).unwrap(), Timer::Keep);
    assert!(matches!(g.events_ext(&msg("x", ""), true), Err(SimulationError::InvalidModelState)));
}

#[test]
fn stochastic_gate_records_request() {
    let mut g = StochasticGate::new("job".into(), "job".into(), true);
    g.events_ext(&msg("job", "job 1"), true).unwrap();
    assert_eq!(g.records().len(), 1);
    assert_eq!(g.events_ext(&msg("records", ""), true).unwrap(), Timer::Immediate);
    assert_eq!(g.status(), "Fetching Records");
    let (out, _) = g.events_int("[...]".to_string()).unwrap();
    assert_eq!(pairs(&out), vec![p("records", "[...]")]);
}

#[test]
fn stopwatch_matches_jobs() {
    let mut s = Stopwatch::new("start".into(), "stop".into(), "metric".into(), "job".into(), Metric::Maximum, true);
    assert!(matches!(s.events_ext(&msg("start", "job 1")).unwrap(), (Timer::Keep, StopwatchArrival::Start(0))));
    assert!(matches!(s.events_ext(&msg("start", "job 2")).unwrap(), (Timer::Keep, StopwatchArrival::Start(1))));
    assert!(matches!(s.events_ext(&msg("stop", "job 1")).unwrap(), (Timer::Keep, StopwatchArrival::Stop(0))));
    assert!(matches!(s.events_ext(&msg("metric", "")).unwrap(), (Timer::Immediate, StopwatchArrival::Metric)));
    assert_eq!(s.job_names().clone(), vec!["job 1".to_string(), "job 2".to_string()]);
    let (out, timer) = s.events_int(Some("job 1".to_string())).unwrap();
    assert_eq!(pairs(&out), vec![p("job", "job 1")]);
    assert_eq!(timer, Timer::Passive);
    assert_eq!(s.records().last().unwrap().action, "Maximum Fetch");
    assert!(matches!(s.events_ext(&msg("x", "")), Err(SimulationError::InvalidMessage)));
    assert_eq!(Metric::default(), Metric::Minimum);
}

#[test]
fn generator_numbers_jobs() {
    let mut g = Generator::new("job".into(), true);
    assert_eq!(g.status(), "Generating jobs");
    assert_eq!(g.events_ext(&msg("anything", "x")).unwrap(), Timer::Keep);
    let (out, timer) = g.events_int(true).unwrap();
    assert!(out.is_empty());
    assert_eq!(timer, Timer::Scheduled);
    let (out, _) = g.events_int(true).unwrap();
    assert_eq!(pairs(&out), vec![p("job", "job 1")]);
    for _ in 0..9 {
        g.events_int(true).unwrap();
    }
    let (out, _) = g.events_int(true).unwrap();
    assert_eq!(pairs(&out), vec![p("job", "job 11")]);
    assert_eq!(g.records()[0].action, "Initialization");
}

#[test]
fn generator_thinned_generation_sends_nothing() {
    let mut g = Generator::new("job".into(), true);
    g.events_int(false).unwrap();
    let (out, timer) = g.events_int(false).unwrap();
    assert!(out.is_empty());
    assert_eq!(timer, Timer::Scheduled);
    assert_eq!(g.last_job(), 0);
    let (out, _) = g.events_int(true).unwrap();
    assert_eq!(pairs(&out), vec![p("job", "job 1")]);
    assert_eq!(g.records().len(), 2);
}

#[test]
fn generator_job_number_overflow_is_invalid_state() {
    let mut g = Generator::restore("job".into(), false, true, usize::MAX, vec![]);
    assert!(matches!(g.events_int(true), Err(SimulationError::InvalidModelState)));
    // A thinned generation needs no number.
    assert!(g.events_int(false).is_ok());
}

#[test]
fn model_clone_keeps_its_id() {
    let m = Model::new("storage-01".to_string(), 5u32);
    let c = m.clone();
    assert_eq!(c.id(), "storage-01");
    assert_eq!(*c.inner(), 5);
}

#[test]
fn model_wraps_with_id() {
    let m = Model::new("storage-01".to_string(), 5u32);
    assert_eq!(m.id(), "storage-01");
    assert_eq!(*m.inner(), 5);
    assert!(m.id_is(&"storage-01".to_string()));
}
