use sim::input_modeling::Index;
use sim::models::batcher::{Batcher, BatcherPhase};
use sim::models::exclusive_gateway::ExclusiveGateway;
use sim::models::gate::{Gate, GatePhase};
use sim::models::generator::Generator;
use sim::models::load_balancer::LoadBalancer;
use sim::models::parallel_gateway::ParallelGateway;
use sim::models::processor::Processor;
use sim::models::stochastic_gate::{GateJob, StochasticGate};
use sim::models::stopwatch::{distinct_names, Metric, Stopwatch, StopwatchArrival};
use sim::models::storage::Storage;
use sim::models::{ModelMessage, ModelRecord, Reportable, Timer};

fn msg(port: &str, content: &str) -> ModelMessage {
    ModelMessage { port_name: port.to_string(), content: content.to_string() }
}

fn pairs(out: &[ModelMessage]) -> Vec<(String, String)> {
    out.iter().map(|m| (m.port_name.clone(), m.content.clone())).collect()
}

fn p(a: &str, b: &str) -> (String, String) {
    (a.to_string(), b.to_string())
}

fn strings(v: &[&str]) -> Vec<String> {
    v.iter().map(|s| s.to_string()).collect()
}

fn rec(action: &str, subject: &str) -> ModelRecord {
    ModelRecord { action: action.to_string(), subject: subject.to_string() }
}

#[test]
fn restored_processor_releases_its_queue_in_order() {
    let queue = strings(&["job 1", "job 2", "job 3"]);
    let mut m = Processor::restore(usize::MAX, "job".into(), "processed".into(), false, false, queue, vec![]);
    assert!(!m.is_active());
    assert_eq!(m.queue(), &strings(&["job 1", "job 2", "job 3"]));
    // A passive processor with waiting jobs starts the first one.
    let (out, timer) = m.events_int().unwrap();
    assert!(out.is_empty());
    assert_eq!(timer, Timer::Scheduled);
    assert!(m.is_active());
    let (out, timer) = m.events_int().unwrap();
    assert_eq!(pairs(&out), vec![p("processed", "job 1")]);
    assert_eq!(timer, Timer::Immediate);
    assert_eq!(m.queue(), &strings(&["job 2", "job 3"]));
}

#[test]
fn restored_processor_keeps_its_records() {
    let mut m = Processor::restore(
        2,
        "job".into(),
        "processed".into(),
        true,
        true,
        strings(&["job 1"]),
        vec![rec("Arrival", "job 1"), rec("Processing Start", "job 1")],
    );
    assert_eq!(m.status(), "Processing");
    m.events_ext(&msg("job", "job 2")).unwrap();
    // The queue is full: a third job is dropped.
    m.events_ext(&msg("job", "job 3")).unwrap();
    let actions: Vec<String> = m.records().iter().map(|r| r.action.clone()).collect();
    assert_eq!(actions, vec!["Arrival", "Processing Start", "Arrival", "Drop"]);
}

#[test]
fn restored_storage_answers_a_pending_fetch() {
    let mut s = Storage::restore(
        "store".into(),
        "read".into(),
        "stored".into(),
        false,
        true,
        Some("job 4".into()),
        vec![],
    );
    assert!(s.is_fetching());
    assert_eq!(s.job(), &Some("job 4".to_string()));
    let (out, timer) = s.events_int().unwrap();
    assert_eq!(pairs(&out), vec![p("stored", "job 4")]);
    assert_eq!(timer, Timer::Passive);
    assert!(!s.is_fetching());
}

#[test]
fn restored_batcher_releases_its_batch() {
    let mut b = Batcher::restore(
        "job".into(),
        "batch".into(),
        3,
        false,
        BatcherPhase::Batching,
        strings(&["a", "b"]),
        vec![],
    );
    assert_eq!(b.phase(), BatcherPhase::Batching);
    assert_eq!(b.events_ext(&msg("job", "c")).unwrap(), Timer::Immediate);
    assert_eq!(b.phase(), BatcherPhase::Release);
    let (out, timer) = b.events_int().unwrap();
    assert_eq!(pairs(&out), vec![p("batch", "a"), p("batch", "b"), p("batch", "c")]);
    assert_eq!(timer, Timer::Passive);
    assert!(b.jobs().is_empty());
}

#[test]
fn restored_closed_gate_drops_jobs() {
    let mut g = Gate::restore(
        "job".into(),
        "open".into(),
        "close".into(),
        "passed".into(),
        false,
        GatePhase::Closed,
        vec![],
        vec![],
    );
    assert_eq!(g.phase(), GatePhase::Closed);
    assert_eq!(g.events_ext(&msg("job", "x")).unwrap(), Timer::Keep);
    assert!(g.jobs().is_empty());
    g.events_ext(&msg("open", "")).unwrap();
    assert_eq!(g.phase(), GatePhase::Open);
}

#[test]
fn restored_load_balancer_continues_its_round() {
    let paths = strings(&["p0", "p1", "p2"]);
    let mut lb = LoadBalancer::restore("job".into(), paths, false, true, 1, strings(&["a", "b"]), vec![]);
    assert!(lb.is_balancing());
    assert_eq!(lb.next_port_out(), 1);
    let (out, _) = lb.events_int().unwrap();
    assert_eq!(pairs(&out), vec![p("p2", "a")]);
    let (out, _) = lb.events_int().unwrap();
    assert_eq!(pairs(&out), vec![p("p0", "b")]);
    assert_eq!(lb.next_port_out(), 0);
    assert!(lb.jobs().is_empty());
}

#[test]
fn restored_load_balancer_index_past_the_paths_wraps() {
    let paths = strings(&["p0", "p1", "p2"]);
    let mut lb = LoadBalancer::restore("job".into(), paths, false, true, 5, strings(&["a"]), vec![]);
    let (out, _) = lb.events_int().unwrap();
    assert_eq!(pairs(&out), vec![p("p0", "a")]);
}

#[test]
fn restored_exclusive_gateway_sends_waiting_jobs() {
    let weights = Index::WeightedIndex { weights: vec![0, 1] };
    let mut g = ExclusiveGateway::restore(
        strings(&["in"]),
        strings(&["left", "right"]),
        weights,
        false,
        true,
        strings(&["a", "b"]),
        vec![],
    );
    assert!(g.is_passing());
    let mut rng = rand_pcg::Mcg128Xsl64::new(0xcafe_f00d_d15e_a5e5);
    let (out, timer) = g.events_int(&mut rng).unwrap();
    assert_eq!(pairs(&out), vec![p("right", "a"), p("right", "b")]);
    assert_eq!(timer, Timer::Passive);
    assert!(!g.is_passing());
    assert!(g.jobs().is_empty());
}

#[test]
fn restored_parallel_gateway_completes_a_collection() {
    let collections = vec![("x".to_string(), 1usize), ("y".to_string(), 0usize)];
    let mut g = ParallelGateway::restore(
        strings(&["in 1", "in 2"]),
        strings(&["out"]),
        false,
        collections,
        vec![],
    );
    assert_eq!(g.collections().len(), 2);
    assert_eq!(g.events_ext(&msg("in 2", "x")).unwrap(), Timer::Immediate);
    let (out, _) = g.events_int().unwrap();
    assert_eq!(pairs(&out), vec![p("out", "x")]);
    assert_eq!(g.collections(), &vec![("y".to_string(), 0usize)]);
}

#[test]
fn restored_generator_numbers_on_from_its_last_job() {
    let mut g = Generator::restore("job".into(), false, true, 41, vec![]);
    assert!(g.is_generating());
    let (out, _) = g.events_int(true).unwrap();
    assert_eq!(pairs(&out), vec![p("job", "job 42")]);
    assert_eq!(g.last_job(), 42);
}

#[test]
fn restored_stochastic_gate_gates_by_stored_draws() {
    let jobs = vec![
        GateJob { content: "a".into(), pass: false },
        GateJob { content: "b".into(), pass: true },
    ];
    let mut g = StochasticGate::restore(
        "job".into(),
        "passed".into(),
        "records in".into(),
        "records out".into(),
        true,
        false,
        jobs,
        vec![],
    );
    assert!(!g.is_fetching_records());
    assert_eq!(g.jobs().len(), 2);
    let (out, _) = g.events_int(String::new()).unwrap();
    assert!(out.is_empty());
    let (out, _) = g.events_int(String::new()).unwrap();
    assert_eq!(pairs(&out), vec![p("passed", "b")]);
    // The records ports are the restored ones.
    assert_eq!(g.events_ext(&msg("records in", ""), false).unwrap(), Timer::Immediate);
    assert!(g.is_fetching_records());
    let (out, _) = g.events_int("[]".into()).unwrap();
    assert_eq!(pairs(&out), vec![p("records out", "[]")]);
}

#[test]
fn restored_stopwatch_matches_known_jobs() {
    let names = strings(&["job 1", "job 2"]);
    assert!(distinct_names(&names));
    let mut w = Stopwatch::restore(
        "start".into(),
        "stop".into(),
        "metric".into(),
        "job".into(),
        Metric::Maximum,
        false,
        false,
        names,
        vec![],
    );
    assert!(!w.is_fetching());
    let (_, arrival) = w.events_ext(&msg("stop", "job 2")).unwrap();
    assert_eq!(arrival, StopwatchArrival::Stop(1));
    let (_, arrival) = w.events_ext(&msg("start", "job 3")).unwrap();
    assert_eq!(arrival, StopwatchArrival::Start(2));
    assert_eq!(w.job_names(), &strings(&["job 1", "job 2", "job 3"]));
}

#[test]
fn distinct_names_finds_a_repeat() {
    assert!(distinct_names(&vec![]));
    assert!(distinct_names(&strings(&["a", "b", "c"])));
    assert!(!distinct_names(&strings(&["a", "b", "a"])));
    assert!(!distinct_names(&strings(&["b", "b"])));
}

#[test]
fn restored_overfull_processor_keeps_queueing() {
    // A queue restored beyond its capacity is full only at exactly its
    // capacity, so further jobs still join it.
    let queue = strings(&["job 1", "job 2", "job 3"]);
    let mut m = Processor::restore(2, "job".into(), "processed".into(), true, true, queue, vec![]);
    assert_eq!(m.events_ext(&msg("job", "job 4")).unwrap(), Timer::Keep);
    assert_eq!(m.queue().len(), 4);
    let actions: Vec<String> = m.records().iter().map(|r| r.action.clone()).collect();
    assert_eq!(actions, vec!["Arrival"]);
}

#[test]
fn passive_exclusive_gateway_ignores_its_weights() {
    // Weights that could not be drawn from are never consulted while the
    // gateway is passive.
    let mut g = ExclusiveGateway::new(
        strings(&["in"]),
        strings(&["out"]),
        Index::Uniform { min: 3, max: 3 },
        false,
    );
    let mut rng = rand_pcg::Mcg128Xsl64::new(1);
    let (out, timer) = g.events_int(&mut rng).unwrap();
    assert!(out.is_empty());
    assert_eq!(timer, Timer::Passive);
}
