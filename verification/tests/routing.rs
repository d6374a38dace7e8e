use sim::errors::SimulationError;
use sim::input_modeling::Index;
use sim::models::coupled::{Couplings, ExternalInputCoupling, ExternalOutputCoupling, InternalCoupling};
use sim::models::{Model, ModelMessage};
use sim::simulator::{find_model, message_targets, messages_for, route_outgoing, Connector, Message};

fn s(x: &str) -> String {
    x.to_string()
}

fn connectors() -> Vec<Connector> {
    vec![
        Connector::new(s("c1"), s("generator-01"), s("processor-01"), s("job"), s("job")),
        Connector::new(s("c2"), s("processor-01"), s("storage-01"), s("processed"), s("store")),
        Connector::new(s("c3"), s("generator-01"), s("storage-02"), s("job"), s("store")),
    ]
}

#[test]
fn targets_follow_connectors() {
    let cs = connectors();
    let t = message_targets(&cs, &s("generator-01"), &s("job"));
    assert_eq!(t, vec![(s("processor-01"), s("job")), (s("storage-02"), s("store"))]);
    assert!(message_targets(&cs, &s("generator-01"), &s("other")).is_empty());
    assert_eq!(cs[1].id(), "c2");
    assert_eq!(cs[1].source_port(), "processed");
}

#[test]
fn outgoing_messages_are_routed() {
    let cs = connectors();
    let out = vec![
        ModelMessage { port_name: s("job"), content: s("job 1") },
        ModelMessage { port_name: s("nowhere"), content: s("x") },
    ];
    let ms = route_outgoing(&cs, &s("generator-01"), &out);
    assert_eq!(ms.len(), 2);
    assert_eq!(ms[0].target_id(), "processor-01");
    assert_eq!(ms[1].target_id(), "storage-02");
    assert_eq!(ms[1].target_port(), "store");
    assert_eq!(ms[1].source_port(), "job");
    assert_eq!(ms[1].content(), "job 1");
    let inbox = messages_for(&ms, &s("storage-02"));
    assert_eq!(inbox.len(), 1);
    assert_eq!(inbox[0].port_name, "store");
    assert_eq!(inbox[0].content, "job 1");
    let m = Message::new(s("a"), s("b"), s("c"), s("d"), s("e"));
    assert_eq!(m.source_id(), "a");
}

#[test]
fn models_are_found_by_id() {
    let models = vec![Model::new(s("a"), 1u8), Model::new(s("b"), 2u8), Model::new(s("b"), 3u8)];
    assert_eq!(find_model(&models, &s("b")).unwrap(), 1);
    assert!(matches!(find_model(&models, &s("z")), Err(SimulationError::ModelNotFound)));
}

#[test]
fn couplings_route_messages() {
    let c = Couplings::new(
        vec![
            ExternalInputCoupling { target_id: s("generator-01"), source_port: s("start"), target_port: s("job") },
            ExternalInputCoupling { target_id: s("processor-01"), source_port: s("start"), target_port: s("job") },
        ],
        vec![ExternalOutputCoupling { source_id: s("processor-01"), source_port: s("processed"), target_port: s("stop") }],
        vec![InternalCoupling {
            source_id: s("generator-01"),
            target_id: s("processor-01"),
            source_port: s("job"),
            target_port: s("job"),
        }],
    );
    let parked = c.park_incoming_messages(&ModelMessage { port_name: s("start"), content: s("go") }).unwrap();
    assert_eq!(parked.len(), 2);
    assert_eq!(parked[1].component_id, "processor-01");
    assert_eq!(parked[1].content, "go");
    assert!(c.park_incoming_messages(&ModelMessage { port_name: s("x"), content: s("go") }).is_none());
    assert_eq!(c.external_output_targets(&s("processor-01"), &s("processed")), vec![s("stop")]);
    assert_eq!(c.internal_targets(&s("generator-01"), &s("job")), vec![(s("processor-01"), s("job"))]);
}

#[test]
fn index_variates_are_in_support() {
    let mut rng = rand_pcg::Pcg64Mcg::new(42);
    let mut u = Index::Uniform { min: 7, max: 11 };
    let mut counts = [0usize; 4];
    for _ in 0..1000 {
        let i = u.random_variate(&mut rng).unwrap();
        assert!((7..11).contains(&i));
        counts[i - 7] += 1;
    }
    assert!(counts.iter().all(|&c| c > 0));
    let mut w = Index::WeightedIndex { weights: vec![0, 3, 0, 1] };
    for _ in 0..200 {
        let i = w.random_variate(&mut rng).unwrap();
        assert!(i == 1 || i == 3);
    }
    let mut e = Index::WeightedIndex { weights: vec![] };
    assert!(matches!(e.random_variate(&mut rng), Err(SimulationError::WeightedError(_))));
}
