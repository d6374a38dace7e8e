//! Message routing: the connectors between models in a simulation, and the
//! couplings of a coupled model's components.  The simulator delivers each
//! message to the models whose ID is its target, and turns every message a
//! model sends into one message per connector from that model's port.
use vstd::prelude::*;

use crate::errors::SimulationError;
use crate::models::{Model, ModelMessage};

verus! {

/// A connector carries messages from a source model's port to a target
/// model's port.
#[derive(Debug, Clone)]
pub struct Connector {
    id: String,
    source_id: String,
    target_id: String,
    source_port: String,
    target_port: String,
}

/// The abstract connector: ID, source ID, target ID, source port, target port.
pub struct ConnectorView {
    pub id: Seq<char>,
    pub source_id: Seq<char>,
    pub target_id: Seq<char>,
    pub source_port: Seq<char>,
    pub target_port: Seq<char>,
}

impl View for Connector {
    type V = ConnectorView;

    closed spec fn view(&self) -> ConnectorView {
        ConnectorView {
            id: self.id@,
            source_id: self.source_id@,
            target_id: self.target_id@,
            source_port: self.source_port@,
            target_port: self.target_port@,
        }
    }
}

impl Connector {
    pub fn new(
        id: String,
        source_id: String,
        target_id: String,
        source_port: String,
        target_port: String,
    ) -> (c: Self)
        ensures
            c@ == (ConnectorView {
                id: id@,
                source_id: source_id@,
                target_id: target_id@,
                source_port: source_port@,
                target_port: target_port@,
            }),
    {
        Connector { id, source_id, target_id, source_port, target_port }
    }

    pub fn id(&self) -> (s: &str)
        ensures
            s@ == self@.id,
    {
        self.id.as_str()
    }

    pub fn source_id(&self) -> (s: &str)
        ensures
            s@ == self@.source_id,
    {
        self.source_id.as_str()
    }

    pub fn target_id(&self) -> (s: &str)
        ensures
            s@ == self@.target_id,
    {
        self.target_id.as_str()
    }

    pub fn source_port(&self) -> (s: &str)
        ensures
            s@ == self@.source_port,
    {
        self.source_port.as_str()
    }

    pub fn target_port(&self) -> (s: &str)
        ensures
            s@ == self@.target_port,
    {
        self.target_port.as_str()
    }
}

/// The abstract message: source ID, source port, target ID, target port,
/// content.
pub struct MessageView {
    pub source_id: Seq<char>,
    pub source_port: Seq<char>,
    pub target_id: Seq<char>,
    pub target_port: Seq<char>,
    pub content: Seq<char>,
}

/// A message between two models of a simulation.  The simulator stamps
/// each message with the time at which it was sent.
#[derive(Debug, Clone)]
pub struct Message {
    source_id: String,
    source_port: String,
    target_id: String,
    target_port: String,
    content: String,
}

impl View for Message {
    type V = MessageView;

    closed spec fn view(&self) -> MessageView {
        MessageView {
            source_id: self.source_id@,
            source_port: self.source_port@,
            target_id: self.target_id@,
            target_port: self.target_port@,
            content: self.content@,
        }
    }
}

impl Message {
    pub fn new(
        source_id: String,
        source_port: String,
        target_id: String,
        target_port: String,
        content: String,
    ) -> (m: Self)
        ensures
            m@ == (MessageView {
                source_id: source_id@,
                source_port: source_port@,
                target_id: target_id@,
                target_port: target_port@,
                content: content@,
            }),
    {
        Message { source_id, source_port, target_id, target_port, content }
    }

    pub fn source_id(&self) -> (s: &str)
        ensures
            s@ == self@.source_id,
    {
        self.source_id.as_str()
    }

    pub fn source_port(&self) -> (s: &str)
        ensures
            s@ == self@.source_port,
    {
        self.source_port.as_str()
    }

    pub fn target_id(&self) -> (s: &str)
        ensures
            s@ == self@.target_id,
    {
        self.target_id.as_str()
    }

    pub fn target_port(&self) -> (s: &str)
        ensures
            s@ == self@.target_port,
    {
        self.target_port.as_str()
    }

    pub fn content(&self) -> (s: &str)
        ensures
            s@ == self@.content,
    {
        self.content.as_str()
    }
}

/// The views of a sequence of connectors.
pub open spec fn connectors_view(cs: Seq<Connector>) -> Seq<ConnectorView> {
    cs.map_values(|c: Connector| c@)
}

/// The views of a sequence of messages.
pub open spec fn simulation_messages_view(ms: Seq<Message>) -> Seq<MessageView> {
    ms.map_values(|m: Message| m@)
}

/// The (target ID, target port) of every connector from `source_port` of
/// model `source_id`, in connector order.
pub open spec fn routes(cs: Seq<ConnectorView>, source_id: Seq<char>, source_port: Seq<char>) -> Seq<
    (Seq<char>, Seq<char>),
>
    decreases cs.len(),
{
    if cs.len() == 0 {
        seq![]
    } else {
        let rest = routes(cs.drop_last(), source_id, source_port);
        let c = cs.last();
        if c.source_id == source_id && c.source_port == source_port {
            rest.push((c.target_id, c.target_port))
        } else {
            rest
        }
    }
}

/// The messages that a model `source_id` sends by `outgoing`, one for each
/// connector from the port of each outgoing message, in order of outgoing
/// message and then of connector.
pub open spec fn deliveries(
    cs: Seq<ConnectorView>,
    source_id: Seq<char>,
    outgoing: Seq<(Seq<char>, Seq<char>)>,
) -> Seq<MessageView>
    decreases outgoing.len(),
{
    if outgoing.len() == 0 {
        seq![]
    } else {
        let (port, content) = outgoing.last();
        deliveries(cs, source_id, outgoing.drop_last()) + routes(cs, source_id, port).map_values(
            |t: (Seq<char>, Seq<char>)|
                MessageView {
                    source_id,
                    source_port: port,
                    target_id: t.0,
                    target_port: t.1,
                    content,
                },
        )
    }
}

/// The model messages (target port, content) of the messages addressed to
/// `model_id`, in order.
pub open spec fn inbox(ms: Seq<MessageView>, model_id: Seq<char>) -> Seq<(Seq<char>, Seq<char>)>
    decreases ms.len(),
{
    if ms.len() == 0 {
        seq![]
    } else {
        let rest = inbox(ms.drop_last(), model_id);
        let m = ms.last();
        if m.target_id == model_id {
            rest.push((m.target_port, m.content))
        } else {
            rest
        }
    }
}

/// The targets (ID and port) of the connectors from `source_port` of model
/// `source_id`, in connector order.
pub fn message_targets(connectors: &Vec<Connector>, source_id: &String, source_port: &String) -> (r:
    Vec<(String, String)>)
    ensures
        r@.map_values(|t: (String, String)| (t.0@, t.1@)) == routes(
            connectors_view(connectors@),
            source_id@,
            source_port@,
        ),
{
    let ghost cs = connectors_view(connectors@);
    let mut r: Vec<(String, String)> = Vec::new();
    let mut i: usize = 0;
    while i < connectors.len()
        invariant
            i <= connectors@.len(),
            cs == connectors_view(connectors@),
            r@.map_values(|t: (String, String)| (t.0@, t.1@)) == routes(
                cs.take(i as int),
                source_id@,
                source_port@,
            ),
        decreases connectors@.len() - i,
    {
        let c = &connectors[i];
        assert(cs.take(i + 1).drop_last() =~= cs.take(i as int));
        assert(cs.take(i + 1).last() == c@);
        if c.source_id == *source_id && c.source_port == *source_port {
            let ghost before = r@;
            r.push((c.target_id.clone(), c.target_port.clone()));
            assert(r@.map_values(|t: (String, String)| (t.0@, t.1@)) =~= before.map_values(
                |t: (String, String)| (t.0@, t.1@),
            ).push((c@.target_id, c@.target_port)));
        }
        i = i + 1;
    }
    assert(cs.take(connectors@.len() as int) =~= cs);
    r
}

/// The messages that model `source_id` sends with its outgoing messages:
/// one for each connector from the port of each outgoing message.
pub fn route_outgoing(connectors: &Vec<Connector>, source_id: &String, outgoing: &Vec<ModelMessage>) -> (r:
    Vec<Message>)
    ensures
        simulation_messages_view(r@) == deliveries(
            connectors_view(connectors@),
            source_id@,
            outgoing@.map_values(|m: ModelMessage| m@),
        ),
{
    let ghost cs = connectors_view(connectors@);
    let ghost out = outgoing@.map_values(|m: ModelMessage| m@);
    let mut r: Vec<Message> = Vec::new();
    let mut i: usize = 0;
    while i < outgoing.len()
        invariant
            i <= outgoing@.len(),
            cs == connectors_view(connectors@),
            out == outgoing@.map_values(|m: ModelMessage| m@),
            simulation_messages_view(r@) == deliveries(cs, source_id@, out.take(i as int)),
        decreases outgoing@.len() - i,
    {
        let m = &outgoing[i];
        let targets = message_targets(connectors, source_id, &m.port_name);
        let ghost rs = routes(cs, source_id@, m.port_name@);
        let ghost r0 = simulation_messages_view(r@);
        assert(targets@.map_values(|t: (String, String)| (t.0@, t.1@)) == rs);
        assert(out.take(i + 1).drop_last() =~= out.take(i as int));
        assert(out.take(i + 1).last() == m@);
        let ghost new_msgs = rs.map_values(
            |t: (Seq<char>, Seq<char>)|
                MessageView {
                    source_id: source_id@,
                    source_port: m.port_name@,
                    target_id: t.0,
                    target_port: t.1,
                    content: m.content@,
                },
        );
        let mut k: usize = 0;
        while k < targets.len()
            invariant
                k <= targets@.len(),
                rs.len() == targets@.len(),
                forall|j: int| 0 <= j < rs.len() ==> #[trigger] rs[j] == (targets@[j].0@, targets@[j].1@),
                simulation_messages_view(r@) == r0 + new_msgs.take(k as int),
                new_msgs.len() == rs.len(),
                forall|j: int| 0 <= j < rs.len() ==> #[trigger] new_msgs[j] == (MessageView {
                    source_id: source_id@,
                    source_port: m.port_name@,
                    target_id: rs[j].0,
                    target_port: rs[j].1,
                    content: m.content@,
                }),
            decreases targets@.len() - k,
        {
            let ghost before = r@;
            assert(rs[k as int] == (targets@[k as int].0@, targets@[k as int].1@));
            r.push(Message::new(
                source_id.clone(),
                m.port_name.clone(),
                targets[k].0.clone(),
                targets[k].1.clone(),
                m.content.clone(),
            ));
            assert(simulation_messages_view(r@) =~= simulation_messages_view(before).push(
                new_msgs[k as int],
            ));
            assert(new_msgs.take(k + 1) =~= new_msgs.take(k as int).push(new_msgs[k as int]));
            k = k + 1;
        }
        assert(new_msgs.take(rs.len() as int) =~= new_msgs);
        i = i + 1;
    }
    assert(out.take(outgoing@.len() as int) =~= out);
    r
}

/// The messages addressed to `model_id`, as the model receives them
/// (target port and content), in order.
pub fn messages_for(messages: &Vec<Message>, model_id: &String) -> (r: Vec<ModelMessage>)
    ensures
        r@.map_values(|m: ModelMessage| m@) == inbox(simulation_messages_view(messages@), model_id@),
{
    let ghost ms = simulation_messages_view(messages@);
    let mut r: Vec<ModelMessage> = Vec::new();
    let mut i: usize = 0;
    while i < messages.len()
        invariant
            i <= messages@.len(),
            ms == simulation_messages_view(messages@),
            r@.map_values(|m: ModelMessage| m@) == inbox(ms.take(i as int), model_id@),
        decreases messages@.len() - i,
    {
        let m = &messages[i];
        assert(ms.take(i + 1).drop_last() =~= ms.take(i as int));
        assert(ms.take(i + 1).last() == m@);
        if m.target_id == *model_id {
            let ghost before = r@;
            r.push(ModelMessage::new(m.target_port.clone(), m.content.clone()));
            assert(r@.map_values(|x: ModelMessage| x@) =~= before.map_values(|x: ModelMessage| x@).push(
                (m@.target_port, m@.content),
            ));
        }
        i = i + 1;
    }
    assert(ms.take(messages@.len() as int) =~= ms);
    r
}

/// The index of the first model with ID `model_id`, or `ModelNotFound`.
pub fn find_model<M>(models: &Vec<Model<M>>, model_id: &String) -> (r: Result<usize, SimulationError>)
    ensures
        r matches Ok(i) ==> i < models@.len() && models@[i as int].spec_id() == model_id@ && forall|
            j: int,
        | 0 <= j < i ==> (#[trigger] models@[j]).spec_id() != model_id@,
        r is Err ==> r == Err::<usize, SimulationError>(SimulationError::ModelNotFound) && forall|
            j: int,
        | 0 <= j < models@.len() ==> (#[trigger] models@[j]).spec_id() != model_id@,
{
    let mut i: usize = 0;
    while i < models.len()
        invariant
            i <= models@.len(),
            forall|j: int| 0 <= j < i ==> (#[trigger] models@[j]).spec_id() != model_id@,
        decreases models@.len() - i,
    {
        if models[i].id_is(model_id) {
            return Ok(i);
        }
        i = i + 1;
    }
    Err(SimulationError::ModelNotFound)
}

/// Connector `c` carries messages from `port` of model `id` to
/// (`target.0`, `target.1`).
pub open spec fn connects(c: ConnectorView, id: Seq<char>, port: Seq<char>, target: (Seq<char>, Seq<char>)) -> bool {
    &&& c.source_id == id
    &&& c.source_port == port
    &&& c.target_id == target.0
    &&& c.target_port == target.1
}

/// Some connector in `cs` carries messages from `port` of model `id` to
/// `target`.
pub open spec fn has_connector(cs: Seq<ConnectorView>, id: Seq<char>, port: Seq<char>, target: (Seq<char>, Seq<char>)) -> bool {
    exists|j: int| 0 <= j < cs.len() && #[trigger] connects(cs[j], id, port, target)
}

/// Every route is a connector from the given port.
proof fn lemma_routes_sound(cs: Seq<ConnectorView>, id: Seq<char>, port: Seq<char>)
    ensures
        forall|k: int|
            0 <= k < routes(cs, id, port).len() ==> #[trigger] has_connector(cs, id, port, routes(cs, id, port)[k]),
    decreases cs.len(),
{
    if cs.len() > 0 {
        let d = cs.drop_last();
        lemma_routes_sound(d, id, port);
        let r = routes(cs, id, port);
        let rd = routes(d, id, port);
        assert forall|k: int| 0 <= k < r.len() implies #[trigger] has_connector(cs, id, port, r[k]) by {
            if k < rd.len() {
                assert(r[k] == rd[k]);
                assert(has_connector(d, id, port, rd[k]));
                let j = choose|j: int| 0 <= j < d.len() && #[trigger] connects(d[j], id, port, rd[k]);
                assert(d[j] == cs[j]);
                assert(connects(cs[j], id, port, r[k]));
            } else {
                assert(connects(cs[cs.len() - 1], id, port, r[k]));
            }
        }
    }
}

/// Messages travel only along connectors: every message that a model sends
/// comes from that model, carries the content of one of its outgoing
/// messages on that message's port, and goes to the target of a connector
/// from that port.
pub proof fn lemma_deliveries_follow_connectors(
    cs: Seq<ConnectorView>,
    id: Seq<char>,
    outgoing: Seq<(Seq<char>, Seq<char>)>,
)
    ensures
        forall|k: int| 0 <= k < deliveries(cs, id, outgoing).len() ==> {
            let m = #[trigger] deliveries(cs, id, outgoing)[k];
            &&& m.source_id == id
            &&& exists|i: int| 0 <= i < outgoing.len() && #[trigger] outgoing[i] == (m.source_port, m.content)
            &&& has_connector(cs, id, m.source_port, (m.target_id, m.target_port))
        },
    decreases outgoing.len(),
{
    if outgoing.len() > 0 {
        let o = outgoing.drop_last();
        lemma_deliveries_follow_connectors(cs, id, o);
        let (port, content) = outgoing.last();
        lemma_routes_sound(cs, id, port);
        let ds = deliveries(cs, id, outgoing);
        let dso = deliveries(cs, id, o);
        let rs = routes(cs, id, port);
        assert forall|k: int| 0 <= k < ds.len() implies {
            let m = #[trigger] ds[k];
            &&& m.source_id == id
            &&& exists|i: int| 0 <= i < outgoing.len() && #[trigger] outgoing[i] == (m.source_port, m.content)
            &&& has_connector(cs, id, m.source_port, (m.target_id, m.target_port))
        } by {
            if k < dso.len() {
                assert(ds[k] == dso[k]);
                let m = dso[k];
                let i = choose|i: int| 0 <= i < o.len() && #[trigger] o[i] == (m.source_port, m.content);
                assert(o[i] == outgoing[i]);
            } else {
                let t = k - dso.len();
                assert(ds[k].target_id == rs[t].0 && ds[k].target_port == rs[t].1);
                assert(outgoing[outgoing.len() - 1] == (port, content));
                assert(has_connector(cs, id, port, rs[t]));
                assert(rs[t] == (ds[k].target_id, ds[k].target_port));
            }
        }
    }
}

/// The connectors that carry messages from `port` of model `id`.
pub open spec fn from_port(id: Seq<char>, port: Seq<char>) -> spec_fn(ConnectorView) -> bool {
    |c: ConnectorView| c.source_id == id && c.source_port == port
}

/// The message that connector `c` makes of a message (`port`, `content`)
/// sent by model `id`.
pub open spec fn carried(id: Seq<char>, port: Seq<char>, content: Seq<char>) -> spec_fn(
    ConnectorView,
) -> MessageView {
    |c: ConnectorView|
        MessageView {
            source_id: id,
            source_port: port,
            target_id: c.target_id,
            target_port: c.target_port,
            content,
        }
}

/// The messages that model `id` sending `o` on its port gives: one for each
/// connector from that port, in connector order.
pub open spec fn fan_out(cs: Seq<ConnectorView>, id: Seq<char>) -> spec_fn(
    (Seq<char>, Seq<char>),
) -> Seq<MessageView> {
    |o: (Seq<char>, Seq<char>)| cs.filter(from_port(id, o.0)).map_values(carried(id, o.0, o.1))
}

/// The routes from a port are the targets of exactly the connectors from
/// that port, in connector order.
pub proof fn lemma_routes_are_connectors_from_port(cs: Seq<ConnectorView>, id: Seq<char>, port: Seq<char>)
    ensures
        routes(cs, id, port) == cs.filter(from_port(id, port)).map_values(
            |c: ConnectorView| (c.target_id, c.target_port),
        ),
    decreases cs.len(),
{
    reveal(Seq::filter);
    if cs.len() > 0 {
        lemma_routes_are_connectors_from_port(cs.drop_last(), id, port);
    }
    assert(routes(cs, id, port) =~= cs.filter(from_port(id, port)).map_values(
        |c: ConnectorView| (c.target_id, c.target_port),
    ));
}

/// Routing loses and invents nothing: the messages a model sends with its
/// outgoing messages are, for each outgoing message in order, one message
/// per connector from its port (in connector order), from the model and
/// that port, to the connector's target, with the outgoing message's
/// content.
pub proof fn lemma_deliveries_fan_out(cs: Seq<ConnectorView>, id: Seq<char>, outgoing: Seq<(Seq<char>, Seq<char>)>)
    ensures
        deliveries(cs, id, outgoing) == outgoing.flat_map(fan_out(cs, id)),
    decreases outgoing.len(),
{
    if outgoing.len() > 0 {
        let o = outgoing.drop_last();
        let (port, content) = outgoing.last();
        lemma_deliveries_fan_out(cs, id, o);
        lemma_routes_are_connectors_from_port(cs, id, port);
        o.lemma_flat_map_push(fan_out(cs, id), outgoing.last());
        assert(o.push(outgoing.last()) =~= outgoing);
        assert(routes(cs, id, port).map_values(
            |t: (Seq<char>, Seq<char>)|
                MessageView {
                    source_id: id,
                    source_port: port,
                    target_id: t.0,
                    target_port: t.1,
                    content,
                },
        ) =~= fan_out(cs, id)(outgoing.last()));
    } else {
        assert(outgoing.map_values(fan_out(cs, id)) =~= Seq::<Seq<MessageView>>::empty());
        assert(outgoing.flat_map(fan_out(cs, id)) =~= Seq::<MessageView>::empty()) by {
            reveal_with_fuel(Seq::flatten, 1);
        }
    }
}

/// Every route to a connector's target is found: for each connector from
/// `port` of model `id`, its target is among the routes.
proof fn lemma_routes_complete(cs: Seq<ConnectorView>, id: Seq<char>, port: Seq<char>, j: int)
    requires
        0 <= j < cs.len(),
        cs[j].source_id == id,
        cs[j].source_port == port,
    ensures
        routes(cs, id, port).contains((cs[j].target_id, cs[j].target_port)),
    decreases cs.len(),
{
    let d = cs.drop_last();
    if j < cs.len() - 1 {
        assert(d[j] == cs[j]);
        lemma_routes_complete(d, id, port, j);
        let r = routes(d, id, port);
        let k = choose|k: int| 0 <= k < r.len() && r[k] == (cs[j].target_id, cs[j].target_port);
        assert(routes(cs, id, port)[k] == r[k]);
    } else {
        let r = routes(cs, id, port);
        assert(r[r.len() - 1] == (cs[j].target_id, cs[j].target_port));
    }
}

/// No message is lost: for every outgoing message and every connector from
/// its port, a message with that content reaches the connector's target.
pub proof fn lemma_deliveries_complete(
    cs: Seq<ConnectorView>,
    id: Seq<char>,
    outgoing: Seq<(Seq<char>, Seq<char>)>,
    i: int,
    j: int,
)
    requires
        0 <= i < outgoing.len(),
        0 <= j < cs.len(),
        cs[j].source_id == id,
        cs[j].source_port == outgoing[i].0,
    ensures
        deliveries(cs, id, outgoing).contains(
            MessageView {
                source_id: id,
                source_port: outgoing[i].0,
                target_id: cs[j].target_id,
                target_port: cs[j].target_port,
                content: outgoing[i].1,
            },
        ),
    decreases outgoing.len(),
{
    let o = outgoing.drop_last();
    let ds = deliveries(cs, id, outgoing);
    let dso = deliveries(cs, id, o);
    let m = MessageView {
        source_id: id,
        source_port: outgoing[i].0,
        target_id: cs[j].target_id,
        target_port: cs[j].target_port,
        content: outgoing[i].1,
    };
    if i < outgoing.len() - 1 {
        assert(o[i] == outgoing[i]);
        lemma_deliveries_complete(cs, id, o, i, j);
        let k = choose|k: int| 0 <= k < dso.len() && dso[k] == m;
        assert(ds[k] == dso[k]);
    } else {
        let (port, content) = outgoing.last();
        lemma_routes_complete(cs, id, port, j);
        let r = routes(cs, id, port);
        let t = choose|t: int| 0 <= t < r.len() && r[t] == (cs[j].target_id, cs[j].target_port);
        assert(ds[dso.len() + t] == m);
    }
}

/// A model receives exactly the messages addressed to it, in order, as
/// (target port, content).
pub proof fn lemma_inbox_is_addressed_messages(ms: Seq<MessageView>, model_id: Seq<char>)
    ensures
        inbox(ms, model_id) == ms.filter(|m: MessageView| m.target_id == model_id).map_values(
            |m: MessageView| (m.target_port, m.content),
        ),
    decreases ms.len(),
{
    reveal(Seq::filter);
    if ms.len() > 0 {
        lemma_inbox_is_addressed_messages(ms.drop_last(), model_id);
    }
    assert(inbox(ms, model_id) =~= ms.filter(|m: MessageView| m.target_id == model_id).map_values(
        |m: MessageView| (m.target_port, m.content),
    ));
}

} // verus!
