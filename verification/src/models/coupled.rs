//! The couplings of a coupled model: how messages arriving at the coupled
//! model reach its components, and how the components' messages reach each
//! other and leave the coupled model.
use vstd::prelude::*;

use super::ModelMessage;

verus! {

/// A message arriving on `source_port` of the coupled model goes to
/// `target_port` of component `target_id`.
#[derive(Debug, Clone)]
pub struct ExternalInputCoupling {
    pub target_id: String,
    pub source_port: String,
    pub target_port: String,
}

/// A message sent by component `source_id` on `source_port` leaves the
/// coupled model on `target_port`.
#[derive(Debug, Clone)]
pub struct ExternalOutputCoupling {
    pub source_id: String,
    pub source_port: String,
    pub target_port: String,
}

/// A message sent by component `source_id` on `source_port` goes to
/// `target_port` of component `target_id`.
#[derive(Debug, Clone)]
pub struct InternalCoupling {
    pub source_id: String,
    pub target_id: String,
    pub source_port: String,
    pub target_port: String,
}

/// A message held for a component until the coupled model delivers it.
#[derive(Debug, Clone)]
pub struct ParkedMessage {
    pub component_id: String,
    pub port: String,
    pub content: String,
}

impl View for ParkedMessage {
    type V = (Seq<char>, Seq<char>, Seq<char>);

    open spec fn view(&self) -> (Seq<char>, Seq<char>, Seq<char>) {
        (self.component_id@, self.port@, self.content@)
    }
}

/// The parked messages for a message (port, content) arriving at the
/// coupled model: one per external input coupling from that port, in
/// coupling order.
pub open spec fn parked_for(
    eics: Seq<ExternalInputCoupling>,
    msg: (Seq<char>, Seq<char>),
) -> Seq<(Seq<char>, Seq<char>, Seq<char>)>
    decreases eics.len(),
{
    if eics.len() == 0 {
        seq![]
    } else {
        let rest = parked_for(eics.drop_last(), msg);
        let c = eics.last();
        if c.source_port@ == msg.0 {
            rest.push((c.target_id@, c.target_port@, msg.1))
        } else {
            rest
        }
    }
}

/// The ports of the coupled model on which a message sent by `source_id`
/// on `source_port` leaves it, in coupling order.
pub open spec fn output_ports(
    eocs: Seq<ExternalOutputCoupling>,
    source_id: Seq<char>,
    source_port: Seq<char>,
) -> Seq<Seq<char>>
    decreases eocs.len(),
{
    if eocs.len() == 0 {
        seq![]
    } else {
        let rest = output_ports(eocs.drop_last(), source_id, source_port);
        let c = eocs.last();
        if c.source_id@ == source_id && c.source_port@ == source_port {
            rest.push(c.target_port@)
        } else {
            rest
        }
    }
}

/// The (component, port) targets of a message sent by `source_id` on
/// `source_port`, in coupling order.
pub open spec fn internal_routes(
    ics: Seq<InternalCoupling>,
    source_id: Seq<char>,
    source_port: Seq<char>,
) -> Seq<(Seq<char>, Seq<char>)>
    decreases ics.len(),
{
    if ics.len() == 0 {
        seq![]
    } else {
        let rest = internal_routes(ics.drop_last(), source_id, source_port);
        let c = ics.last();
        if c.source_id@ == source_id && c.source_port@ == source_port {
            rest.push((c.target_id@, c.target_port@))
        } else {
            rest
        }
    }
}

/// The couplings of a coupled model.
#[derive(Debug, Clone)]
pub struct Couplings {
    pub external_input: Vec<ExternalInputCoupling>,
    pub external_output: Vec<ExternalOutputCoupling>,
    pub internal: Vec<InternalCoupling>,
}

impl Couplings {
    pub fn new(
        external_input: Vec<ExternalInputCoupling>,
        external_output: Vec<ExternalOutputCoupling>,
        internal: Vec<InternalCoupling>,
    ) -> (c: Self)
        ensures
            c.external_input@ == external_input@,
            c.external_output@ == external_output@,
            c.internal@ == internal@,
    {
        Couplings { external_input, external_output, internal }
    }

    /// The messages to park for a message arriving at the coupled model:
    /// `None` when no external input coupling takes it.
    pub fn park_incoming_messages(&self, incoming: &ModelMessage) -> (r: Option<Vec<ParkedMessage>>)
        ensures
            r is None <==> parked_for(self.external_input@, incoming@).len() == 0,
            r matches Some(v) ==> v@.map_values(|p: ParkedMessage| p@) == parked_for(
                self.external_input@,
                incoming@,
            ),
    {
        let ghost cs = self.external_input@;
        let mut r: Vec<ParkedMessage> = Vec::new();
        let mut i: usize = 0;
        while i < self.external_input.len()
            invariant
                i <= cs.len(),
                cs == self.external_input@,
                r@.map_values(|p: ParkedMessage| p@) == parked_for(cs.take(i as int), incoming@),
            decreases cs.len() - i,
        {
            let c = &self.external_input[i];
            assert(cs.take(i + 1).drop_last() =~= cs.take(i as int));
            if c.source_port == incoming.port_name {
                let ghost before = r@;
                r.push(
                    ParkedMessage {
                        component_id: c.target_id.clone(),
                        port: c.target_port.clone(),
                        content: incoming.content.clone(),
                    },
                );
                assert(r@.map_values(|p: ParkedMessage| p@) =~= before.map_values(
                    |p: ParkedMessage| p@,
                ).push((c.target_id@, c.target_port@, incoming.content@)));
            }
            i = i + 1;
        }
        assert(cs.take(cs.len() as int) =~= cs);
        if r.len() == 0 {
            None
        } else {
            Some(r)
        }
    }

    /// The coupled model's ports on which a message sent by `source_id` on
    /// `source_port` leaves it.
    pub fn external_output_targets(&self, source_id: &String, source_port: &String) -> (r: Vec<
        String,
    >)
        ensures
            r@.map_values(|s: String| s@) == output_ports(
                self.external_output@,
                source_id@,
                source_port@,
            ),
    {
        let ghost cs = self.external_output@;
        let mut r: Vec<String> = Vec::new();
        let mut i: usize = 0;
        while i < self.external_output.len()
            invariant
                i <= cs.len(),
                cs == self.external_output@,
                r@.map_values(|s: String| s@) == output_ports(
                    cs.take(i as int),
                    source_id@,
                    source_port@,
                ),
            decreases cs.len() - i,
        {
            let c = &self.external_output[i];
            assert(cs.take(i + 1).drop_last() =~= cs.take(i as int));
            if c.source_id == *source_id && c.source_port == *source_port {
                let ghost before = r@;
                r.push(c.target_port.clone());
                assert(r@.map_values(|s: String| s@) =~= before.map_values(|s: String| s@).push(
                    c.target_port@,
                ));
            }
            i = i + 1;
        }
        assert(cs.take(cs.len() as int) =~= cs);
        r
    }

    /// The components and ports that a message sent by `source_id` on
    /// `source_port` goes to.
    pub fn internal_targets(&self, source_id: &String, source_port: &String) -> (r: Vec<
        (String, String),
    >)
        ensures
            r@.map_values(|t: (String, String)| (t.0@, t.1@)) == internal_routes(
                self.internal@,
                source_id@,
                source_port@,
            ),
    {
        let ghost cs = self.internal@;
        let mut r: Vec<(String, String)> = Vec::new();
        let mut i: usize = 0;
        while i < self.internal.len()
            invariant
                i <= cs.len(),
                cs == self.internal@,
                r@.map_values(|t: (String, String)| (t.0@, t.1@)) == internal_routes(
                    cs.take(i as int),
                    source_id@,
                    source_port@,
                ),
            decreases cs.len() - i,
        {
            let c = &self.internal[i];
            assert(cs.take(i + 1).drop_last() =~= cs.take(i as int));
            if c.source_id == *source_id && c.source_port == *source_port {
                let ghost before = r@;
                r.push((c.target_id.clone(), c.target_port.clone()));
                assert(r@.map_values(|t: (String, String)| (t.0@, t.1@)) =~= before.map_values(
                    |t: (String, String)| (t.0@, t.1@),
                ).push((c.target_id@, c.target_port@)));
            }
            i = i + 1;
        }
        assert(cs.take(cs.len() as int) =~= cs);
        r
    }
}

/// The parked messages addressed to component `id`, as (port, content),
/// in parking order.
pub open spec fn parked_for_component(
    parked: Seq<(Seq<char>, Seq<char>, Seq<char>)>,
    id: Seq<char>,
) -> Seq<(Seq<char>, Seq<char>)>
    decreases parked.len(),
{
    if parked.len() == 0 {
        seq![]
    } else {
        let rest = parked_for_component(parked.drop_last(), id);
        let p = parked.last();
        if p.0 == id {
            rest.push((p.1, p.2))
        } else {
            rest
        }
    }
}

/// The deliveries of parked messages to components, component by component
/// (in component order) and, for one component, in parking order: each is
/// the component's index, the port and the content.
pub open spec fn triggers(
    ids: Seq<Seq<char>>,
    parked: Seq<(Seq<char>, Seq<char>, Seq<char>)>,
) -> Seq<(int, (Seq<char>, Seq<char>))>
    decreases ids.len(),
{
    if ids.len() == 0 {
        seq![]
    } else {
        let k = ids.len() - 1;
        triggers(ids.drop_last(), parked) + parked_for_component(parked, ids.last()).map_values(
            |m: (Seq<char>, Seq<char>)| (k, m),
        )
    }
}

/// What becomes of the messages a component sends: for each, in order, a
/// parked message for each internal coupling from its port, and a message
/// leaving the coupled model for each external output coupling from it.
pub open spec fn component_output(
    ics: Seq<InternalCoupling>,
    eocs: Seq<ExternalOutputCoupling>,
    id: Seq<char>,
    outgoing: Seq<(Seq<char>, Seq<char>)>,
) -> (Seq<(Seq<char>, Seq<char>, Seq<char>)>, Seq<(Seq<char>, Seq<char>)>)
    decreases outgoing.len(),
{
    if outgoing.len() == 0 {
        (seq![], seq![])
    } else {
        let (parked, external) = component_output(ics, eocs, id, outgoing.drop_last());
        let (port, content) = outgoing.last();
        (
            parked + internal_routes(ics, id, port).map_values(
                |t: (Seq<char>, Seq<char>)| (t.0, t.1, content),
            ),
            external + output_ports(eocs, id, port).map_values(|q: Seq<char>| (q, content)),
        )
    }
}

/// The deliveries of `parked` to the components with IDs `component_ids`:
/// for each component in turn, the messages parked for it, in order.
pub fn parked_triggers(component_ids: &Vec<String>, parked: &Vec<ParkedMessage>) -> (r: Vec<
    (usize, ModelMessage),
>)
    ensures
        r@.map_values(|t: (usize, ModelMessage)| (t.0 as int, t.1@)) == triggers(
            component_ids@.map_values(|s: String| s@),
            parked@.map_values(|p: ParkedMessage| p@),
        ),
{
    let ghost ids = component_ids@.map_values(|s: String| s@);
    let ghost ps = parked@.map_values(|p: ParkedMessage| p@);
    let mut r: Vec<(usize, ModelMessage)> = Vec::new();
    let mut k: usize = 0;
    while k < component_ids.len()
        invariant
            k <= component_ids@.len(),
            ids == component_ids@.map_values(|s: String| s@),
            ps == parked@.map_values(|p: ParkedMessage| p@),
            r@.map_values(|t: (usize, ModelMessage)| (t.0 as int, t.1@)) == triggers(
                ids.take(k as int),
                ps,
            ),
        decreases component_ids@.len() - k,
    {
        let id = &component_ids[k];
        assert(ids.take(k + 1).drop_last() =~= ids.take(k as int));
        assert(ids.take(k + 1).last() == id@);
        let ghost r0 = r@.map_values(|t: (usize, ModelMessage)| (t.0 as int, t.1@));
        let mut j: usize = 0;
        while j < parked.len()
            invariant
                j <= parked@.len(),
                k < component_ids@.len(),
                ps == parked@.map_values(|p: ParkedMessage| p@),
                r@.map_values(|t: (usize, ModelMessage)| (t.0 as int, t.1@)) == r0
                    + parked_for_component(ps.take(j as int), id@).map_values(
                    |m: (Seq<char>, Seq<char>)| (k as int, m),
                ),
            decreases parked@.len() - j,
        {
            let p = &parked[j];
            assert(ps.take(j + 1).drop_last() =~= ps.take(j as int));
            assert(ps.take(j + 1).last() == p@);
            if p.component_id == *id {
                let ghost before = r@;
                r.push((k, ModelMessage::new(p.port.clone(), p.content.clone())));
                assert(r@.map_values(|t: (usize, ModelMessage)| (t.0 as int, t.1@)) =~= before.map_values(
                    |t: (usize, ModelMessage)| (t.0 as int, t.1@),
                ).push((k as int, (p@.1, p@.2))));
                assert(parked_for_component(ps.take(j + 1), id@).map_values(
                    |m: (Seq<char>, Seq<char>)| (k as int, m),
                ) =~= parked_for_component(ps.take(j as int), id@).map_values(
                    |m: (Seq<char>, Seq<char>)| (k as int, m),
                ).push((k as int, (p@.1, p@.2))));
            }
            j = j + 1;
        }
        assert(ps.take(parked@.len() as int) =~= ps);
        k = k + 1;
    }
    assert(ids.take(component_ids@.len() as int) =~= ids);
    r
}

impl Couplings {
    /// What becomes of the messages that component `component_id` sent:
    /// the messages parked for other components, and those that leave the
    /// coupled model.
    pub fn route_component_output(&self, component_id: &String, outgoing: &Vec<ModelMessage>) -> (r: (
        Vec<ParkedMessage>,
        Vec<ModelMessage>,
    ))
        ensures
            (r.0@.map_values(|p: ParkedMessage| p@), r.1@.map_values(|m: ModelMessage| m@))
                == component_output(
                self.internal@,
                self.external_output@,
                component_id@,
                outgoing@.map_values(|m: ModelMessage| m@),
            ),
    {
        let ghost out = outgoing@.map_values(|m: ModelMessage| m@);
        let mut parked: Vec<ParkedMessage> = Vec::new();
        let mut external: Vec<ModelMessage> = Vec::new();
        let mut i: usize = 0;
        while i < outgoing.len()
            invariant
                i <= outgoing@.len(),
                out == outgoing@.map_values(|m: ModelMessage| m@),
                (parked@.map_values(|p: ParkedMessage| p@), external@.map_values(
                    |m: ModelMessage| m@,
                )) == component_output(
                    self.internal@,
                    self.external_output@,
                    component_id@,
                    out.take(i as int),
                ),
            decreases outgoing@.len() - i,
        {
            let m = &outgoing[i];
            assert(out.take(i + 1).drop_last() =~= out.take(i as int));
            assert(out.take(i + 1).last() == m@);
            let targets = self.internal_targets(component_id, &m.port_name);
            let ghost p0 = parked@.map_values(|p: ParkedMessage| p@);
            let ghost tv = targets@.map_values(|t: (String, String)| (t.0@, t.1@));
            let mut k: usize = 0;
            while k < targets.len()
                invariant
                    k <= targets@.len(),
                    tv == targets@.map_values(|t: (String, String)| (t.0@, t.1@)),
                    parked@.map_values(|p: ParkedMessage| p@) == p0 + tv.take(k as int).map_values(
                        |t: (Seq<char>, Seq<char>)| (t.0, t.1, m.content@),
                    ),
                decreases targets@.len() - k,
            {
                let ghost before = parked@;
                parked.push(
                    ParkedMessage {
                        component_id: targets[k].0.clone(),
                        port: targets[k].1.clone(),
                        content: m.content.clone(),
                    },
                );
                assert(tv[k as int] == (targets@[k as int].0@, targets@[k as int].1@));
                assert(parked@.map_values(|p: ParkedMessage| p@) =~= before.map_values(
                    |p: ParkedMessage| p@,
                ).push((tv[k as int].0, tv[k as int].1, m.content@)));
                assert(tv.take(k + 1) =~= tv.take(k as int).push(tv[k as int]));
                assert(parked@.map_values(|p: ParkedMessage| p@) =~= p0 + tv.take(k + 1).map_values(
                    |t: (Seq<char>, Seq<char>)| (t.0, t.1, m.content@),
                ));
                k = k + 1;
            }
            assert(tv.take(targets@.len() as int) =~= tv);
            let ports = self.external_output_targets(component_id, &m.port_name);
            let ghost e0 = external@.map_values(|x: ModelMessage| x@);
            let ghost pv = ports@.map_values(|s: String| s@);
            let mut k: usize = 0;
            while k < ports.len()
                invariant
                    k <= ports@.len(),
                    pv == ports@.map_values(|s: String| s@),
                    external@.map_values(|x: ModelMessage| x@) == e0 + pv.take(k as int).map_values(
                        |q: Seq<char>| (q, m.content@),
                    ),
                decreases ports@.len() - k,
            {
                let ghost before = external@;
                external.push(ModelMessage::new(ports[k].clone(), m.content.clone()));
                assert(pv[k as int] == ports@[k as int]@);
                assert(external@.map_values(|x: ModelMessage| x@) =~= before.map_values(
                    |x: ModelMessage| x@,
                ).push((pv[k as int], m.content@)));
                assert(pv.take(k + 1) =~= pv.take(k as int).push(pv[k as int]));
                assert(external@.map_values(|x: ModelMessage| x@) =~= e0 + pv.take(k + 1).map_values(
                    |q: Seq<char>| (q, m.content@),
                ));
                k = k + 1;
            }
            assert(pv.take(ports@.len() as int) =~= pv);
            i = i + 1;
        }
        assert(out.take(outgoing@.len() as int) =~= out);
        (parked, external)
    }
}

/// The internal couplings from `port` of component `id`.
pub open spec fn internal_from(id: Seq<char>, port: Seq<char>) -> spec_fn(InternalCoupling) -> bool {
    |c: InternalCoupling| c.source_id@ == id && c.source_port@ == port
}

/// The external output couplings from `port` of component `id`.
pub open spec fn output_from(id: Seq<char>, port: Seq<char>) -> spec_fn(ExternalOutputCoupling) -> bool {
    |c: ExternalOutputCoupling| c.source_id@ == id && c.source_port@ == port
}

/// The messages parked when component `id` sends `o`: one per internal
/// coupling from its port, for the coupling's target component and target
/// port, with the content sent.
pub open spec fn parked_by(ics: Seq<InternalCoupling>, id: Seq<char>) -> spec_fn(
    (Seq<char>, Seq<char>),
) -> Seq<(Seq<char>, Seq<char>, Seq<char>)> {
    |o: (Seq<char>, Seq<char>)|
        ics.filter(internal_from(id, o.0)).map_values(
            |c: InternalCoupling| (c.target_id@, c.target_port@, o.1),
        )
}

/// The messages leaving the coupled model when component `id` sends `o`:
/// one per external output coupling from its port, on the coupling's
/// target port, with the content sent.
pub open spec fn emitted_by(eocs: Seq<ExternalOutputCoupling>, id: Seq<char>) -> spec_fn(
    (Seq<char>, Seq<char>),
) -> Seq<(Seq<char>, Seq<char>)> {
    |o: (Seq<char>, Seq<char>)|
        eocs.filter(output_from(id, o.0)).map_values(
            |c: ExternalOutputCoupling| (c.target_port@, o.1),
        )
}

/// The internal routes from a port are the (target component, target port)
/// of exactly the internal couplings from that port, in coupling order.
pub proof fn lemma_internal_routes_are_couplings(ics: Seq<InternalCoupling>, id: Seq<char>, port: Seq<char>)
    ensures
        internal_routes(ics, id, port) == ics.filter(internal_from(id, port)).map_values(
            |c: InternalCoupling| (c.target_id@, c.target_port@),
        ),
    decreases ics.len(),
{
    reveal(Seq::filter);
    if ics.len() > 0 {
        lemma_internal_routes_are_couplings(ics.drop_last(), id, port);
    }
    assert(internal_routes(ics, id, port) =~= ics.filter(internal_from(id, port)).map_values(
        |c: InternalCoupling| (c.target_id@, c.target_port@),
    ));
}

/// The output ports for a port are the target ports of exactly the external
/// output couplings from it, in coupling order.
pub proof fn lemma_output_ports_are_couplings(eocs: Seq<ExternalOutputCoupling>, id: Seq<char>, port: Seq<char>)
    ensures
        output_ports(eocs, id, port) == eocs.filter(output_from(id, port)).map_values(
            |c: ExternalOutputCoupling| c.target_port@,
        ),
    decreases eocs.len(),
{
    reveal(Seq::filter);
    if eocs.len() > 0 {
        lemma_output_ports_are_couplings(eocs.drop_last(), id, port);
    }
    assert(output_ports(eocs, id, port) =~= eocs.filter(output_from(id, port)).map_values(
        |c: ExternalOutputCoupling| c.target_port@,
    ));
}

/// A message arriving at the coupled model on `port` is parked once for
/// each external input coupling from that port, for the coupling's target
/// component and target port, in coupling order.
pub proof fn lemma_parked_for_follows_couplings(eics: Seq<ExternalInputCoupling>, msg: (Seq<char>, Seq<char>))
    ensures
        parked_for(eics, msg) == eics.filter(|c: ExternalInputCoupling| c.source_port@ == msg.0).map_values(
            |c: ExternalInputCoupling| (c.target_id@, c.target_port@, msg.1),
        ),
    decreases eics.len(),
{
    reveal(Seq::filter);
    if eics.len() > 0 {
        lemma_parked_for_follows_couplings(eics.drop_last(), msg);
    }
    assert(parked_for(eics, msg) =~= eics.filter(|c: ExternalInputCoupling| c.source_port@ == msg.0).map_values(
        |c: ExternalInputCoupling| (c.target_id@, c.target_port@, msg.1),
    ));
}

/// What a component sends is routed along the couplings and nowhere else:
/// for each outgoing message in order, one parked message per internal
/// coupling from its port (to the coupling's target component and target
/// port), and one message leaving the coupled model per external output
/// coupling from it (on the coupling's target port), each with the content
/// sent.
pub proof fn lemma_component_output_follows_couplings(
    ics: Seq<InternalCoupling>,
    eocs: Seq<ExternalOutputCoupling>,
    id: Seq<char>,
    outgoing: Seq<(Seq<char>, Seq<char>)>,
)
    ensures
        component_output(ics, eocs, id, outgoing).0 == outgoing.flat_map(parked_by(ics, id)),
        component_output(ics, eocs, id, outgoing).1 == outgoing.flat_map(emitted_by(eocs, id)),
    decreases outgoing.len(),
{
    if outgoing.len() > 0 {
        let o = outgoing.drop_last();
        let (port, content) = outgoing.last();
        lemma_component_output_follows_couplings(ics, eocs, id, o);
        lemma_internal_routes_are_couplings(ics, id, port);
        lemma_output_ports_are_couplings(eocs, id, port);
        o.lemma_flat_map_push(parked_by(ics, id), outgoing.last());
        o.lemma_flat_map_push(emitted_by(eocs, id), outgoing.last());
        assert(o.push(outgoing.last()) =~= outgoing);
        assert(internal_routes(ics, id, port).map_values(
            |t: (Seq<char>, Seq<char>)| (t.0, t.1, content),
        ) =~= parked_by(ics, id)(outgoing.last()));
        assert(output_ports(eocs, id, port).map_values(|q: Seq<char>| (q, content)) =~= emitted_by(
            eocs,
            id,
        )(outgoing.last()));
    } else {
        assert(outgoing.flat_map(parked_by(ics, id)) =~= Seq::<
            (Seq<char>, Seq<char>, Seq<char>),
        >::empty()) by {
            reveal_with_fuel(Seq::flatten, 1);
        }
        assert(outgoing.flat_map(emitted_by(eocs, id)) =~= Seq::<(Seq<char>, Seq<char>)>::empty())
            by {
            reveal_with_fuel(Seq::flatten, 1);
        }
    }
}

/// Every internal coupling from a port is among its routes.
proof fn lemma_internal_routes_complete(ics: Seq<InternalCoupling>, id: Seq<char>, port: Seq<char>, j: int)
    requires
        0 <= j < ics.len(),
        ics[j].source_id@ == id,
        ics[j].source_port@ == port,
    ensures
        internal_routes(ics, id, port).contains((ics[j].target_id@, ics[j].target_port@)),
    decreases ics.len(),
{
    let d = ics.drop_last();
    if j < ics.len() - 1 {
        assert(d[j] == ics[j]);
        lemma_internal_routes_complete(d, id, port, j);
        let r = internal_routes(d, id, port);
        let k = choose|k: int| 0 <= k < r.len() && r[k] == (ics[j].target_id@, ics[j].target_port@);
        assert(internal_routes(ics, id, port)[k] == r[k]);
    } else {
        let r = internal_routes(ics, id, port);
        assert(r[r.len() - 1] == (ics[j].target_id@, ics[j].target_port@));
    }
}

/// No internal message is lost or misaddressed: for every message a
/// component sends and every internal coupling from its port, a message
/// with that content is parked for the coupling's target component, on the
/// coupling's target port.
pub proof fn lemma_component_output_parks_on_target_ports(
    ics: Seq<InternalCoupling>,
    eocs: Seq<ExternalOutputCoupling>,
    id: Seq<char>,
    outgoing: Seq<(Seq<char>, Seq<char>)>,
    i: int,
    j: int,
)
    requires
        0 <= i < outgoing.len(),
        0 <= j < ics.len(),
        ics[j].source_id@ == id,
        ics[j].source_port@ == outgoing[i].0,
    ensures
        component_output(ics, eocs, id, outgoing).0.contains(
            (ics[j].target_id@, ics[j].target_port@, outgoing[i].1),
        ),
    decreases outgoing.len(),
{
    let o = outgoing.drop_last();
    let ps = component_output(ics, eocs, id, outgoing).0;
    let pso = component_output(ics, eocs, id, o).0;
    let m = (ics[j].target_id@, ics[j].target_port@, outgoing[i].1);
    if i < outgoing.len() - 1 {
        assert(o[i] == outgoing[i]);
        lemma_component_output_parks_on_target_ports(ics, eocs, id, o, i, j);
        let k = choose|k: int| 0 <= k < pso.len() && pso[k] == m;
        assert(ps[k] == pso[k]);
    } else {
        let (port, content) = outgoing.last();
        lemma_internal_routes_complete(ics, id, port, j);
        let r = internal_routes(ics, id, port);
        let t = choose|t: int| 0 <= t < r.len() && r[t] == (ics[j].target_id@, ics[j].target_port@);
        assert(ps[pso.len() + t] == m);
    }
}

/// A component receives exactly the parked messages addressed to it, in
/// parking order, each on its parked port with its content.
pub proof fn lemma_parked_for_component_is_addressed(parked: Seq<(Seq<char>, Seq<char>, Seq<char>)>, id: Seq<char>)
    ensures
        parked_for_component(parked, id) == parked.filter(
            |p: (Seq<char>, Seq<char>, Seq<char>)| p.0 == id,
        ).map_values(|p: (Seq<char>, Seq<char>, Seq<char>)| (p.1, p.2)),
    decreases parked.len(),
{
    reveal(Seq::filter);
    if parked.len() > 0 {
        lemma_parked_for_component_is_addressed(parked.drop_last(), id);
    }
    assert(parked_for_component(parked, id) =~= parked.filter(
        |p: (Seq<char>, Seq<char>, Seq<char>)| p.0 == id,
    ).map_values(|p: (Seq<char>, Seq<char>, Seq<char>)| (p.1, p.2)));
}

} // verus!
