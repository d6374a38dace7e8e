//! The exclusive gateway splits a process flow into a set of possible
//! paths; each job follows one of them, chosen by a weighted index random
//! variable.
use vstd::prelude::*;

use super::{
    join_on, messages_view, on_port, record, recorded, records_view, strings_view, text,
    ModelMessage, ModelRecord, Reportable, Timer,
};
use crate::errors::SimulationError;
use crate::input_modeling::Index;

verus! {

/// The abstract state of an exclusive gateway (its port weights are held
/// by the model itself).
pub struct ExclusiveGatewayView {
    pub flow_paths_in: Seq<Seq<char>>,
    pub flow_paths_out: Seq<Seq<char>>,
    pub store_records: bool,
    pub passing: bool,
    pub jobs: Seq<Seq<char>>,
    pub records: Seq<(Seq<char>, Seq<char>)>,
}

/// A new, passive exclusive gateway.
pub open spec fn exclusive_gateway_init(
    flow_paths_in: Seq<Seq<char>>,
    flow_paths_out: Seq<Seq<char>>,
    store_records: bool,
) -> ExclusiveGatewayView {
    ExclusiveGatewayView {
        flow_paths_in,
        flow_paths_out,
        store_records,
        passing: false,
        jobs: seq![],
        records: seq![],
    }
}

/// Every arriving job is passed on at once.
pub open spec fn exclusive_gateway_ext(s: ExclusiveGatewayView, msg: (Seq<char>, Seq<char>)) -> (
    ExclusiveGatewayView,
    Result<Timer, SimulationError>,
) {
    (
        ExclusiveGatewayView {
            passing: true,
            jobs: s.jobs.push(msg.1),
            records: recorded(s.records, s.store_records, seq![("Arrival"@, on_port(msg.1, msg.0))]),
            ..s
        },
        Ok(Timer::Immediate),
    )
}

/// The records of the departure of each of `jobs` on `port`.
pub open spec fn departures_on(jobs: Seq<Seq<char>>, port: Seq<char>) -> Seq<
    (Seq<char>, Seq<char>),
> {
    jobs.map_values(|j: Seq<char>| ("Departure"@, on_port(j, port)))
}

/// All waiting jobs leave together on the out flow path numbered `index`;
/// the gateway is then passive.
pub open spec fn exclusive_gateway_send(s: ExclusiveGatewayView, index: int) -> (
    ExclusiveGatewayView,
    Seq<(Seq<char>, Seq<char>)>,
) {
    let port = s.flow_paths_out[index];
    (
        ExclusiveGatewayView {
            passing: false,
            jobs: seq![],
            records: recorded(s.records, s.store_records, departures_on(s.jobs, port)),
            ..s
        },
        s.jobs.map_values(|j: Seq<char>| (port, j)),
    )
}

/// The exclusive gateway splits a process flow into a set of possible paths.
/// The process will only follow one of the possible paths.  Path selection
/// is determined by Weighted Index distribution random variates, so this
/// atomic model exhibits stochastic behavior.
#[derive(Debug, Clone)]
pub struct ExclusiveGateway {
    flow_paths_in: Vec<String>,
    flow_paths_out: Vec<String>,
    port_weights: Index,
    store_records: bool,
    passing: bool,
    jobs: Vec<String>,
    records: Vec<ModelRecord>,
}

impl View for ExclusiveGateway {
    type V = ExclusiveGatewayView;

    closed spec fn view(&self) -> ExclusiveGatewayView {
        ExclusiveGatewayView {
            flow_paths_in: strings_view(self.flow_paths_in@),
            flow_paths_out: strings_view(self.flow_paths_out@),
            store_records: self.store_records,
            passing: self.passing,
            jobs: strings_view(self.jobs@),
            records: records_view(self.records@),
        }
    }
}

impl ExclusiveGateway {
    /// The port weights.
    pub closed spec fn spec_port_weights(&self) -> Index {
        self.port_weights
    }

    /// The port weights can be drawn from, and every index they can take
    /// numbers an out flow path.
    pub open spec fn wf(&self) -> bool {
        &&& self.spec_port_weights().valid()
        &&& forall|i: usize| #[trigger]
            self.spec_port_weights().in_support(i) ==> i < self@.flow_paths_out.len()
    }

    pub fn new(
        flow_paths_in: Vec<String>,
        flow_paths_out: Vec<String>,
        port_weights: Index,
        store_records: bool,
    ) -> (m: Self)
        ensures
            m@ == exclusive_gateway_init(
                strings_view(flow_paths_in@),
                strings_view(flow_paths_out@),
                store_records,
            ),
            m.spec_port_weights() == port_weights,
    {
        let m = ExclusiveGateway {
            flow_paths_in,
            flow_paths_out,
            port_weights,
            store_records,
            passing: false,
            jobs: Vec::new(),
            records: Vec::new(),
        };
        assert(records_view(m.records@) =~= seq![]);
        assert(strings_view(m.jobs@) =~= seq![]);
        m
    }

    /// An exclusive gateway restored from a saved state: whether it is
    /// passing jobs, the jobs waiting and the records.
    pub fn restore(
        flow_paths_in: Vec<String>,
        flow_paths_out: Vec<String>,
        port_weights: Index,
        store_records: bool,
        passing: bool,
        jobs: Vec<String>,
        records: Vec<ModelRecord>,
    ) -> (m: Self)
        ensures
            m@ == (ExclusiveGatewayView {
                flow_paths_in: strings_view(flow_paths_in@),
                flow_paths_out: strings_view(flow_paths_out@),
                store_records,
                passing,
                jobs: strings_view(jobs@),
                records: records_view(records@),
            }),
            m.spec_port_weights() == port_weights,
    {
        ExclusiveGateway {
            flow_paths_in,
            flow_paths_out,
            port_weights,
            store_records,
            passing,
            jobs,
            records,
        }
    }

    /// Whether the gateway is passing jobs.
    pub fn is_passing(&self) -> (b: bool)
        ensures
            b == self@.passing,
    {
        self.passing
    }

    /// The jobs waiting, in arrival order.
    pub fn jobs(&self) -> (j: &Vec<String>)
        ensures
            strings_view(j@) == self@.jobs,
    {
        &self.jobs
    }

    /// The external transition for an arriving job.
    pub fn events_ext(&mut self, msg: &ModelMessage) -> (r: Result<Timer, SimulationError>)
        ensures
            (final(self)@, r) == exclusive_gateway_ext(old(self)@, msg@),
            final(self).spec_port_weights() == old(self).spec_port_weights(),
    {
        let ghost before = self.jobs@;
        self.passing = true;
        self.jobs.push(msg.content.clone());
        let subject = join_on(&msg.content, &msg.port_name);
        record(&mut self.records, self.store_records, "Arrival", subject);
        assert(strings_view(self.jobs@) =~= strings_view(before).push(msg.content@));
        Ok(Timer::Immediate)
    }

    /// Sends every waiting job on the out flow path numbered
    /// `departure_port_index`.
    pub fn send_jobs(&mut self, departure_port_index: usize) -> (out: Vec<ModelMessage>)
        requires
            departure_port_index < old(self)@.flow_paths_out.len(),
        ensures
            (final(self)@, messages_view(out@)) == exclusive_gateway_send(
                old(self)@,
                departure_port_index as int,
            ),
            final(self).spec_port_weights() == old(self).spec_port_weights(),
    {
        let ghost jobs0 = strings_view(self.jobs@);
        let ghost records0 = records_view(self.records@);
        assert(strings_view(self.flow_paths_out@).len() == self.flow_paths_out@.len());
        let port = self.flow_paths_out[departure_port_index].clone();
        assert(port@ == self@.flow_paths_out[departure_port_index as int]);
        self.passing = false;
        let mut out: Vec<ModelMessage> = Vec::new();
        let n = self.jobs.len();
        let mut i: usize = 0;
        assert(strings_view(self.jobs@).len() == n);
        while i < n
            invariant
                i <= n,
                n == jobs0.len(),
                strings_view(self.jobs@) == jobs0,
                self.jobs@.len() == n,
                records_view(self.records@) == recorded(
                    records0,
                    self.store_records,
                    departures_on(jobs0.take(i as int), port@),
                ),
                messages_view(out@) == jobs0.take(i as int).map_values(
                    |j: Seq<char>| (port@, j),
                ),
                self.port_weights == old(self).port_weights,
                self.flow_paths_in == old(self).flow_paths_in,
                self.flow_paths_out == old(self).flow_paths_out,
                self.store_records == old(self).store_records,
                !self.passing,
                port@ == old(self)@.flow_paths_out[departure_port_index as int],
            decreases n - i,
        {
            assert(strings_view(self.jobs@)[i as int] == self.jobs@[i as int]@);
            let subject = join_on(&self.jobs[i], &port);
            record(&mut self.records, self.store_records, "Departure", subject);
            assert(jobs0.take(i + 1) =~= jobs0.take(i as int).push(jobs0[i as int]));
            assert(recorded(
                recorded(records0, self.store_records, departures_on(jobs0.take(i as int), port@)),
                self.store_records,
                seq![("Departure"@, on_port(jobs0[i as int], port@))],
            ) =~= recorded(records0, self.store_records, departures_on(jobs0.take(i + 1), port@)));
            let ghost out_before = out@;
            out.push(ModelMessage::new(port.clone(), self.jobs[i].clone()));
            assert(messages_view(out@) =~= messages_view(out_before).push((port@, jobs0[i as int])));
            assert(messages_view(out@) =~= jobs0.take(i + 1).map_values(|j: Seq<char>| (port@, j)));
            i = i + 1;
        }
        self.jobs = Vec::new();
        assert(jobs0.take(n as int) =~= jobs0);
        assert(strings_view(self.jobs@) =~= seq![]);
        out
    }

    /// The internal transition: a passive gateway stays passive; a passing
    /// one turns passive, draws the out flow path from its port weights and
    /// sends every waiting job on it.  Drawing fails exactly when the weights
    /// do; then nothing is sent and the jobs keep waiting.
    pub fn events_int(&mut self, rng: &mut rand_pcg::Mcg128Xsl64) -> (r: Result<
        (Vec<ModelMessage>, Timer),
        SimulationError,
    >)
        requires
            old(self)@.passing ==> old(self).wf(),
        ensures
            final(self).wf() == old(self).wf(),
            final(self).spec_port_weights() == old(self).spec_port_weights(),
            !old(self)@.passing ==> (r matches Ok(out) && final(self)@ == old(self)@
                && messages_view(out.0@) == Seq::<(Seq<char>, Seq<char>)>::empty() && out.1
                == Timer::Passive),
            old(self)@.passing ==> (r is Err <==> old(self).spec_port_weights().fails()),
            old(self)@.passing && r is Err ==> final(self)@ == (ExclusiveGatewayView {
                passing: false,
                ..old(self)@
            }),
            old(self)@.passing ==> (r matches Ok(out) ==> out.1 == Timer::Passive && exists|
                i: usize,
            |
                old(self).spec_port_weights().in_support(i) && (final(self)@, messages_view(
                    out.0@,
                )) == #[trigger] exclusive_gateway_send(old(self)@, i as int)),
    {
        if !self.passing {
            let out: Vec<ModelMessage> = Vec::new();
            assert(messages_view(out@) =~= Seq::<(Seq<char>, Seq<char>)>::empty());
            return Ok((out, Timer::Passive));
        }
        let ghost before = self@;
        self.passing = false;
        let ghost idle = self@;
        let index = self.port_weights.random_variate(rng)?;
        let out = self.send_jobs(index);
        assert(exclusive_gateway_send(idle, index as int) == exclusive_gateway_send(
            before,
            index as int,
        ));
        Ok((out, Timer::Passive))
    }
}

impl Reportable for ExclusiveGateway {
    /// "Passive", or "Passing <first job>".
    fn status(&self) -> (s: String)
        ensures
            s@ == if !self@.passing {
                "Passive"@
            } else if self@.jobs.len() > 0 {
                "Passing "@ + self@.jobs[0]
            } else {
                "Passing "@
            },
    {
        if !self.passing {
            text("Passive")
        } else if self.jobs.len() > 0 {
            text("Passing ").concat(self.jobs[0].as_str())
        } else {
            text("Passing ")
        }
    }

    fn records(&self) -> (r: &Vec<ModelRecord>)
        ensures
            records_view(r@) == self@.records,
    {
        &self.records
    }
}

/// An exclusive gateway sends every waiting job down one and the same path,
/// loses none, and keeps none.
pub proof fn lemma_exclusive_gateway_one_path(s: ExclusiveGatewayView, index: int)
    requires
        0 <= index < s.flow_paths_out.len(),
    ensures
        ({
            let (s1, out) = exclusive_gateway_send(s, index);
            &&& out.len() == s.jobs.len()
            &&& forall|k: int| 0 <= k < out.len() ==> #[trigger] out[k] == (
                s.flow_paths_out[index],
                s.jobs[k],
            )
            &&& s1.jobs.len() == 0
        }),
{
}

} // verus!
