//! The stochastic gate blocks (drops) or passes jobs, based on a Bernoulli
//! random variate drawn for each job.
use vstd::prelude::*;

use super::{messages_view, text, ModelMessage, Timer};
use crate::errors::SimulationError;

verus! {

/// A job seen by a stochastic gate, with the outcome of its draw.
#[derive(Debug, Clone)]
pub struct GateJob {
    pub content: String,
    pub pass: bool,
}

impl View for GateJob {
    type V = (Seq<char>, bool);

    open spec fn view(&self) -> (Seq<char>, bool) {
        (self.content@, self.pass)
    }
}

/// The views of a sequence of gate jobs.
pub open spec fn gate_jobs_view(jobs: Seq<GateJob>) -> Seq<(Seq<char>, bool)> {
    jobs.map_values(|j: GateJob| j@)
}

/// The name of the port on which records are requested and sent.
pub open spec fn records_port_name() -> Seq<char> {
    "records"@
}

/// The abstract state of a stochastic gate.
pub struct StochasticGateView {
    pub job_in_port: Seq<char>,
    pub job_out_port: Seq<char>,
    pub records_in_port: Seq<char>,
    pub records_out_port: Seq<char>,
    pub store_records: bool,
    pub fetching_records: bool,
    pub jobs: Seq<(Seq<char>, bool)>,
    pub records: Seq<(Seq<char>, bool)>,
}

/// A new stochastic gate, gating, with no jobs.
pub open spec fn stochastic_gate_init(
    job_in_port: Seq<char>,
    job_out_port: Seq<char>,
    store_records: bool,
) -> StochasticGateView {
    StochasticGateView {
        job_in_port,
        job_out_port,
        records_in_port: records_port_name(),
        records_out_port: records_port_name(),
        store_records,
        fetching_records: false,
        jobs: seq![],
        records: seq![],
    }
}

/// A request on the records port is answered at once when the model keeps
/// records and ignored otherwise; a job on the job port joins the queue
/// with its draw `pass` (and is recorded when the model keeps records), to
/// be gated at once; any other port is an invalid model state.
pub open spec fn stochastic_gate_ext(
    s: StochasticGateView,
    msg: (Seq<char>, Seq<char>),
    pass: bool,
) -> (StochasticGateView, Result<Timer, SimulationError>) {
    if msg.0 == s.records_in_port && s.store_records {
        (StochasticGateView { fetching_records: true, ..s }, Ok(Timer::Immediate))
    } else if msg.0 == s.records_in_port {
        (s, Ok(Timer::Keep))
    } else if msg.0 == s.job_in_port {
        (
            StochasticGateView {
                jobs: s.jobs.push((msg.1, pass)),
                records: if s.store_records {
                    s.records.push((msg.1, pass))
                } else {
                    s.records
                },
                ..s
            },
            Ok(Timer::Immediate),
        )
    } else {
        (s, Err(SimulationError::InvalidModelState))
    }
}

/// A pending records request sends `records_content` on the records port;
/// otherwise the job at the head of the queue is passed on the job port if
/// its draw was a success and dropped if not; with no jobs the model is
/// passive.
pub open spec fn stochastic_gate_int(s: StochasticGateView, records_content: Seq<char>) -> (
    StochasticGateView,
    Seq<(Seq<char>, Seq<char>)>,
    Timer,
) {
    if s.fetching_records {
        (
            StochasticGateView { fetching_records: false, ..s },
            seq![(s.records_out_port, records_content)],
            Timer::Immediate,
        )
    } else if s.jobs.len() == 0 {
        (s, seq![], Timer::Passive)
    } else if s.jobs[0].1 {
        (
            StochasticGateView { jobs: s.jobs.drop_first(), ..s },
            seq![(s.job_out_port, s.jobs[0].0)],
            Timer::Immediate,
        )
    } else {
        (StochasticGateView { jobs: s.jobs.drop_first(), ..s }, seq![], Timer::Immediate)
    }
}

/// The stochastic gate blocks (drops) or passes jobs, based on a specified
/// Bernoulli distribution. If the Bernoulli random variate is a 0, the job
/// will be dropped. If the Bernoulli random variate is a 1, the job will be
/// passed.
#[derive(Debug, Clone)]
pub struct StochasticGate {
    job_in_port: String,
    job_out_port: String,
    records_in_port: String,
    records_out_port: String,
    store_records: bool,
    fetching_records: bool,
    jobs: Vec<GateJob>,
    records: Vec<GateJob>,
}

impl View for StochasticGate {
    type V = StochasticGateView;

    closed spec fn view(&self) -> StochasticGateView {
        StochasticGateView {
            job_in_port: self.job_in_port@,
            job_out_port: self.job_out_port@,
            records_in_port: self.records_in_port@,
            records_out_port: self.records_out_port@,
            store_records: self.store_records,
            fetching_records: self.fetching_records,
            jobs: gate_jobs_view(self.jobs@),
            records: gate_jobs_view(self.records@),
        }
    }
}

impl StochasticGate {
    pub fn new(job_in_port: String, job_out_port: String, store_records: bool) -> (m: Self)
        ensures
            m@ == stochastic_gate_init(job_in_port@, job_out_port@, store_records),
    {
        let m = StochasticGate {
            job_in_port,
            job_out_port,
            records_in_port: text("records"),
            records_out_port: text("records"),
            store_records,
            fetching_records: false,
            jobs: Vec::new(),
            records: Vec::new(),
        };
        assert(gate_jobs_view(m.jobs@) =~= seq![]);
        assert(gate_jobs_view(m.records@) =~= seq![]);
        m
    }

    /// A stochastic gate restored from a saved state: whether a records
    /// request is pending, the jobs waiting with their draws, and the
    /// records.
    pub fn restore(
        job_in_port: String,
        job_out_port: String,
        records_in_port: String,
        records_out_port: String,
        store_records: bool,
        fetching_records: bool,
        jobs: Vec<GateJob>,
        records: Vec<GateJob>,
    ) -> (m: Self)
        ensures
            m@ == (StochasticGateView {
                job_in_port: job_in_port@,
                job_out_port: job_out_port@,
                records_in_port: records_in_port@,
                records_out_port: records_out_port@,
                store_records,
                fetching_records,
                jobs: gate_jobs_view(jobs@),
                records: gate_jobs_view(records@),
            }),
    {
        StochasticGate {
            job_in_port,
            job_out_port,
            records_in_port,
            records_out_port,
            store_records,
            fetching_records,
            jobs,
            records,
        }
    }

    /// Whether a records request is pending.
    pub fn is_fetching_records(&self) -> (b: bool)
        ensures
            b == self@.fetching_records,
    {
        self.fetching_records
    }

    /// The jobs waiting, with their draws, in arrival order.
    pub fn jobs(&self) -> (j: &Vec<GateJob>)
        ensures
            gate_jobs_view(j@) == self@.jobs,
    {
        &self.jobs
    }

    /// Whether a message on `port` is a job, for which a pass variate must
    /// be drawn.
    pub fn is_job_port(&self, port: &String) -> (b: bool)
        ensures
            b == (port@ == self@.job_in_port && port@ != self@.records_in_port),
    {
        *port == self.job_in_port && *port != self.records_in_port
    }

    /// The external transition for a message that arrived on
    /// `msg.port_name`; `pass` is the Bernoulli draw for a job.
    pub fn events_ext(&mut self, msg: &ModelMessage, pass: bool) -> (r: Result<Timer, SimulationError>)
        ensures
            (final(self)@, r) == stochastic_gate_ext(old(self)@, msg@, pass),
    {
        if msg.port_name == self.records_in_port {
            if self.store_records {
                self.fetching_records = true;
                Ok(Timer::Immediate)
            } else {
                Ok(Timer::Keep)
            }
        } else if msg.port_name == self.job_in_port {
            let ghost jobs0 = self.jobs@;
            let ghost records0 = self.records@;
            self.jobs.push(GateJob { content: msg.content.clone(), pass });
            assert(gate_jobs_view(self.jobs@) =~= gate_jobs_view(jobs0).push((msg.content@, pass)));
            if self.store_records {
                self.records.push(GateJob { content: msg.content.clone(), pass });
                assert(gate_jobs_view(self.records@) =~= gate_jobs_view(records0).push(
                    (msg.content@, pass),
                ));
            }
            Ok(Timer::Immediate)
        } else {
            Err(SimulationError::InvalidModelState)
        }
    }

    /// The internal transition: the messages sent, and the timer.
    /// `records_content` is the serialised form of the records, sent when
    /// they were requested.
    pub fn events_int(&mut self, records_content: String) -> (r: Result<
        (Vec<ModelMessage>, Timer),
        SimulationError,
    >)
        ensures
            r matches Ok(out) && (final(self)@, messages_view(out.0@), out.1)
                == stochastic_gate_int(old(self)@, records_content@),
    {
        let mut out: Vec<ModelMessage> = Vec::new();
        if self.fetching_records {
            self.fetching_records = false;
            out.push(ModelMessage::new(self.records_out_port.clone(), records_content));
            assert(messages_view(out@) =~= seq![(self.records_out_port@, records_content@)]);
            return Ok((out, Timer::Immediate));
        }
        if self.jobs.len() == 0 {
            assert(messages_view(out@) =~= seq![]);
            return Ok((out, Timer::Passive));
        }
        let ghost jobs0 = self.jobs@;
        let job = self.jobs.remove(0);
        assert(gate_jobs_view(self.jobs@) =~= gate_jobs_view(jobs0).drop_first());
        assert(gate_jobs_view(jobs0)[0] == job@);
        if job.pass {
            out.push(ModelMessage::new(self.job_out_port.clone(), job.content));
            assert(messages_view(out@) =~= seq![(self.job_out_port@, job@.0)]);
        } else {
            assert(messages_view(out@) =~= seq![]);
        }
        Ok((out, Timer::Immediate))
    }

    /// "Gating", or "Fetching Records" while a records request is pending.
    pub fn status(&self) -> (s: String)
        ensures
            s@ == if self@.fetching_records {
                "Fetching Records"@
            } else {
                "Gating"@
            },
    {
        if self.fetching_records {
            text("Fetching Records")
        } else {
            text("Gating")
        }
    }

    /// The jobs recorded so far, with their draws.
    pub fn records(&self) -> (r: &Vec<GateJob>)
        ensures
            gate_jobs_view(r@) == self@.records,
    {
        &self.records
    }
}

/// A stochastic gate passes a job exactly when its draw was a success, in
/// the order the jobs arrived: the job at the head of the queue leaves on
/// the job port if its draw passed, and is dropped otherwise; either way it
/// leaves the queue.
pub proof fn lemma_stochastic_gate_passes_by_draw(s: StochasticGateView, records: Seq<char>)
    requires
        !s.fetching_records,
        s.jobs.len() > 0,
    ensures
        ({
            let (s1, out, _) = stochastic_gate_int(s, records);
            &&& s1.jobs == s.jobs.drop_first()
            &&& s.jobs[0].1 ==> out == seq![(s.job_out_port, s.jobs[0].0)]
            &&& !s.jobs[0].1 ==> out.len() == 0
        }),
{
}

} // verus!
