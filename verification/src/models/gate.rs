//! Passing or blocking of jobs, by whether the model is open or closed.
use vstd::prelude::*;

use super::{
    messages_view, record, recorded, records_of, records_view, release_front, sent_on,
    strings_view, text, ModelMessage, ModelRecord, Reportable, Timer,
};
use crate::errors::SimulationError;

verus! {

/// The phase of a gate.
#[derive(Debug, Clone, Copy, PartialEq, Eq, Structural)]
pub enum GatePhase {
    Open,
    Closed,
    Pass,
}

/// The abstract state of a gate.
pub struct GateView {
    pub job_in_port: Seq<char>,
    pub activation_port: Seq<char>,
    pub deactivation_port: Seq<char>,
    pub job_out_port: Seq<char>,
    pub store_records: bool,
    pub phase: GatePhase,
    pub jobs: Seq<Seq<char>>,
    pub records: Seq<(Seq<char>, Seq<char>)>,
}

/// A new, open gate.
pub open spec fn gate_init(
    job_in_port: Seq<char>,
    activation_port: Seq<char>,
    deactivation_port: Seq<char>,
    job_out_port: Seq<char>,
    store_records: bool,
) -> GateView {
    GateView {
        job_in_port,
        activation_port,
        deactivation_port,
        job_out_port,
        store_records,
        phase: GatePhase::Open,
        jobs: seq![],
        records: seq![],
    }
}

/// A job passes (at once) unless the model is closed, when it is dropped;
/// activation opens the model and deactivation closes it.  The job port is
/// matched first, then activation, then deactivation.
pub open spec fn gate_ext(s: GateView, msg: (Seq<char>, Seq<char>)) -> (
    GateView,
    Result<Timer, SimulationError>,
) {
    let (port, content) = msg;
    if port == s.job_in_port {
        if s.phase == GatePhase::Closed {
            (
                GateView {
                    records: recorded(s.records, s.store_records, seq![("Arrival"@, content)]),
                    ..s
                },
                Ok(Timer::Keep),
            )
        } else {
            (
                GateView {
                    phase: GatePhase::Pass,
                    jobs: s.jobs.push(content),
                    records: recorded(s.records, s.store_records, seq![("Arrival"@, content)]),
                    ..s
                },
                Ok(Timer::Immediate),
            )
        }
    } else if port == s.activation_port {
        (
            GateView {
                phase: GatePhase::Open,
                records: recorded(s.records, s.store_records, seq![("Activation"@, content)]),
                ..s
            },
            Ok(Timer::Passive),
        )
    } else if port == s.deactivation_port {
        (
            GateView {
                phase: GatePhase::Closed,
                records: recorded(s.records, s.store_records, seq![("Deactivation"@, content)]),
                ..s
            },
            Ok(Timer::Passive),
        )
    } else {
        (s, Err(SimulationError::InvalidMessage))
    }
}

/// All passing jobs are sent, in order, and the model is open again.
pub open spec fn gate_int(s: GateView) -> (GateView, Seq<(Seq<char>, Seq<char>)>, Timer) {
    (
        GateView {
            phase: GatePhase::Open,
            jobs: seq![],
            records: recorded(s.records, s.store_records, records_of("Departure"@, s.jobs)),
            ..s
        },
        sent_on(s.job_out_port, s.jobs),
        Timer::Passive,
    )
}

/// This model passes or blocks jobs, when it is in the open or closed
/// state, respectively.  A blocked job is a dropped job - it is not stored,
/// queued, or redirected.
#[derive(Debug, Clone)]
pub struct Gate {
    job_in_port: String,
    activation_port: String,
    deactivation_port: String,
    job_out_port: String,
    store_records: bool,
    phase: GatePhase,
    jobs: Vec<String>,
    records: Vec<ModelRecord>,
}

impl View for Gate {
    type V = GateView;

    closed spec fn view(&self) -> GateView {
        GateView {
            job_in_port: self.job_in_port@,
            activation_port: self.activation_port@,
            deactivation_port: self.deactivation_port@,
            job_out_port: self.job_out_port@,
            store_records: self.store_records,
            phase: self.phase,
            jobs: strings_view(self.jobs@),
            records: records_view(self.records@),
        }
    }
}

impl Gate {
    pub fn new(
        job_in_port: String,
        activation_port: String,
        deactivation_port: String,
        job_out_port: String,
        store_records: bool,
    ) -> (m: Self)
        ensures
            m@ == gate_init(
                job_in_port@,
                activation_port@,
                deactivation_port@,
                job_out_port@,
                store_records,
            ),
    {
        let m = Gate {
            job_in_port,
            activation_port,
            deactivation_port,
            job_out_port,
            store_records,
            phase: GatePhase::Open,
            jobs: Vec::new(),
            records: Vec::new(),
        };
        assert(records_view(m.records@) =~= seq![]);
        assert(strings_view(m.jobs@) =~= seq![]);
        m
    }

    /// A gate restored from a saved state: its phase, the jobs passing and
    /// the records.
    pub fn restore(
        job_in_port: String,
        activation_port: String,
        deactivation_port: String,
        job_out_port: String,
        store_records: bool,
        phase: GatePhase,
        jobs: Vec<String>,
        records: Vec<ModelRecord>,
    ) -> (m: Self)
        ensures
            m@ == (GateView {
                job_in_port: job_in_port@,
                activation_port: activation_port@,
                deactivation_port: deactivation_port@,
                job_out_port: job_out_port@,
                store_records,
                phase,
                jobs: strings_view(jobs@),
                records: records_view(records@),
            }),
    {
        Gate {
            job_in_port,
            activation_port,
            deactivation_port,
            job_out_port,
            store_records,
            phase,
            jobs,
            records,
        }
    }

    /// The phase.
    pub fn phase(&self) -> (p: GatePhase)
        ensures
            p == self@.phase,
    {
        self.phase
    }

    /// The jobs passing, in arrival order.
    pub fn jobs(&self) -> (j: &Vec<String>)
        ensures
            strings_view(j@) == self@.jobs,
    {
        &self.jobs
    }

    /// The external transition for a message that arrived on `msg.port_name`.
    pub fn events_ext(&mut self, msg: &ModelMessage) -> (r: Result<Timer, SimulationError>)
        ensures
            (final(self)@, r) == gate_ext(old(self)@, msg@),
    {
        let ghost before = self.jobs@;
        if msg.port_name == self.job_in_port {
            if self.phase == GatePhase::Closed {
                record(&mut self.records, self.store_records, "Arrival", msg.content.clone());
                Ok(Timer::Keep)
            } else {
                self.phase = GatePhase::Pass;
                self.jobs.push(msg.content.clone());
                record(&mut self.records, self.store_records, "Arrival", msg.content.clone());
                assert(strings_view(self.jobs@) =~= strings_view(before).push(msg.content@));
                Ok(Timer::Immediate)
            }
        } else if msg.port_name == self.activation_port {
            self.phase = GatePhase::Open;
            record(&mut self.records, self.store_records, "Activation", msg.content.clone());
            Ok(Timer::Passive)
        } else if msg.port_name == self.deactivation_port {
            self.phase = GatePhase::Closed;
            record(&mut self.records, self.store_records, "Deactivation", msg.content.clone());
            Ok(Timer::Passive)
        } else {
            Err(SimulationError::InvalidMessage)
        }
    }

    /// The internal transition: the messages sent, and the timer.
    pub fn events_int(&mut self) -> (r: Result<(Vec<ModelMessage>, Timer), SimulationError>)
        ensures
            r matches Ok(out) && (final(self)@, messages_view(out.0@), out.1) == gate_int(
                old(self)@,
            ),
    {
        self.phase = GatePhase::Open;
        let n = self.jobs.len();
        let out = release_front(
            &mut self.jobs,
            &mut self.records,
            self.store_records,
            &self.job_out_port,
            n,
        );
        assert(strings_view(old(self).jobs@).take(n as int) =~= strings_view(old(self).jobs@));
        assert(strings_view(self.jobs@) =~= seq![]);
        Ok((out, Timer::Passive))
    }
}

impl Reportable for Gate {
    /// "Open", "Closed", or "Passing <first job>".
    fn status(&self) -> (s: String)
        ensures
            s@ == match self@.phase {
                GatePhase::Open => "Open"@,
                GatePhase::Closed => "Closed"@,
                GatePhase::Pass => if self@.jobs.len() > 0 {
                    "Passing "@ + self@.jobs[0]
                } else {
                    "Passing "@
                },
            },
    {
        match self.phase {
            GatePhase::Open => text("Open"),
            GatePhase::Closed => text("Closed"),
            GatePhase::Pass => {
                if self.jobs.len() > 0 {
                    text("Passing ").concat(self.jobs[0].as_str())
                } else {
                    text("Passing ")
                }
            },
        }
    }

    fn records(&self) -> (r: &Vec<ModelRecord>)
        ensures
            records_view(r@) == self@.records,
    {
        &self.records
    }
}

/// A closed gate drops every job that arrives: the job is not held and the
/// gate stays closed.  An open gate passes the job: it is sent by the next
/// internal transition, after the jobs already passing.
pub proof fn lemma_gate_passes_iff_open(s: GateView, content: Seq<char>)
    ensures
        ({
            let (s1, r) = gate_ext(s, (s.job_in_port, content));
            &&& r is Ok
            &&& s.phase == GatePhase::Closed ==> s1.jobs == s.jobs && s1.phase == GatePhase::Closed
            &&& s.phase != GatePhase::Closed ==> r == Ok::<Timer, SimulationError>(Timer::Immediate)
            &&& s.phase != GatePhase::Closed ==> gate_int(s1).1 == sent_on(
                s.job_out_port,
                s.jobs.push(content),
            )
        }),
{
}

} // verus!
