//! The batcher collects jobs into batches, released when a maximum batch
//! size or a maximum batching time is reached.
use vstd::prelude::*;

use super::{
    messages_view, record, recorded, records_of, records_view, release_front, sent_on,
    strings_view, text, ModelMessage, ModelRecord, Reportable, Timer,
};
use crate::errors::SimulationError;

verus! {

/// The phase of a batcher.
#[derive(Debug, Clone, Copy, PartialEq, Eq, Structural)]
pub enum BatcherPhase {
    /// Doing nothing
    Passive,
    /// Building a batch
    Batching,
    /// Releasing a batch
    Release,
}

/// The abstract state of a batcher.
pub struct BatcherView {
    pub job_in_port: Seq<char>,
    pub job_out_port: Seq<char>,
    pub max_batch_size: nat,
    pub store_records: bool,
    pub phase: BatcherPhase,
    pub jobs: Seq<Seq<char>>,
    pub records: Seq<(Seq<char>, Seq<char>)>,
}

/// A new, passive batcher.
pub open spec fn batcher_init(
    job_in_port: Seq<char>,
    job_out_port: Seq<char>,
    max_batch_size: nat,
    store_records: bool,
) -> BatcherView {
    BatcherView {
        job_in_port,
        job_out_port,
        max_batch_size,
        store_records,
        phase: BatcherPhase::Passive,
        jobs: seq![],
        records: seq![],
    }
}

/// Every arriving job joins the batch.  The first job of a batch starts the
/// batching time; a job that brings the batch to its maximum size makes it
/// due for release at once.  A job arriving while a batch is being
/// released, with room left, is an invalid model state.
pub open spec fn batcher_ext(s: BatcherView, msg: (Seq<char>, Seq<char>)) -> (
    BatcherView,
    Result<Timer, SimulationError>,
) {
    let added = BatcherView {
        jobs: s.jobs.push(msg.1),
        records: recorded(s.records, s.store_records, seq![("Arrival"@, msg.1)]),
        ..s
    };
    if s.jobs.len() + 1 < s.max_batch_size {
        match s.phase {
            BatcherPhase::Batching => (added, Ok(Timer::Keep)),
            BatcherPhase::Passive => (
                BatcherView { phase: BatcherPhase::Batching, ..added },
                Ok(Timer::Scheduled),
            ),
            BatcherPhase::Release => (s, Err(SimulationError::InvalidModelState)),
        }
    } else {
        (BatcherView { phase: BatcherPhase::Release, ..added }, Ok(Timer::Immediate))
    }
}

/// The number of jobs the internal transition releases.
pub open spec fn batcher_release_count(s: BatcherView) -> nat {
    if s.jobs.len() <= s.max_batch_size {
        s.jobs.len()
    } else {
        s.max_batch_size
    }
}

/// The batch is released: all jobs when they fit in one batch (then the
/// batcher is passive); otherwise one full batch, after which the rest
/// starts a new batch, released at once when it holds another full batch.
pub open spec fn batcher_int(s: BatcherView) -> Result<
    (BatcherView, Seq<(Seq<char>, Seq<char>)>, Timer),
    SimulationError,
> {
    let fits = s.jobs.len() <= s.max_batch_size;
    let two_batches = s.jobs.len() >= 2 * s.max_batch_size;
    if fits && two_batches {
        Err(SimulationError::InvalidModelState)
    } else {
        let k = batcher_release_count(s) as int;
        let released = s.jobs.take(k);
        let (phase, timer) = if fits {
            (BatcherPhase::Passive, Timer::Passive)
        } else if two_batches {
            (BatcherPhase::Release, Timer::Immediate)
        } else {
            (BatcherPhase::Batching, Timer::Scheduled)
        };
        Ok(
            (
                BatcherView {
                    phase,
                    jobs: s.jobs.skip(k),
                    records: recorded(s.records, s.store_records, records_of("Departure"@, released)),
                    ..s
                },
                sent_on(s.job_out_port, released),
                timer,
            ),
        )
    }
}

/// The batching process begins when the batcher receives a job.  It will
/// then accept additional jobs, adding them to a batch with the first job,
/// until a max batching time or max batch size is reached - whichever comes
/// first.  If the simultaneous arrival of multiple jobs causes the max batch
/// size to be exceeded, then the excess jobs will spillover into the next
/// batching period.
#[derive(Debug, Clone)]
pub struct Batcher {
    job_in_port: String,
    job_out_port: String,
    max_batch_size: usize,
    store_records: bool,
    phase: BatcherPhase,
    jobs: Vec<String>,
    records: Vec<ModelRecord>,
}

impl View for Batcher {
    type V = BatcherView;

    closed spec fn view(&self) -> BatcherView {
        BatcherView {
            job_in_port: self.job_in_port@,
            job_out_port: self.job_out_port@,
            max_batch_size: self.max_batch_size as nat,
            store_records: self.store_records,
            phase: self.phase,
            jobs: strings_view(self.jobs@),
            records: records_view(self.records@),
        }
    }
}

impl Batcher {
    pub fn new(job_in_port: String, job_out_port: String, max_batch_size: usize, store_records: bool) -> (m: Self)
        ensures
            m@ == batcher_init(job_in_port@, job_out_port@, max_batch_size as nat, store_records),
    {
        let m = Batcher {
            job_in_port,
            job_out_port,
            max_batch_size,
            store_records,
            phase: BatcherPhase::Passive,
            jobs: Vec::new(),
            records: Vec::new(),
        };
        assert(records_view(m.records@) =~= seq![]);
        assert(strings_view(m.jobs@) =~= seq![]);
        m
    }

    /// A batcher restored from a saved state: its phase, the jobs of the
    /// current batch and the records.
    pub fn restore(
        job_in_port: String,
        job_out_port: String,
        max_batch_size: usize,
        store_records: bool,
        phase: BatcherPhase,
        jobs: Vec<String>,
        records: Vec<ModelRecord>,
    ) -> (m: Self)
        ensures
            m@ == (BatcherView {
                job_in_port: job_in_port@,
                job_out_port: job_out_port@,
                max_batch_size: max_batch_size as nat,
                store_records,
                phase,
                jobs: strings_view(jobs@),
                records: records_view(records@),
            }),
    {
        Batcher { job_in_port, job_out_port, max_batch_size, store_records, phase, jobs, records }
    }

    /// The phase.
    pub fn phase(&self) -> (p: BatcherPhase)
        ensures
            p == self@.phase,
    {
        self.phase
    }

    /// The jobs of the current batch, in arrival order.
    pub fn jobs(&self) -> (j: &Vec<String>)
        ensures
            strings_view(j@) == self@.jobs,
    {
        &self.jobs
    }

    /// The external transition for an arriving job.
    pub fn events_ext(&mut self, msg: &ModelMessage) -> (r: Result<Timer, SimulationError>)
        ensures
            (final(self)@, r) == batcher_ext(old(self)@, msg@),
    {
        let ghost before = self.jobs@;
        let room = self.max_batch_size > 0 && self.jobs.len() < self.max_batch_size - 1;
        if room && self.phase == BatcherPhase::Release {
            return Err(SimulationError::InvalidModelState);
        }
        let timer = if !room {
            self.phase = BatcherPhase::Release;
            Timer::Immediate
        } else if self.phase == BatcherPhase::Passive {
            self.phase = BatcherPhase::Batching;
            Timer::Scheduled
        } else {
            Timer::Keep
        };
        self.jobs.push(msg.content.clone());
        record(&mut self.records, self.store_records, "Arrival", msg.content.clone());
        assert(strings_view(self.jobs@) =~= strings_view(before).push(msg.content@));
        Ok(timer)
    }

    /// The internal transition: the messages sent, and the timer.
    pub fn events_int(&mut self) -> (r: Result<(Vec<ModelMessage>, Timer), SimulationError>)
        ensures
            match batcher_int(old(self)@) {
                Ok((s, out, timer)) => r matches Ok(res) && final(self)@ == s && messages_view(
                    res.0@,
                ) == out && res.1 == timer,
                Err(e) => r == Err::<(Vec<ModelMessage>, Timer), SimulationError>(e)
                    && final(self)@ == old(self)@,
            },
    {
        let len = self.jobs.len();
        let fits = len <= self.max_batch_size;
        let two_batches = self.max_batch_size <= len / 2;
        if fits && two_batches {
            return Err(SimulationError::InvalidModelState);
        }
        let k = if fits {
            len
        } else {
            self.max_batch_size
        };
        let timer = if fits {
            self.phase = BatcherPhase::Passive;
            Timer::Passive
        } else if two_batches {
            self.phase = BatcherPhase::Release;
            Timer::Immediate
        } else {
            self.phase = BatcherPhase::Batching;
            Timer::Scheduled
        };
        let out = release_front(
            &mut self.jobs,
            &mut self.records,
            self.store_records,
            &self.job_out_port,
            k,
        );
        Ok((out, timer))
    }
}

impl Reportable for Batcher {
    /// "Passive", "Creating batch" or "Releasing batch", by phase.
    fn status(&self) -> (s: String)
        ensures
            s@ == match self@.phase {
                BatcherPhase::Passive => "Passive"@,
                BatcherPhase::Batching => "Creating batch"@,
                BatcherPhase::Release => "Releasing batch"@,
            },
    {
        match self.phase {
            BatcherPhase::Passive => text("Passive"),
            BatcherPhase::Batching => text("Creating batch"),
            BatcherPhase::Release => text("Releasing batch"),
        }
    }

    fn records(&self) -> (r: &Vec<ModelRecord>)
        ensures
            records_view(r@) == self@.records,
    {
        &self.records
    }
}

/// A batcher loses no job and never releases more than one batch at a
/// time: the jobs it sends, followed by those it keeps, are the jobs it
/// held, in order, and it sends at most `max_batch_size` of them.  Jobs in
/// excess of a batch spill over into the next batching period, which starts
/// at once; with no excess the batcher becomes passive.
pub proof fn lemma_batcher_conserves_jobs(s: BatcherView)
    requires
        batcher_int(s) is Ok,
    ensures
        ({
            let (s2, out, _) = batcher_int(s).unwrap();
            &&& out.len() <= s.max_batch_size
            &&& out.len() == s.jobs.len() || out.len() == s.max_batch_size
            &&& out.map_values(|m: (Seq<char>, Seq<char>)| m.1) + s2.jobs == s.jobs
            &&& forall|i: int| 0 <= i < out.len() ==> (#[trigger] out[i]).0 == s.job_out_port
            &&& s2.jobs.len() == 0 ==> s2.phase == BatcherPhase::Passive
            &&& s2.jobs.len() > 0 ==> s2.phase != BatcherPhase::Passive
        }),
{
    let k = batcher_release_count(s) as int;
    let (s2, out, _) = batcher_int(s).unwrap();
    assert(out.map_values(|m: (Seq<char>, Seq<char>)| m.1) =~= s.jobs.take(k));
    assert(s.jobs.take(k) + s.jobs.skip(k) =~= s.jobs);
}

} // verus!
