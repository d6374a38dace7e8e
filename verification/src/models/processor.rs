//! The processor accepts jobs, processes them for a period of time, and then
//! outputs a processed job.
use vstd::prelude::*;

use super::{
    messages_view, record, recorded, records_view, strings_view, text, ModelMessage, ModelRecord,
    Reportable, Timer,
};
use crate::errors::SimulationError;

verus! {

/// The abstract state of a processor.
pub struct ProcessorView {
    pub job_port: Seq<char>,
    pub processed_port: Seq<char>,
    pub queue_capacity: nat,
    pub store_records: bool,
    pub active: bool,
    pub queue: Seq<Seq<char>>,
    pub records: Seq<(Seq<char>, Seq<char>)>,
}

impl ProcessorView {
    /// A job is in process only while the queue holds it.
    pub open spec fn serves_from_queue(self) -> bool {
        self.active ==> self.queue.len() > 0
    }

    /// The most jobs the processor holds: its queue capacity, except that
    /// even a queue of capacity zero holds the job in process.
    pub open spec fn holding_limit(self) -> nat {
        if self.queue_capacity == 0 {
            1
        } else {
            self.queue_capacity
        }
    }

    /// A job is in process only while the queue holds it, and the processor
    /// never holds more jobs than its limit.
    pub open spec fn wf(self) -> bool {
        &&& self.serves_from_queue()
        &&& self.queue.len() <= self.holding_limit()
    }
}

/// A new, passive processor with an empty queue.
pub open spec fn processor_init(
    job_port: Seq<char>,
    processed_port: Seq<char>,
    queue_capacity: nat,
    store_records: bool,
) -> ProcessorView {
    ProcessorView {
        job_port,
        processed_port,
        queue_capacity,
        store_records,
        active: false,
        queue: seq![],
        records: seq![],
    }
}

/// A job arriving at an idle processor starts processing (after a drawn
/// service time), whatever the queue capacity, zero included; one arriving
/// at a busy processor joins the queue, or is dropped when the queue holds
/// exactly its capacity (or, at capacity zero, the job in process).  Any
/// other port is an invalid message.
pub open spec fn processor_ext(s: ProcessorView, msg: (Seq<char>, Seq<char>)) -> (
    ProcessorView,
    Result<Timer, SimulationError>,
) {
    let job = msg.1;
    if msg.0 != s.job_port {
        (s, Err(SimulationError::InvalidMessage))
    } else if s.queue.len() > 0 && (s.queue.len() == s.queue_capacity || s.queue_capacity == 0) {
        (
            ProcessorView {
                records: recorded(s.records, s.store_records, seq![("Drop"@, job)]),
                ..s
            },
            Ok(Timer::Keep),
        )
    } else if s.queue.len() == 0 {
        (
            ProcessorView {
                active: true,
                queue: s.queue.push(job),
                records: recorded(
                    s.records,
                    s.store_records,
                    seq![("Arrival"@, job), ("Processing Start"@, job)],
                ),
                ..s
            },
            Ok(Timer::Scheduled),
        )
    } else {
        (
            ProcessorView {
                queue: s.queue.push(job),
                records: recorded(s.records, s.store_records, seq![("Arrival"@, job)]),
                ..s
            },
            Ok(Timer::Keep),
        )
    }
}

/// A processor that finished its service releases the head of the queue at
/// once; an idle processor with waiting jobs starts the next one; an idle,
/// empty processor is passive.
pub open spec fn processor_int(s: ProcessorView) -> (
    ProcessorView,
    Seq<(Seq<char>, Seq<char>)>,
    Timer,
) {
    if s.active {
        let job = s.queue[0];
        (
            ProcessorView {
                active: false,
                queue: s.queue.drop_first(),
                records: recorded(s.records, s.store_records, seq![("Departure"@, job)]),
                ..s
            },
            seq![(s.processed_port, job)],
            Timer::Immediate,
        )
    } else if s.queue.len() == 0 {
        (s, seq![], Timer::Passive)
    } else {
        (
            ProcessorView {
                active: true,
                records: recorded(s.records, s.store_records, seq![("Processing Start"@, s.queue[0])]),
                ..s
            },
            seq![],
            Timer::Scheduled,
        )
    }
}

/// The processor accepts jobs, processes them for a period of time, and then
/// outputs a processed job.  The processor has a configurable queue; jobs
/// are processed first-in, first-out, and a job arriving at a full queue is
/// dropped.
#[derive(Debug, Clone)]
pub struct Processor {
    job_port: String,
    processed_port: String,
    queue_capacity: usize,
    store_records: bool,
    active: bool,
    queue: Vec<String>,
    records: Vec<ModelRecord>,
}

impl View for Processor {
    type V = ProcessorView;

    closed spec fn view(&self) -> ProcessorView {
        ProcessorView {
            job_port: self.job_port@,
            processed_port: self.processed_port@,
            queue_capacity: self.queue_capacity as nat,
            store_records: self.store_records,
            active: self.active,
            queue: strings_view(self.queue@),
            records: records_view(self.records@),
        }
    }
}

impl Processor {
    /// A processor with the given queue capacity (unbounded, that is
    /// `usize::MAX`, when none is given).
    pub fn new(
        queue_capacity: Option<usize>,
        job_port: String,
        processed_job_port: String,
        store_records: bool,
    ) -> (m: Self)
        ensures
            m@ == processor_init(
                job_port@,
                processed_job_port@,
                match queue_capacity {
                    Some(c) => c as nat,
                    None => usize::MAX as nat,
                },
                store_records,
            ),
            m@.wf(),
    {
        let capacity = match queue_capacity {
            Some(c) => c,
            None => usize::MAX,
        };
        let m = Processor {
            job_port,
            processed_port: processed_job_port,
            queue_capacity: capacity,
            store_records,
            active: false,
            queue: Vec::new(),
            records: Vec::new(),
        };
        assert(records_view(m.records@) =~= seq![]);
        assert(strings_view(m.queue@) =~= seq![]);
        m
    }

    /// A processor restored from a saved state: whether the job at the head
    /// of its queue is in process, the queue, and the records.
    pub fn restore(
        queue_capacity: usize,
        job_port: String,
        processed_job_port: String,
        store_records: bool,
        active: bool,
        queue: Vec<String>,
        records: Vec<ModelRecord>,
    ) -> (m: Self)
        requires
            active ==> queue.len() > 0,
        ensures
            m@ == (ProcessorView {
                job_port: job_port@,
                processed_port: processed_job_port@,
                queue_capacity: queue_capacity as nat,
                store_records,
                active,
                queue: strings_view(queue@),
                records: records_view(records@),
            }),
            m@.serves_from_queue(),
    {
        Processor {
            job_port,
            processed_port: processed_job_port,
            queue_capacity,
            store_records,
            active,
            queue,
            records,
        }
    }

    /// Whether a job is in process.
    pub fn is_active(&self) -> (b: bool)
        ensures
            b == self@.active,
    {
        self.active
    }

    /// The queue, head first.
    pub fn queue(&self) -> (q: &Vec<String>)
        ensures
            strings_view(q@) == self@.queue,
    {
        &self.queue
    }

    /// The external transition for a message that arrived on `msg.port_name`.
    pub fn events_ext(&mut self, msg: &ModelMessage) -> (r: Result<Timer, SimulationError>)
        ensures
            (final(self)@, r) == processor_ext(old(self)@, msg@),
    {
        let ghost before = self.queue@;
        if msg.port_name != self.job_port {
            return Err(SimulationError::InvalidMessage);
        }
        if self.queue.len() > 0 && (self.queue.len() == self.queue_capacity || self.queue_capacity == 0) {
            record(&mut self.records, self.store_records, "Drop", msg.content.clone());
            return Ok(Timer::Keep);
        }
        if self.queue.len() == 0 {
            self.queue.push(msg.content.clone());
            self.active = true;
            record(&mut self.records, self.store_records, "Arrival", msg.content.clone());
            record(&mut self.records, self.store_records, "Processing Start", msg.content.clone());
            assert(strings_view(self.queue@) =~= strings_view(before).push(msg.content@));
            assert(recorded(
                recorded(
                    records_view(old(self).records@),
                    self.store_records,
                    seq![("Arrival"@, msg.content@)],
                ),
                self.store_records,
                seq![("Processing Start"@, msg.content@)],
            ) =~= recorded(
                records_view(old(self).records@),
                self.store_records,
                seq![("Arrival"@, msg.content@), ("Processing Start"@, msg.content@)],
            ));
            Ok(Timer::Scheduled)
        } else {
            self.queue.push(msg.content.clone());
            record(&mut self.records, self.store_records, "Arrival", msg.content.clone());
            assert(strings_view(self.queue@) =~= strings_view(before).push(msg.content@));
            Ok(Timer::Keep)
        }
    }

    /// The internal transition: the messages sent, and the timer.
    pub fn events_int(&mut self) -> (r: Result<(Vec<ModelMessage>, Timer), SimulationError>)
        requires
            old(self)@.serves_from_queue(),
        ensures
            r matches Ok(out) && (final(self)@, messages_view(out.0@), out.1) == processor_int(
                old(self)@,
            ),
    {
        let ghost before = self.queue@;
        if self.active {
            let job = self.queue.remove(0);
            self.active = false;
            record(&mut self.records, self.store_records, "Departure", job.clone());
            let mut out: Vec<ModelMessage> = Vec::new();
            out.push(ModelMessage::new(self.processed_port.clone(), job));
            assert(strings_view(self.queue@) =~= strings_view(before).drop_first());
            assert(messages_view(out@) =~= processor_int(old(self)@).1);
            Ok((out, Timer::Immediate))
        } else if self.queue.len() == 0 {
            let out: Vec<ModelMessage> = Vec::new();
            assert(messages_view(out@) =~= seq![]);
            Ok((out, Timer::Passive))
        } else {
            self.active = true;
            record(&mut self.records, self.store_records, "Processing Start", self.queue[0].clone());
            let out: Vec<ModelMessage> = Vec::new();
            assert(messages_view(out@) =~= seq![]);
            Ok((out, Timer::Scheduled))
        }
    }
}

impl Reportable for Processor {
    /// "Processing" while a job is in service, "Passive" otherwise.
    fn status(&self) -> (s: String)
        ensures
            s@ == if self@.active {
                "Processing"@
            } else {
                "Passive"@
            },
    {
        if self.active {
            text("Processing")
        } else {
            text("Passive")
        }
    }

    fn records(&self) -> (r: &Vec<ModelRecord>)
        ensures
            records_view(r@) == self@.records,
    {
        &self.records
    }
}

/// Every transition of a processor keeps its invariant: a job is in
/// process only while the queue holds it, and a processor within its
/// holding limit stays within it.
pub proof fn lemma_processor_keeps_capacity(s: ProcessorView, msg: (Seq<char>, Seq<char>))
    requires
        s.serves_from_queue(),
    ensures
        processor_ext(s, msg).0.serves_from_queue(),
        processor_int(s).0.serves_from_queue(),
        s.wf() ==> processor_ext(s, msg).0.wf(),
        s.wf() ==> processor_int(s).0.wf(),
{
}

/// A job arriving at an idle processor starts processing at once, even
/// with a queue of capacity zero.
pub proof fn lemma_processor_accepts_when_idle(s: ProcessorView, msg: (Seq<char>, Seq<char>))
    requires
        msg.0 == s.job_port,
        s.queue.len() == 0,
    ensures
        ({
            let (s1, r) = processor_ext(s, msg);
            &&& r == Ok::<Timer, SimulationError>(Timer::Scheduled)
            &&& s1.active
            &&& s1.queue == seq![msg.1]
        }),
{
}

/// A job arriving at a busy processor joins the back of the queue while
/// the queue holds fewer jobs than its capacity, and is dropped, leaving
/// the queue as it was, when the queue holds exactly its capacity.  Either
/// way the processor keeps its timer.
pub proof fn lemma_processor_queues_up_to_capacity(s: ProcessorView, msg: (Seq<char>, Seq<char>))
    requires
        msg.0 == s.job_port,
        s.queue.len() > 0,
    ensures
        s.queue.len() < s.queue_capacity ==> processor_ext(s, msg).0.queue == s.queue.push(msg.1),
        s.queue.len() == s.queue_capacity ==> processor_ext(s, msg).0.queue == s.queue,
        processor_ext(s, msg).0.active == s.active,
        processor_ext(s, msg).1 == Ok::<Timer, SimulationError>(Timer::Keep),
{
}

/// The messages of `n` successive internal transitions, with no arrivals.
pub open spec fn processor_run(s: ProcessorView, n: nat) -> Seq<(Seq<char>, Seq<char>)>
    decreases n,
{
    if n == 0 {
        seq![]
    } else {
        let (s1, out, _) = processor_int(s);
        out + processor_run(s1, (n - 1) as nat)
    }
}

/// Over a run of service completions, an idle processor releases its queue
/// in order: after `2 k` internal transitions (each start of service
/// followed by its completion), the jobs sent are the first `k` jobs of the
/// queue, in queue order, on the processed port.
pub proof fn lemma_processor_releases_queue_in_order(s: ProcessorView, k: nat)
    requires
        !s.active,
        k <= s.queue.len(),
    ensures
        processor_run(s, 2 * k) == s.queue.take(k as int).map_values(
            |j: Seq<char>| (s.processed_port, j),
        ),
    decreases k,
{
    if k == 0 {
        assert(s.queue.take(0).map_values(|j: Seq<char>| (s.processed_port, j)) =~= seq![]);
    } else {
        let (s1, out1, _) = processor_int(s);
        let (s2, out2, _) = processor_int(s1);
        lemma_processor_releases_queue_in_order(s2, (k - 1) as nat);
        assert(processor_run(s, 2 * k) == out1 + processor_run(s1, (2 * k - 1) as nat));
        assert(processor_run(s1, (2 * k - 1) as nat) == out2 + processor_run(
            s2,
            (2 * (k - 1)) as nat,
        ));
        assert(s.queue.take(k as int).map_values(|j: Seq<char>| (s.processed_port, j)) =~= seq![
            (s.processed_port, s.queue[0]),
        ] + s2.queue.take(k - 1).map_values(|j: Seq<char>| (s2.processed_port, j)));
    }
}

/// Between completions nothing leaves: when an idle processor has more
/// than `k` jobs queued, the `2 k + 1`-th internal transition (a start of
/// service) sends nothing, so the first `2 k + 1` transitions send the
/// first `k` jobs of the queue, in order.
pub proof fn lemma_processor_starts_send_nothing(s: ProcessorView, k: nat)
    requires
        !s.active,
        k < s.queue.len(),
    ensures
        processor_run(s, 2 * k + 1) == s.queue.take(k as int).map_values(
            |j: Seq<char>| (s.processed_port, j),
        ),
    decreases k,
{
    let (s1, out1, _) = processor_int(s);
    if k == 0 {
        assert(processor_run(s, 1) == out1 + processor_run(s1, 0));
        assert(s.queue.take(0).map_values(|j: Seq<char>| (s.processed_port, j)) =~= seq![]);
    } else {
        let (s2, out2, _) = processor_int(s1);
        lemma_processor_starts_send_nothing(s2, (k - 1) as nat);
        assert(processor_run(s, 2 * k + 1) == out1 + processor_run(s1, (2 * k) as nat));
        assert(processor_run(s1, (2 * k) as nat) == out2 + processor_run(
            s2,
            (2 * (k - 1) + 1) as nat,
        ));
        assert(s.queue.take(k as int).map_values(|j: Seq<char>| (s.processed_port, j)) =~= seq![
            (s.processed_port, s.queue[0]),
        ] + s2.queue.take(k - 1).map_values(|j: Seq<char>| (s2.processed_port, j)));
    }
}

/// Jobs leave a processor first-in, first-out: the job that departs is the
/// one at the head of the queue, and the jobs behind it keep their order.
pub proof fn lemma_processor_fifo(s: ProcessorView)
    requires
        s.serves_from_queue(),
        s.active,
    ensures
        processor_int(s).1 == seq![(s.processed_port, s.queue[0])],
        processor_int(s).0.queue == s.queue.subrange(1, s.queue.len() as int),
{
}

} // verus!
