//! The stopwatch matches job messages on its start and stop ports, so that
//! durations can be measured; it reports the job of minimum or maximum
//! duration on request.
use vstd::prelude::*;

use super::{
    messages_view, record, recorded, records_view, strings_view, text, ModelMessage, ModelRecord,
    Timer,
};
use crate::errors::SimulationError;

verus! {

/// Which extreme duration the stopwatch reports.
#[derive(Debug, Clone, Copy, PartialEq, Eq, Structural)]
pub enum Metric {
    Minimum,
    Maximum,
}

impl Default for Metric {
    fn default() -> (m: Self)
        ensures
            m == Metric::Minimum,
    {
        Metric::Minimum
    }
}

/// What an arriving message was: a start or a stop of the job with the
/// given index in the stopwatch's job list, or a metric request.
#[derive(Debug, Clone, Copy, PartialEq, Eq)]
pub enum StopwatchArrival {
    Start(usize),
    Stop(usize),
    Metric,
}

/// The abstract state of a stopwatch: the names of the jobs seen, in order
/// of first appearance.
pub struct StopwatchView {
    pub start_port: Seq<char>,
    pub stop_port: Seq<char>,
    pub metric_port: Seq<char>,
    pub job_port: Seq<char>,
    pub metric: Metric,
    pub store_records: bool,
    pub fetching: bool,
    pub jobs: Seq<Seq<char>>,
    pub records: Seq<(Seq<char>, Seq<char>)>,
}

/// No job name appears twice.
pub open spec fn names_unique(jobs: Seq<Seq<char>>) -> bool {
    forall|i: int, j: int| 0 <= i < j < jobs.len() ==> #[trigger] jobs[i] != #[trigger] jobs[j]
}

/// The job list after `name` is seen: unchanged when it holds the name,
/// else with the name appended.
pub open spec fn with_job(jobs: Seq<Seq<char>>, name: Seq<char>) -> Seq<Seq<char>> {
    if jobs.contains(name) {
        jobs
    } else {
        jobs.push(name)
    }
}

/// Whether no name appears twice in `names`.
pub fn distinct_names(names: &Vec<String>) -> (b: bool)
    ensures
        b == names_unique(strings_view(names@)),
{
    let ghost v = strings_view(names@);
    let mut j: usize = 0;
    while j < names.len()
        invariant
            j <= names@.len(),
            v == strings_view(names@),
            v.len() == names@.len(),
            forall|a: int, b: int| 0 <= a < b < j ==> #[trigger] v[a] != #[trigger] v[b],
        decreases names@.len() - j,
    {
        let mut i: usize = 0;
        while i < j
            invariant
                i <= j < names@.len(),
                v == strings_view(names@),
                v.len() == names@.len(),
                forall|a: int| 0 <= a < i ==> #[trigger] v[a] != v[j as int],
            decreases j - i,
        {
            if names[i] == names[j] {
                assert(v[i as int] == v[j as int]);
                return false;
            }
            i = i + 1;
        }
        j = j + 1;
    }
    true
}

/// A new, passive stopwatch with no jobs.
pub open spec fn stopwatch_init(
    start_port: Seq<char>,
    stop_port: Seq<char>,
    metric_port: Seq<char>,
    job_port: Seq<char>,
    metric: Metric,
    store_records: bool,
) -> StopwatchView {
    StopwatchView {
        start_port,
        stop_port,
        metric_port,
        job_port,
        metric,
        store_records,
        fetching: false,
        jobs: seq![],
        records: seq![],
    }
}

/// A start or stop message is recorded and matched with the job of that
/// name (new jobs are added); a message on the metric port requests the
/// extreme job at once; any other port is an invalid message.  The ports
/// are matched in the order start, stop, metric.
pub open spec fn stopwatch_ext(s: StopwatchView, msg: (Seq<char>, Seq<char>)) -> (
    StopwatchView,
    Result<Timer, SimulationError>,
) {
    let (port, name) = msg;
    if port == s.start_port || port == s.stop_port {
        let action = if port == s.start_port {
            "Start"@
        } else {
            "Stop"@
        };
        (
            StopwatchView {
                jobs: with_job(s.jobs, name),
                records: recorded(s.records, s.store_records, seq![(action, name)]),
                ..s
            },
            Ok(Timer::Keep),
        )
    } else if port == s.metric_port {
        (StopwatchView { fetching: true, ..s }, Ok(Timer::Immediate))
    } else {
        (s, Err(SimulationError::InvalidMessage))
    }
}

/// A pending request sends the selected job (the one of extreme duration,
/// if any job has both a start and a stop) on the job port and records the
/// fetch; the stopwatch is then passive.
pub open spec fn stopwatch_int(s: StopwatchView, selected: Option<Seq<char>>) -> (
    StopwatchView,
    Seq<(Seq<char>, Seq<char>)>,
    Timer,
) {
    if !s.fetching {
        (s, seq![], Timer::Passive)
    } else {
        let action = match s.metric {
            Metric::Minimum => "Minimum Fetch"@,
            Metric::Maximum => "Maximum Fetch"@,
        };
        let subject = match selected {
            Some(j) => j,
            None => "None"@,
        };
        let out = match selected {
            Some(j) => seq![(s.job_port, j)],
            None => seq![],
        };
        (
            StopwatchView {
                fetching: false,
                records: recorded(s.records, s.store_records, seq![(action, subject)]),
                ..s
            },
            out,
            Timer::Passive,
        )
    }
}

/// The stopwatch calculates durations by matching messages on the start and
/// stop ports.  For example, a "job 1" message arrives at the start port at
/// time 0.1, and then a "job 1" message arrives at the stop port at time
/// 1.3.  The duration for job 1 will be saved as 1.2.  The maximum or
/// minimum duration job is also accessible through the metric and job
/// ports.
#[derive(Debug, Clone)]
pub struct Stopwatch {
    start_port: String,
    stop_port: String,
    metric_port: String,
    job_port: String,
    metric: Metric,
    store_records: bool,
    fetching: bool,
    jobs: Vec<String>,
    records: Vec<ModelRecord>,
}

impl View for Stopwatch {
    type V = StopwatchView;

    closed spec fn view(&self) -> StopwatchView {
        StopwatchView {
            start_port: self.start_port@,
            stop_port: self.stop_port@,
            metric_port: self.metric_port@,
            job_port: self.job_port@,
            metric: self.metric,
            store_records: self.store_records,
            fetching: self.fetching,
            jobs: strings_view(self.jobs@),
            records: records_view(self.records@),
        }
    }
}

impl Stopwatch {
    pub fn new(
        start_port: String,
        stop_port: String,
        metric_port: String,
        job_port: String,
        metric: Metric,
        store_records: bool,
    ) -> (m: Self)
        ensures
            m@ == stopwatch_init(
                start_port@,
                stop_port@,
                metric_port@,
                job_port@,
                metric,
                store_records,
            ),
            names_unique(m@.jobs),
    {
        let m = Stopwatch {
            start_port,
            stop_port,
            metric_port,
            job_port,
            metric,
            store_records,
            fetching: false,
            jobs: Vec::new(),
            records: Vec::new(),
        };
        assert(records_view(m.records@) =~= seq![]);
        assert(strings_view(m.jobs@) =~= seq![]);
        m
    }

    /// A stopwatch restored from a saved state: whether a request is
    /// pending, the names of the jobs seen (none twice) and the records.
    pub fn restore(
        start_port: String,
        stop_port: String,
        metric_port: String,
        job_port: String,
        metric: Metric,
        store_records: bool,
        fetching: bool,
        jobs: Vec<String>,
        records: Vec<ModelRecord>,
    ) -> (m: Self)
        requires
            names_unique(strings_view(jobs@)),
        ensures
            m@ == (StopwatchView {
                start_port: start_port@,
                stop_port: stop_port@,
                metric_port: metric_port@,
                job_port: job_port@,
                metric,
                store_records,
                fetching,
                jobs: strings_view(jobs@),
                records: records_view(records@),
            }),
            names_unique(m@.jobs),
    {
        Stopwatch {
            start_port,
            stop_port,
            metric_port,
            job_port,
            metric,
            store_records,
            fetching,
            jobs,
            records,
        }
    }

    /// Whether a request is pending.
    pub fn is_fetching(&self) -> (b: bool)
        ensures
            b == self@.fetching,
    {
        self.fetching
    }

    /// The index of the job named `name`, added at the end when it is new.
    fn matching_or_new_job(&mut self, name: &String) -> (index: usize)
        requires
            names_unique(old(self)@.jobs),
        ensures
            final(self)@ == (StopwatchView { jobs: with_job(old(self)@.jobs, name@), ..old(self)@ }),
            names_unique(final(self)@.jobs),
            index < final(self)@.jobs.len(),
            final(self)@.jobs[index as int] == name@,
    {
        let ghost jobs0 = strings_view(self.jobs@);
        assert(jobs0.len() == self.jobs@.len());
        let mut i: usize = 0;
        while i < self.jobs.len()
            invariant
                i <= self.jobs@.len(),
                jobs0 == strings_view(self.jobs@),
                jobs0.len() == self.jobs@.len(),
                names_unique(jobs0),
                *self == *old(self),
                forall|j: int| 0 <= j < i ==> jobs0[j] != name@,
            decreases self.jobs@.len() - i,
        {
            if self.jobs[i] == *name {
                assert(jobs0[i as int] == name@);
                assert(jobs0.contains(name@));
                return i;
            }
            i = i + 1;
        }
        assert(!jobs0.contains(name@)) by {
            if jobs0.contains(name@) {
                let j = choose|j: int| 0 <= j < jobs0.len() && jobs0[j] == name@;
                assert(jobs0[j] != name@);
            }
        }
        let n = self.jobs.len();
        self.jobs.push(name.clone());
        assert(strings_view(self.jobs@) =~= jobs0.push(name@));
        n
    }

    /// The external transition for a message that arrived on
    /// `msg.port_name`, and what it was.
    pub fn events_ext(&mut self, msg: &ModelMessage) -> (r: Result<
        (Timer, StopwatchArrival),
        SimulationError,
    >)
        requires
            names_unique(old(self)@.jobs),
        ensures
            names_unique(final(self)@.jobs),
            (final(self)@, match r {
                Ok(res) => Ok(res.0),
                Err(e) => Err(e),
            }) == stopwatch_ext(old(self)@, msg@),
            r matches Ok(res) ==> match res.1 {
                StopwatchArrival::Start(i) => msg@.0 == old(self)@.start_port && i
                    < final(self)@.jobs.len() && final(self)@.jobs[i as int] == msg@.1,
                StopwatchArrival::Stop(i) => msg@.0 != old(self)@.start_port && msg@.0 == old(
                    self,
                )@.stop_port && i < final(self)@.jobs.len() && final(self)@.jobs[i as int]
                    == msg@.1,
                StopwatchArrival::Metric => msg@.0 != old(self)@.start_port && msg@.0 != old(
                    self,
                )@.stop_port && msg@.0 == old(self)@.metric_port,
            },
    {
        if msg.port_name == self.start_port {
            record(&mut self.records, self.store_records, "Start", msg.content.clone());
            let i = self.matching_or_new_job(&msg.content);
            Ok((Timer::Keep, StopwatchArrival::Start(i)))
        } else if msg.port_name == self.stop_port {
            record(&mut self.records, self.store_records, "Stop", msg.content.clone());
            let i = self.matching_or_new_job(&msg.content);
            Ok((Timer::Keep, StopwatchArrival::Stop(i)))
        } else if msg.port_name == self.metric_port {
            self.fetching = true;
            Ok((Timer::Immediate, StopwatchArrival::Metric))
        } else {
            Err(SimulationError::InvalidMessage)
        }
    }

    /// The internal transition, given the job of extreme duration under the
    /// stopwatch's metric (`None` when no job has both a start and a stop).
    pub fn events_int(&mut self, selected: Option<String>) -> (r: Result<
        (Vec<ModelMessage>, Timer),
        SimulationError,
    >)
        ensures
            r matches Ok(out) && (final(self)@, messages_view(out.0@), out.1) == stopwatch_int(
                old(self)@,
                match selected {
                    Some(j) => Some(j@),
                    None => None,
                },
            ),
    {
        let mut out: Vec<ModelMessage> = Vec::new();
        if !self.fetching {
            assert(messages_view(out@) =~= seq![]);
            return Ok((out, Timer::Passive));
        }
        self.fetching = false;
        let subject = match &selected {
            Some(j) => j.clone(),
            None => text("None"),
        };
        match self.metric {
            Metric::Minimum => record(&mut self.records, self.store_records, "Minimum Fetch", subject),
            Metric::Maximum => record(&mut self.records, self.store_records, "Maximum Fetch", subject),
        }
        match selected {
            Some(j) => {
                out.push(ModelMessage::new(self.job_port.clone(), j));
            },
            None => {},
        }
        assert(messages_view(out@) =~= stopwatch_int(
            old(self)@,
            match selected {
                Some(j) => Some(j@),
                None => None,
            },
        ).1);
        Ok((out, Timer::Passive))
    }

    /// The metric the stopwatch reports.
    pub fn metric(&self) -> (m: Metric)
        ensures
            m == self@.metric,
    {
        self.metric
    }

    /// The records the stopwatch kept.
    pub fn records(&self) -> (r: &Vec<ModelRecord>)
        ensures
            records_view(r@) == self@.records,
    {
        &self.records
    }

    /// The names of the jobs seen, in order of first appearance.
    pub fn job_names(&self) -> (jobs: &Vec<String>)
        ensures
            strings_view(jobs@) == self@.jobs,
    {
        &self.jobs
    }
}

/// Start and stop messages for one job always land on one entry: the job
/// list never holds a name twice, keeps the jobs it had in their places,
/// and a name already seen keeps its index.
pub proof fn lemma_stopwatch_matches_jobs(s: StopwatchView, msg: (Seq<char>, Seq<char>))
    requires
        names_unique(s.jobs),
    ensures
        ({
            let s1 = stopwatch_ext(s, msg).0;
            &&& names_unique(s1.jobs)
            &&& s1.jobs.len() >= s.jobs.len()
            &&& forall|i: int| 0 <= i < s.jobs.len() ==> #[trigger] s1.jobs[i] == s.jobs[i]
        }),
{
    let s1 = stopwatch_ext(s, msg).0;
    if !s.jobs.contains(msg.1) && (msg.0 == s.start_port || msg.0 == s.stop_port) {
        assert forall|i: int, j: int| 0 <= i < j < s1.jobs.len() implies #[trigger] s1.jobs[i]
            != #[trigger] s1.jobs[j] by {
            if j == s.jobs.len() {
                assert(s1.jobs[i] == s.jobs[i]);
            }
        }
    }
}

} // verus!
