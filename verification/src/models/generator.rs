//! The generator produces numbered jobs, one each time its interdeparture
//! time elapses.
use vstd::prelude::*;

use super::{messages_view, record, recorded, records_view, text, ModelMessage, ModelRecord, Reportable, Timer};
use crate::errors::SimulationError;
use crate::utils::{decimal, lemma_decimal_injective, usize_to_string};

verus! {

/// The abstract state of a generator.
pub struct GeneratorView {
    pub job_port: Seq<char>,
    pub store_records: bool,
    pub generating: bool,
    pub last_job: nat,
    pub records: Seq<(Seq<char>, Seq<char>)>,
}

/// The content of the `n`-th job generated on `port`: "`port` `n`".
pub open spec fn job_name(port: Seq<char>, n: nat) -> Seq<char> {
    port + " "@ + decimal(n)
}

/// A new generator, initializing.
pub open spec fn generator_init(job_port: Seq<char>, store_records: bool) -> GeneratorView {
    GeneratorView { job_port, store_records, generating: false, last_job: 0, records: seq![] }
}

/// The first internal transition starts generation, after a drawn
/// interdeparture time; each later one schedules the next generation and,
/// unless thinning removes this one (`keep` false), sends the next numbered
/// job.
pub open spec fn generator_int(s: GeneratorView, keep: bool) -> (
    GeneratorView,
    Seq<(Seq<char>, Seq<char>)>,
    Timer,
) {
    if !s.generating {
        (
            GeneratorView {
                generating: true,
                records: recorded(s.records, s.store_records, seq![("Initialization"@, ""@)]),
                ..s
            },
            seq![],
            Timer::Scheduled,
        )
    } else if !keep {
        (s, seq![], Timer::Scheduled)
    } else {
        let n = s.last_job + 1;
        let job = job_name(s.job_port, n);
        (
            GeneratorView {
                last_job: n,
                records: recorded(s.records, s.store_records, seq![("Generation"@, job)]),
                ..s
            },
            seq![(s.job_port, job)],
            Timer::Scheduled,
        )
    }
}

/// The generator produces jobs based on a configured interarrival
/// distribution.  A normalized thinning function, evaluated by the caller,
/// decides whether each generation yields a job, which enables
/// non-stationary job generation.  This model will produce jobs through
/// perpetuity, and the generator does not receive messages.
#[derive(Debug, Clone)]
pub struct Generator {
    job_port: String,
    store_records: bool,
    generating: bool,
    last_job: usize,
    records: Vec<ModelRecord>,
}

impl View for Generator {
    type V = GeneratorView;

    closed spec fn view(&self) -> GeneratorView {
        GeneratorView {
            job_port: self.job_port@,
            store_records: self.store_records,
            generating: self.generating,
            last_job: self.last_job as nat,
            records: records_view(self.records@),
        }
    }
}

impl Generator {
    pub fn new(job_port: String, store_records: bool) -> (m: Self)
        ensures
            m@ == generator_init(job_port@, store_records),
    {
        let m = Generator { job_port, store_records, generating: false, last_job: 0, records: Vec::new() };
        assert(records_view(m.records@) =~= seq![]);
        m
    }

    /// A generator restored from a saved state: whether it is generating,
    /// the number of the last job and the records.
    pub fn restore(
        job_port: String,
        store_records: bool,
        generating: bool,
        last_job: usize,
        records: Vec<ModelRecord>,
    ) -> (m: Self)
        ensures
            m@ == (GeneratorView {
                job_port: job_port@,
                store_records,
                generating,
                last_job: last_job as nat,
                records: records_view(records@),
            }),
    {
        Generator { job_port, store_records, generating, last_job, records }
    }

    /// Whether the generator is generating.
    pub fn is_generating(&self) -> (b: bool)
        ensures
            b == self@.generating,
    {
        self.generating
    }

    /// The number of the last job.
    pub fn last_job(&self) -> (n: usize)
        ensures
            n == self@.last_job,
    {
        self.last_job
    }

    /// A generator ignores the messages it receives.
    pub fn events_ext(&mut self, msg: &ModelMessage) -> (r: Result<Timer, SimulationError>)
        ensures
            final(self)@ == old(self)@,
            r == Ok::<Timer, SimulationError>(Timer::Keep),
    {
        Ok(Timer::Keep)
    }

    /// The internal transition: the messages sent, and the timer.  `keep`
    /// says whether thinning keeps this generation (always, without
    /// thinning).  A job number that could not grow further is an invalid
    /// model state.
    pub fn events_int(&mut self, keep: bool) -> (r: Result<(Vec<ModelMessage>, Timer), SimulationError>)
        ensures
            r is Err <==> old(self)@.generating && keep && old(self)@.last_job == usize::MAX,
            r is Err ==> r == Err::<(Vec<ModelMessage>, Timer), SimulationError>(
                SimulationError::InvalidModelState,
            ) && final(self)@ == old(self)@,
            r matches Ok(out) ==> (final(self)@, messages_view(out.0@), out.1) == generator_int(
                old(self)@,
                keep,
            ),
    {
        let mut out: Vec<ModelMessage> = Vec::new();
        if !self.generating {
            self.generating = true;
            record(&mut self.records, self.store_records, "Initialization", text(""));
            assert(messages_view(out@) =~= seq![]);
            return Ok((out, Timer::Scheduled));
        }
        if !keep {
            assert(messages_view(out@) =~= seq![]);
            return Ok((out, Timer::Scheduled));
        }
        if self.last_job == usize::MAX {
            return Err(SimulationError::InvalidModelState);
        }
        self.last_job = self.last_job + 1;
        let job = self.job_port.clone().concat(" ").concat(usize_to_string(self.last_job).as_str());
        record(&mut self.records, self.store_records, "Generation", job.clone());
        out.push(ModelMessage::new(self.job_port.clone(), job));
        assert(messages_view(out@) =~= generator_int(old(self)@, keep).1);
        Ok((out, Timer::Scheduled))
    }
}

impl Reportable for Generator {
    /// "Generating <job port>s".
    fn status(&self) -> (s: String)
        ensures
            s@ == "Generating "@ + self@.job_port + "s"@,
    {
        text("Generating ").concat(self.job_port.as_str()).concat("s")
    }

    fn records(&self) -> (r: &Vec<ModelRecord>)
        ensures
            records_view(r@) == self@.records,
    {
        &self.records
    }
}

/// A generator numbers its jobs 1, 2, 3, ...: each job it sends carries the
/// number after the last one, and a generation removed by thinning sends
/// nothing and uses no number.
pub proof fn lemma_generator_numbers_jobs(s: GeneratorView)
    requires
        s.generating,
    ensures
        ({
            let (s1, out, _) = generator_int(s, true);
            &&& s1.last_job == s.last_job + 1
            &&& out == seq![(s.job_port, job_name(s.job_port, s1.last_job))]
        }),
        ({
            let (s1, out, _) = generator_int(s, false);
            &&& s1 == s
            &&& out.len() == 0
        }),
{
}

/// The messages of `k` successive internal transitions that thinning keeps.
pub open spec fn generator_sends(s: GeneratorView, k: nat) -> Seq<(Seq<char>, Seq<char>)>
    decreases k,
{
    if k == 0 {
        seq![]
    } else {
        let (s1, out, _) = generator_int(s, true);
        out + generator_sends(s1, (k - 1) as nat)
    }
}

/// Over successive generations, a generator sends its jobs numbered
/// consecutively from the one after its last job: the `t`-th job sent
/// (counting from 0) is "`port` `last + t + 1`", on its job port.
pub proof fn lemma_generator_sends_consecutive(s: GeneratorView, k: nat)
    requires
        s.generating,
    ensures
        generator_sends(s, k).len() == k,
        forall|t: int|
            0 <= t < k ==> #[trigger] generator_sends(s, k)[t] == (
                s.job_port,
                job_name(s.job_port, (s.last_job + t + 1) as nat),
            ),
    decreases k,
{
    if k > 0 {
        let (s1, out, _) = generator_int(s, true);
        lemma_generator_sends_consecutive(s1, (k - 1) as nat);
        let rest = generator_sends(s1, (k - 1) as nat);
        let all = generator_sends(s, k);
        assert(all == out + rest);
        assert forall|t: int| 0 <= t < k implies #[trigger] all[t] == (
            s.job_port,
            job_name(s.job_port, (s.last_job + t + 1) as nat),
        ) by {
            if t > 0 {
                assert(all[t] == rest[t - 1]);
                assert((s1.last_job + (t - 1) + 1) as nat == (s.last_job + t + 1) as nat);
            }
        }
    }
}

/// A new generator first initializes, sending nothing, and then sends
/// "`port` 1", "`port` 2", ...: over its first `k + 1` internal transitions
/// it sends exactly `k` jobs, the `t`-th (from 0) named "`port` `t + 1`".
pub proof fn lemma_new_generator_numbers_from_one(port: Seq<char>, store_records: bool, k: nat)
    ensures
        generator_sends(generator_init(port, store_records), k + 1).len() == k,
        forall|t: int|
            0 <= t < k ==> #[trigger] generator_sends(generator_init(port, store_records), k + 1)[t]
                == (port, job_name(port, (t + 1) as nat)),
{
    let s0 = generator_init(port, store_records);
    let (s1, out0, _) = generator_int(s0, true);
    assert(out0 =~= seq![]);
    lemma_generator_sends_consecutive(s1, k);
    assert(generator_sends(s0, k + 1) == out0 + generator_sends(s1, k));
}

/// No two jobs of a generator share a name: job names of different
/// numbers differ.
pub proof fn lemma_generator_job_names_unique(port: Seq<char>, n: nat, m: nat)
    requires
        job_name(port, n) == job_name(port, m),
    ensures
        n == m,
{
    let prefix = port + " "@;
    assert(job_name(port, n).skip(prefix.len() as int) =~= decimal(n));
    assert(job_name(port, m).skip(prefix.len() as int) =~= decimal(m));
    lemma_decimal_injective(n, m);
}

} // verus!
