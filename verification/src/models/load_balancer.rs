//! The load balancer routes jobs to a set of possible process paths, using a
//! round robin strategy.
use vstd::prelude::*;

use super::{
    join_on, messages_view, on_port, record, recorded, records_view, strings_view, text,
    ModelMessage, ModelRecord, Reportable, Timer,
};
use crate::errors::SimulationError;

verus! {

/// The abstract state of a load balancer.
pub struct LoadBalancerView {
    pub job_port: Seq<char>,
    pub flow_paths: Seq<Seq<char>>,
    pub store_records: bool,
    pub balancing: bool,
    pub next_port_out: nat,
    pub jobs: Seq<Seq<char>>,
    pub records: Seq<(Seq<char>, Seq<char>)>,
}

impl LoadBalancerView {
    /// The port index is a valid index of the flow paths, or the initial 0.
    pub open spec fn wf(self) -> bool {
        self.next_port_out == 0 || self.next_port_out < self.flow_paths.len()
    }
}

/// A new, passive load balancer, whose port index starts at 0.
pub open spec fn load_balancer_init(
    job_port: Seq<char>,
    flow_paths: Seq<Seq<char>>,
    store_records: bool,
) -> LoadBalancerView {
    LoadBalancerView {
        job_port,
        flow_paths,
        store_records,
        balancing: false,
        next_port_out: 0,
        jobs: seq![],
        records: seq![],
    }
}

/// Every arriving message is a job to route, at once.
pub open spec fn load_balancer_ext(s: LoadBalancerView, msg: (Seq<char>, Seq<char>)) -> (
    LoadBalancerView,
    Result<Timer, SimulationError>,
) {
    (
        LoadBalancerView {
            balancing: true,
            jobs: s.jobs.push(msg.1),
            records: recorded(s.records, s.store_records, seq![("Arrival"@, msg.1)]),
            ..s
        },
        Ok(Timer::Immediate),
    )
}

/// With jobs waiting, the first one is sent on the next flow path in turn
/// (the port index advances first, modulo the number of flow paths); with
/// none, the load balancer is passive.
pub open spec fn load_balancer_int(s: LoadBalancerView) -> (
    LoadBalancerView,
    Seq<(Seq<char>, Seq<char>)>,
    Timer,
) {
    if s.jobs.len() == 0 {
        (LoadBalancerView { balancing: false, ..s }, seq![], Timer::Passive)
    } else {
        let next = ((s.next_port_out + 1) % s.flow_paths.len()) as nat;
        let port = s.flow_paths[next as int];
        (
            LoadBalancerView {
                next_port_out: next,
                jobs: s.jobs.drop_first(),
                records: recorded(
                    s.records,
                    s.store_records,
                    seq![("Departure"@, on_port(s.jobs[0], port))],
                ),
                ..s
            },
            seq![(port, s.jobs[0])],
            Timer::Immediate,
        )
    }
}

/// The load balancer routes jobs to a set of possible process paths, using a
/// round robin strategy. There is no stochastic behavior in this model.
#[derive(Debug, Clone)]
pub struct LoadBalancer {
    job_port: String,
    flow_paths: Vec<String>,
    store_records: bool,
    balancing: bool,
    next_port_out: usize,
    jobs: Vec<String>,
    records: Vec<ModelRecord>,
}

impl View for LoadBalancer {
    type V = LoadBalancerView;

    closed spec fn view(&self) -> LoadBalancerView {
        LoadBalancerView {
            job_port: self.job_port@,
            flow_paths: strings_view(self.flow_paths@),
            store_records: self.store_records,
            balancing: self.balancing,
            next_port_out: self.next_port_out as nat,
            jobs: strings_view(self.jobs@),
            records: records_view(self.records@),
        }
    }
}

impl LoadBalancer {
    pub fn new(job_port: String, flow_path_ports: Vec<String>, store_records: bool) -> (m: Self)
        ensures
            m@ == load_balancer_init(job_port@, strings_view(flow_path_ports@), store_records),
            m@.wf(),
    {
        let m = LoadBalancer {
            job_port,
            flow_paths: flow_path_ports,
            store_records,
            balancing: false,
            next_port_out: 0,
            jobs: Vec::new(),
            records: Vec::new(),
        };
        assert(records_view(m.records@) =~= seq![]);
        assert(strings_view(m.jobs@) =~= seq![]);
        m
    }

    /// A load balancer restored from a saved state: whether it is
    /// balancing, the index of the flow path used last, the jobs waiting
    /// and the records.  Advancing the index must not overflow.
    pub fn restore(
        job_port: String,
        flow_path_ports: Vec<String>,
        store_records: bool,
        balancing: bool,
        next_port_out: usize,
        jobs: Vec<String>,
        records: Vec<ModelRecord>,
    ) -> (m: Self)
        requires
            next_port_out < usize::MAX,
        ensures
            m@ == (LoadBalancerView {
                job_port: job_port@,
                flow_paths: strings_view(flow_path_ports@),
                store_records,
                balancing,
                next_port_out: next_port_out as nat,
                jobs: strings_view(jobs@),
                records: records_view(records@),
            }),
    {
        LoadBalancer {
            job_port,
            flow_paths: flow_path_ports,
            store_records,
            balancing,
            next_port_out,
            jobs,
            records,
        }
    }

    /// Whether the load balancer is routing jobs.
    pub fn is_balancing(&self) -> (b: bool)
        ensures
            b == self@.balancing,
    {
        self.balancing
    }

    /// The index of the flow path used last.
    pub fn next_port_out(&self) -> (n: usize)
        ensures
            n == self@.next_port_out,
    {
        self.next_port_out
    }

    /// The jobs waiting, in arrival order.
    pub fn jobs(&self) -> (j: &Vec<String>)
        ensures
            strings_view(j@) == self@.jobs,
    {
        &self.jobs
    }

    /// The number of jobs waiting to be routed.
    pub fn job_count(&self) -> (n: usize)
        ensures
            n == self@.jobs.len(),
    {
        assert(strings_view(self.jobs@).len() == self.jobs@.len());
        self.jobs.len()
    }

    /// The number of flow paths.
    pub fn flow_path_count(&self) -> (n: usize)
        ensures
            n == self@.flow_paths.len(),
    {
        assert(strings_view(self.flow_paths@).len() == self.flow_paths@.len());
        self.flow_paths.len()
    }

    /// The external transition for an arriving job.
    pub fn events_ext(&mut self, msg: &ModelMessage) -> (r: Result<Timer, SimulationError>)
        ensures
            (final(self)@, r) == load_balancer_ext(old(self)@, msg@),
    {
        let ghost before = self.jobs@;
        self.balancing = true;
        self.jobs.push(msg.content.clone());
        record(&mut self.records, self.store_records, "Arrival", msg.content.clone());
        assert(strings_view(self.jobs@) =~= strings_view(before).push(msg.content@));
        Ok(Timer::Immediate)
    }

    /// The internal transition: the messages sent, and the timer.  Sending a
    /// job needs at least one flow path.
    pub fn events_int(&mut self) -> (r: Result<(Vec<ModelMessage>, Timer), SimulationError>)
        requires
            old(self)@.next_port_out < usize::MAX,
            old(self)@.jobs.len() > 0 ==> old(self)@.flow_paths.len() > 0,
        ensures
            r matches Ok(out) && (final(self)@, messages_view(out.0@), out.1)
                == load_balancer_int(old(self)@),
            final(self)@.next_port_out < usize::MAX,
            old(self)@.wf() ==> final(self)@.wf(),
    {
        let ghost before = self.jobs@;
        assert(strings_view(self.jobs@).len() == self.jobs@.len());
        assert(strings_view(self.flow_paths@).len() == self.flow_paths@.len());
        if self.jobs.len() == 0 {
            self.balancing = false;
            let out: Vec<ModelMessage> = Vec::new();
            assert(messages_view(out@) =~= seq![]);
            return Ok((out, Timer::Passive));
        }
        self.next_port_out = (self.next_port_out + 1) % self.flow_paths.len();
        let port = self.flow_paths[self.next_port_out].clone();
        assert(port@ == strings_view(self.flow_paths@)[self.next_port_out as int]);
        assert(strings_view(before)[0] == before[0]@);
        let subject = join_on(&self.jobs[0], &port);
        record(&mut self.records, self.store_records, "Departure", subject);
        let job = self.jobs.remove(0);
        assert(strings_view(self.jobs@) =~= strings_view(before).drop_first());
        let mut out: Vec<ModelMessage> = Vec::new();
        out.push(ModelMessage::new(port, job));
        assert(messages_view(out@) =~= load_balancer_int(old(self)@).1);
        Ok((out, Timer::Immediate))
    }
}

impl Reportable for LoadBalancer {
    /// "Listening for <job port>s".
    fn status(&self) -> (s: String)
        ensures
            s@ == "Listening for "@ + self@.job_port + "s"@,
    {
        text("Listening for ").concat(self.job_port.as_str()).concat("s")
    }

    fn records(&self) -> (r: &Vec<ModelRecord>)
        ensures
            records_view(r@) == self@.records,
    {
        &self.records
    }
}

/// Round robin: each job sent goes to the flow path after the one used
/// before (wrapping around), and the load balancer remembers that path, so
/// `n` successive jobs from one path visit every path once.
pub proof fn lemma_load_balancer_round_robin(s: LoadBalancerView)
    requires
        s.wf(),
        s.jobs.len() > 0,
        s.flow_paths.len() > 0,
    ensures
        ({
            let (s1, out, _) = load_balancer_int(s);
            let next: int = (s.next_port_out as int + 1) % (s.flow_paths.len() as int);
            &&& s1.next_port_out == next
            &&& out == seq![(s.flow_paths[next], s.jobs[0])]
            &&& s1.wf()
        }),
{
}

/// A load balancer with jobs waiting sends exactly one of them, the
/// oldest, and stays due at once for the next; with none it is passive.
pub proof fn lemma_load_balancer_keeps_sending(s: LoadBalancerView)
    ensures
        s.jobs.len() > 0 ==> load_balancer_int(s).2 == Timer::Immediate,
        s.jobs.len() > 0 ==> load_balancer_int(s).1.len() == 1 && load_balancer_int(s).1[0].1
            == s.jobs[0] && load_balancer_int(s).0.jobs == s.jobs.subrange(1, s.jobs.len() as int),
        s.jobs.len() == 0 ==> load_balancer_int(s).2 == Timer::Passive && load_balancer_int(
            s,
        ).1.len() == 0,
{
}

/// The messages of `k` successive internal transitions.
pub open spec fn load_balancer_sends(s: LoadBalancerView, k: nat) -> Seq<(Seq<char>, Seq<char>)>
    decreases k,
{
    if k == 0 {
        seq![]
    } else {
        let (s1, out, _) = load_balancer_int(s);
        out + load_balancer_sends(s1, (k - 1) as nat)
    }
}

/// Over successive jobs, a load balancer cycles through its flow paths in
/// order: the `t`-th job sent (counting from 0) goes to the path `t + 1`
/// places after the last one used, wrapping around, and jobs leave in the
/// order they arrived.
pub proof fn lemma_load_balancer_cycles(s: LoadBalancerView, k: nat)
    requires
        s.wf(),
        s.flow_paths.len() > 0,
        s.jobs.len() >= k,
    ensures
        load_balancer_sends(s, k).len() == k,
        forall|t: int|
            0 <= t < k ==> #[trigger] load_balancer_sends(s, k)[t] == (
                s.flow_paths[(s.next_port_out as int + t + 1) % (s.flow_paths.len() as int)],
                s.jobs[t],
            ),
    decreases k,
{
    if k > 0 {
        let n = s.flow_paths.len() as int;
        let (s1, out, _) = load_balancer_int(s);
        lemma_load_balancer_cycles(s1, (k - 1) as nat);
        let rest = load_balancer_sends(s1, (k - 1) as nat);
        let all = load_balancer_sends(s, k);
        assert(all == out + rest);
        assert forall|t: int| 0 <= t < k implies #[trigger] all[t] == (
            s.flow_paths[(s.next_port_out as int + t + 1) % n],
            s.jobs[t],
        ) by {
            if t > 0 {
                assert(all[t] == rest[t - 1]);
                assert(s1.next_port_out == (s.next_port_out as int + 1) % n);
                vstd::arithmetic::div_mod::lemma_add_mod_noop_right(t, s.next_port_out as int + 1, n);
                assert((s1.next_port_out as int + (t - 1) + 1) % n == (s.next_port_out as int + t + 1) % n);
                assert(s1.jobs[t - 1] == s.jobs[t]);
            }
        }
    }
}

} // verus!
