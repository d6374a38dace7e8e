//! The parallel gateway splits a job across multiple processing paths, and
//! joins the split paths again.
use vstd::prelude::*;

use super::{
    join_on, messages_view, on_port, record, recorded, records_view, strings_view, text,
    ModelMessage, ModelRecord, Reportable, Timer,
};
use crate::errors::SimulationError;

verus! {

/// The index of the entry for `key`, or -1 when there is none.
pub open spec fn key_index(c: Seq<(Seq<char>, nat)>, key: Seq<char>) -> int
    decreases c.len(),
{
    if c.len() == 0 {
        -1
    } else if c.last().0 == key {
        c.len() - 1
    } else {
        key_index(c.drop_last(), key)
    }
}

/// The index of the first entry whose count is `n`, or -1 when there is
/// none.
pub open spec fn first_full(c: Seq<(Seq<char>, nat)>, n: nat) -> int
    decreases c.len(),
{
    if c.len() == 0 {
        -1
    } else {
        let r = first_full(c.drop_last(), n);
        if r >= 0 {
            r
        } else if c.last().1 == n {
            c.len() - 1
        } else {
            -1
        }
    }
}

/// No job has two collections.
pub open spec fn keys_unique(c: Seq<(Seq<char>, nat)>) -> bool {
    forall|i: int, j: int| 0 <= i < j < c.len() ==> #[trigger] c[i].0 != #[trigger] c[j].0
}

/// The collections after one more arrival of `key`: its count goes up by
/// one, or a new collection with count one is added at the end.
pub open spec fn collect(c: Seq<(Seq<char>, nat)>, key: Seq<char>) -> Seq<(Seq<char>, nat)> {
    let i = key_index(c, key);
    if i >= 0 {
        c.update(i, (key, c[i].1 + 1))
    } else {
        c.push((key, 1))
    }
}

/// The abstract state of a parallel gateway: for each job, how many of its
/// copies have arrived.
pub struct ParallelGatewayView {
    pub flow_paths_in: Seq<Seq<char>>,
    pub flow_paths_out: Seq<Seq<char>>,
    pub store_records: bool,
    pub collections: Seq<(Seq<char>, nat)>,
    pub records: Seq<(Seq<char>, Seq<char>)>,
}

/// A new parallel gateway with no collections.
pub open spec fn parallel_gateway_init(
    flow_paths_in: Seq<Seq<char>>,
    flow_paths_out: Seq<Seq<char>>,
    store_records: bool,
) -> ParallelGatewayView {
    ParallelGatewayView {
        flow_paths_in,
        flow_paths_out,
        store_records,
        collections: seq![],
        records: seq![],
    }
}

/// A job arriving on one of the in flow paths adds to its collection, and
/// the gateway looks for a full collection at once; a job on any other port
/// is an invalid message.
pub open spec fn parallel_gateway_ext(s: ParallelGatewayView, msg: (Seq<char>, Seq<char>)) -> (
    ParallelGatewayView,
    Result<Timer, SimulationError>,
) {
    if s.flow_paths_in.contains(msg.0) {
        (
            ParallelGatewayView {
                collections: collect(s.collections, msg.1),
                records: recorded(
                    s.records,
                    s.store_records,
                    seq![("Arrival"@, on_port(msg.1, msg.0))],
                ),
                ..s
            },
            Ok(Timer::Immediate),
        )
    } else {
        (s, Err(SimulationError::InvalidMessage))
    }
}

/// The records of the departure of `job` on each of `paths`.
pub open spec fn departures_of(job: Seq<char>, paths: Seq<Seq<char>>) -> Seq<
    (Seq<char>, Seq<char>),
> {
    paths.map_values(|p: Seq<char>| ("Departure"@, on_port(job, p)))
}

/// A job that has arrived on as many paths as there are in flow paths (the
/// first such job) is sent once on every out flow path and its collection
/// removed, and the gateway looks again at once; with no full collection,
/// the gateway is passive.
pub open spec fn parallel_gateway_int(s: ParallelGatewayView) -> (
    ParallelGatewayView,
    Seq<(Seq<char>, Seq<char>)>,
    Timer,
) {
    let i = first_full(s.collections, s.flow_paths_in.len());
    if i < 0 {
        (s, seq![], Timer::Passive)
    } else {
        let job = s.collections[i].0;
        (
            ParallelGatewayView {
                collections: s.collections.remove(i),
                records: recorded(s.records, s.store_records, departures_of(job, s.flow_paths_out)),
                ..s
            },
            s.flow_paths_out.map_values(|p: Seq<char>| (p, job)),
            Timer::Immediate,
        )
    }
}

/// The parallel gateway splits a job across multiple processing paths. The
/// job is duplicated across every one of the processing paths. In addition
/// to splitting the process, a second parallel gateway can be used to join
/// the split paths.
#[derive(Debug, Clone)]
pub struct ParallelGateway {
    flow_paths_in: Vec<String>,
    flow_paths_out: Vec<String>,
    store_records: bool,
    /// The count of arrivals of each job being collected, keyed by the job
    /// and kept in order of first arrival; no job has two entries.  A list
    /// with unique keys lets the contracts state exactly which collection
    /// completes first.
    collections: Vec<(String, usize)>,
    records: Vec<ModelRecord>,
}

/// The views of the collections.
pub open spec fn collections_view(c: Seq<(String, usize)>) -> Seq<(Seq<char>, nat)> {
    c.map_values(|e: (String, usize)| (e.0@, e.1 as nat))
}

impl View for ParallelGateway {
    type V = ParallelGatewayView;

    closed spec fn view(&self) -> ParallelGatewayView {
        ParallelGatewayView {
            flow_paths_in: strings_view(self.flow_paths_in@),
            flow_paths_out: strings_view(self.flow_paths_out@),
            store_records: self.store_records,
            collections: collections_view(self.collections@),
            records: records_view(self.records@),
        }
    }
}

/// `key_index` finds the only entry with the key, when keys are unique.
proof fn lemma_key_index(c: Seq<(Seq<char>, nat)>, key: Seq<char>)
    ensures
        -1 <= key_index(c, key) < c.len(),
        key_index(c, key) >= 0 ==> c[key_index(c, key)].0 == key,
        key_index(c, key) < 0 ==> forall|j: int| 0 <= j < c.len() ==> (#[trigger] c[j]).0 != key,
        keys_unique(c) ==> forall|j: int|
            0 <= j < c.len() && (#[trigger] c[j]).0 == key ==> j == key_index(c, key),
    decreases c.len(),
{
    if c.len() > 0 {
        let d = c.drop_last();
        lemma_key_index(d, key);
        assert forall|j: int| 0 <= j < c.len() - 1 implies #[trigger] d[j] == c[j] by {}
        let last = c.len() - 1;
        if c.last().0 == key {
            assert(key_index(c, key) == last);
            if keys_unique(c) {
                assert forall|j: int| 0 <= j < c.len() && (#[trigger] c[j]).0 == key implies j
                    == key_index(c, key) by {
                    if j < last {
                        assert(c[j].0 == c[last].0);
                    }
                }
            }
        } else {
            assert(key_index(c, key) == key_index(d, key));
            if key_index(c, key) < 0 {
                assert forall|j: int| 0 <= j < c.len() implies (#[trigger] c[j]).0 != key by {
                    if j < last {
                        assert(d[j] == c[j]);
                    }
                }
            }
            if keys_unique(c) {
                assert(keys_unique(d)) by {
                    assert forall|i: int, j: int| 0 <= i < j < d.len() implies #[trigger] d[i].0
                        != #[trigger] d[j].0 by {
                        assert(d[i] == c[i] && d[j] == c[j]);
                    }
                }
                assert forall|j: int| 0 <= j < c.len() && (#[trigger] c[j]).0 == key implies j
                    == key_index(c, key) by {
                    assert(j != last);
                    assert(d[j] == c[j]);
                }
            }
        }
    }
}

/// `first_full` finds the first entry with the count.
proof fn lemma_first_full(c: Seq<(Seq<char>, nat)>, n: nat)
    ensures
        -1 <= first_full(c, n) < c.len(),
        first_full(c, n) >= 0 ==> c[first_full(c, n)].1 == n,
        forall|j: int|
            0 <= j < c.len() && (first_full(c, n) < 0 || j < first_full(c, n)) ==> (#[trigger] c[j]).1
                != n,
    decreases c.len(),
{
    if c.len() > 0 {
        let d = c.drop_last();
        lemma_first_full(d, n);
        assert forall|j: int| 0 <= j < c.len() - 1 implies #[trigger] d[j] == c[j] by {}
        let r = first_full(d, n);
        let last = c.len() - 1;
        if r >= 0 {
            assert(first_full(c, n) == r);
            assert(d[r] == c[r]);
            assert forall|j: int| 0 <= j < c.len() && (first_full(c, n) < 0 || j < first_full(
                c,
                n,
            )) implies (#[trigger] c[j]).1 != n by {
                assert(d[j] == c[j]);
            }
        } else {
            assert forall|j: int| 0 <= j < c.len() && (first_full(c, n) < 0 || j < first_full(
                c,
                n,
            )) implies (#[trigger] c[j]).1 != n by {
                if j < last {
                    assert(d[j] == c[j]);
                }
            }
        }
    }
}

impl ParallelGateway {
    /// No job has two collections.
    pub open spec fn wf(&self) -> bool {
        keys_unique(self@.collections)
    }

    pub fn new(flow_paths_in: Vec<String>, flow_paths_out: Vec<String>, store_records: bool) -> (m:
        Self)
        ensures
            m@ == parallel_gateway_init(
                strings_view(flow_paths_in@),
                strings_view(flow_paths_out@),
                store_records,
            ),
            m.wf(),
    {
        let m = ParallelGateway {
            flow_paths_in,
            flow_paths_out,
            store_records,
            collections: Vec::new(),
            records: Vec::new(),
        };
        assert(records_view(m.records@) =~= seq![]);
        assert(collections_view(m.collections@) =~= seq![]);
        m
    }

    /// A parallel gateway restored from a saved state: the count of
    /// arrivals of each job being collected, and the records.
    pub fn restore(
        flow_paths_in: Vec<String>,
        flow_paths_out: Vec<String>,
        store_records: bool,
        collections: Vec<(String, usize)>,
        records: Vec<ModelRecord>,
    ) -> (m: Self)
        requires
            keys_unique(collections_view(collections@)),
        ensures
            m@ == (ParallelGatewayView {
                flow_paths_in: strings_view(flow_paths_in@),
                flow_paths_out: strings_view(flow_paths_out@),
                store_records,
                collections: collections_view(collections@),
                records: records_view(records@),
            }),
            m.wf(),
    {
        ParallelGateway { flow_paths_in, flow_paths_out, store_records, collections, records }
    }

    /// The count of arrivals of each job being collected, in order of first
    /// arrival.
    pub fn collections(&self) -> (c: &Vec<(String, usize)>)
        ensures
            collections_view(c@) == self@.collections,
    {
        &self.collections
    }

    /// Whether `port` is one of the in flow paths.
    fn arrival_port(&self, port: &String) -> (found: bool)
        ensures
            found == self@.flow_paths_in.contains(port@),
    {
        let mut i: usize = 0;
        while i < self.flow_paths_in.len()
            invariant
                i <= self.flow_paths_in@.len(),
                forall|j: int| 0 <= j < i ==> self@.flow_paths_in[j] != port@,
            decreases self.flow_paths_in@.len() - i,
        {
            if self.flow_paths_in[i] == *port {
                assert(self@.flow_paths_in[i as int] == port@);
                return true;
            }
            i = i + 1;
        }
        proof {
            if self@.flow_paths_in.contains(port@) {
                let j = choose|j: int|
                    0 <= j < self@.flow_paths_in.len() && self@.flow_paths_in[j] == port@;
                assert(self@.flow_paths_in[j] != port@);
            }
        }
        false
    }

    /// The index of the collection of `key`, if any.
    fn find_collection(&self, key: &String) -> (r: Option<usize>)
        ensures
            r is None <==> key_index(self@.collections, key@) < 0,
            r matches Some(i) ==> i == key_index(self@.collections, key@),
    {
        let ghost c = self@.collections;
        proof {
            lemma_key_index(c, key@);
        }
        let mut i = self.collections.len();
        while i > 0
            invariant
                i <= self.collections@.len(),
                c == collections_view(self.collections@),
                forall|j: int| i <= j < c.len() ==> (#[trigger] c[j]).0 != key@,
            decreases i,
        {
            if self.collections[i - 1].0 == *key {
                assert(c[i - 1].0 == key@);
                proof {
                    lemma_key_index_last(c, key@, (i - 1) as int);
                }
                return Some(i - 1);
            }
            i = i - 1;
        }
        proof {
            if key_index(c, key@) >= 0 {
                assert(c[key_index(c, key@)].0 == key@);
            }
        }
        None
    }

    /// The external transition for a message that arrived on `msg.port_name`.
    /// A count that could not grow further is an invalid model state.
    pub fn events_ext(&mut self, msg: &ModelMessage) -> (r: Result<Timer, SimulationError>)
        requires
            old(self).wf(),
        ensures
            final(self).wf(),
            r != Err::<Timer, SimulationError>(SimulationError::InvalidModelState) ==> (
            final(self)@, r) == parallel_gateway_ext(old(self)@, msg@),
            r == Err::<Timer, SimulationError>(SimulationError::InvalidModelState) ==> *final(self)
                == *old(self) && ({
                let i = key_index(old(self)@.collections, msg@.1);
                i >= 0 && old(self)@.collections[i].1 == usize::MAX
            }),
    {
        if !self.arrival_port(&msg.port_name) {
            return Err(SimulationError::InvalidMessage);
        }
        let ghost c = self@.collections;
        proof {
            lemma_key_index(c, msg.content@);
        }
        match self.find_collection(&msg.content) {
            Some(i) => {
                let count = self.collections[i].1;
                if count == usize::MAX {
                    return Err(SimulationError::InvalidModelState);
                }
                self.collections.set(i, (msg.content.clone(), count + 1));
                assert(collections_view(self.collections@) =~= c.update(
                    i as int,
                    (msg.content@, c[i as int].1 + 1),
                ));
            },
            None => {
                self.collections.push((msg.content.clone(), 1));
                assert(collections_view(self.collections@) =~= c.push((msg.content@, 1)));
            },
        }
        let subject = join_on(&msg.content, &msg.port_name);
        record(&mut self.records, self.store_records, "Arrival", subject);
        Ok(Timer::Immediate)
    }

    /// The index of the first full collection, if any.
    fn full_collection(&self) -> (r: Option<usize>)
        ensures
            r is None <==> first_full(self@.collections, self@.flow_paths_in.len()) < 0,
            r matches Some(i) ==> i == first_full(self@.collections, self@.flow_paths_in.len()),
    {
        let ghost c = self@.collections;
        let ghost n = self@.flow_paths_in.len();
        proof {
            lemma_first_full(c, n);
        }
        assert(strings_view(self.flow_paths_in@).len() == self.flow_paths_in@.len());
        let target = self.flow_paths_in.len();
        let mut i: usize = 0;
        while i < self.collections.len()
            invariant
                i <= self.collections@.len(),
                c == collections_view(self.collections@),
                c == self@.collections,
                n == self@.flow_paths_in.len(),
                target == n,
                forall|j: int| 0 <= j < i ==> (#[trigger] c[j]).1 != n,
            decreases self.collections@.len() - i,
        {
            if self.collections[i].1 == target {
                assert(c[i as int].1 == n);
                proof {
                    lemma_first_full_at(c, n, i as int);
                }
                return Some(i);
            }
            i = i + 1;
        }
        proof {
            if first_full(c, n) >= 0 {
                assert(c[first_full(c, n)].1 == n);
            }
        }
        None
    }

    /// The internal transition: the messages sent, and the timer.
    pub fn events_int(&mut self) -> (r: Result<(Vec<ModelMessage>, Timer), SimulationError>)
        requires
            old(self).wf(),
        ensures
            final(self).wf(),
            r matches Ok(out) && (final(self)@, messages_view(out.0@), out.1)
                == parallel_gateway_int(old(self)@),
    {
        let ghost c = self@.collections;
        match self.full_collection() {
            None => {
                let out: Vec<ModelMessage> = Vec::new();
                assert(messages_view(out@) =~= seq![]);
                Ok((out, Timer::Passive))
            },
            Some(i) => {
                proof {
                    lemma_first_full(c, self@.flow_paths_in.len());
                }
                assert(c.len() == self.collections@.len());
                assert(c[i as int] == (self.collections@[i as int].0@, self.collections@[i as int].1 as nat));
                let entry = self.collections.remove(i);
                let job = entry.0;
                assert(job@ == c[i as int].0);
                assert(collections_view(self.collections@) =~= c.remove(i as int));
                let ghost records0 = records_view(self.records@);
                let ghost paths = strings_view(self.flow_paths_out@);
                let mut out: Vec<ModelMessage> = Vec::new();
                let mut k: usize = 0;
                while k < self.flow_paths_out.len()
                    invariant
                        k <= self.flow_paths_out@.len(),
                        paths == strings_view(self.flow_paths_out@),
                        paths.len() == self.flow_paths_out@.len(),
                        records_view(self.records@) == recorded(
                            records0,
                            self.store_records,
                            departures_of(job@, paths.take(k as int)),
                        ),
                        messages_view(out@) == paths.take(k as int).map_values(
                            |p: Seq<char>| (p, job@),
                        ),
                        collections_view(self.collections@) == c.remove(i as int),
                        self.flow_paths_in == old(self).flow_paths_in,
                        self.flow_paths_out == old(self).flow_paths_out,
                        self.store_records == old(self).store_records,
                        job@ == c[i as int].0,
                    decreases self.flow_paths_out@.len() - k,
                {
                    assert(paths[k as int] == self.flow_paths_out@[k as int]@);
                    let subject = join_on(&job, &self.flow_paths_out[k]);
                    record(&mut self.records, self.store_records, "Departure", subject);
                    assert(paths.take(k + 1) =~= paths.take(k as int).push(paths[k as int]));
                    assert(recorded(
                        recorded(records0, self.store_records, departures_of(job@, paths.take(k as int))),
                        self.store_records,
                        seq![("Departure"@, on_port(job@, paths[k as int]))],
                    ) =~= recorded(records0, self.store_records, departures_of(job@, paths.take(k + 1))));
                    let ghost out_before = out@;
                    out.push(ModelMessage::new(self.flow_paths_out[k].clone(), job.clone()));
                    assert(messages_view(out@) =~= messages_view(out_before).push((paths[k as int], job@)));
                    assert(messages_view(out@) =~= paths.take(k + 1).map_values(|p: Seq<char>| (p, job@)));
                    k = k + 1;
                }
                assert(paths.take(paths.len() as int) =~= paths);
                assert(keys_unique(c.remove(i as int))) by {
                    let r = c.remove(i as int);
                    assert forall|a: int, b: int| 0 <= a < b < r.len() implies #[trigger] r[a].0
                        != #[trigger] r[b].0 by {
                        let a2 = if a < i { a } else { a + 1 };
                        let b2 = if b < i { b } else { b + 1 };
                        assert(r[a] == c[a2] && r[b] == c[b2]);
                        assert(c[a2].0 != c[b2].0);
                    }
                }
                Ok((out, Timer::Immediate))
            },
        }
    }
}

/// The entry found last-first is the key's index.
proof fn lemma_key_index_last(c: Seq<(Seq<char>, nat)>, key: Seq<char>, i: int)
    requires
        0 <= i < c.len(),
        c[i].0 == key,
        forall|j: int| i < j < c.len() ==> (#[trigger] c[j]).0 != key,
    ensures
        key_index(c, key) == i,
    decreases c.len(),
{
    if i < c.len() - 1 {
        assert(c.last().0 != key);
        assert forall|j: int| i < j < c.len() - 1 implies (#[trigger] c.drop_last()[j]).0
            != key by {
            assert(c.drop_last()[j] == c[j]);
        }
        lemma_key_index_last(c.drop_last(), key, i);
    }
}

/// The entry found first is the first full one.
proof fn lemma_first_full_at(c: Seq<(Seq<char>, nat)>, n: nat, i: int)
    requires
        0 <= i < c.len(),
        c[i].1 == n,
        forall|j: int| 0 <= j < i ==> (#[trigger] c[j]).1 != n,
    ensures
        first_full(c, n) == i,
    decreases c.len(),
{
    if i < c.len() - 1 {
        assert forall|j: int| 0 <= j < i implies (#[trigger] c.drop_last()[j]).1 != n by {
            assert(c.drop_last()[j] == c[j]);
        }
        assert(c.drop_last()[i] == c[i]);
        lemma_first_full_at(c.drop_last(), n, i);
    } else {
        lemma_first_full(c.drop_last(), n);
        if first_full(c.drop_last(), n) >= 0 {
            let r = first_full(c.drop_last(), n);
            assert(c.drop_last()[r] == c[r]);
        }
    }
}

impl Reportable for ParallelGateway {
    /// "Active".
    fn status(&self) -> (s: String)
        ensures
            s@ == "Active"@,
    {
        text("Active")
    }

    fn records(&self) -> (r: &Vec<ModelRecord>)
        ensures
            records_view(r@) == self@.records,
    {
        &self.records
    }
}

/// The count of `key`'s collection, zero when there is none.
pub open spec fn arrivals(c: Seq<(Seq<char>, nat)>, key: Seq<char>) -> nat {
    let i = key_index(c, key);
    if i >= 0 {
        c[i].1
    } else {
        0
    }
}

/// A parallel gateway joins: each arrival of a job on an in flow path
/// counts once more for that job alone, and a job leaves only once it has
/// arrived as many times as there are in flow paths; it then leaves on
/// every out flow path, once, and its count starts again from zero.
pub proof fn lemma_parallel_gateway_joins(s: ParallelGatewayView, msg: (Seq<char>, Seq<char>))
    requires
        keys_unique(s.collections),
    ensures
        s.flow_paths_in.contains(msg.0) ==> ({
            let s1 = parallel_gateway_ext(s, msg).0;
            &&& arrivals(s1.collections, msg.1) == arrivals(s.collections, msg.1) + 1
            &&& forall|k: Seq<char>| k != msg.1 ==> #[trigger] arrivals(s1.collections, k)
                == arrivals(s.collections, k)
        }),
        ({
            let (s1, out, _) = parallel_gateway_int(s);
            let i = first_full(s.collections, s.flow_paths_in.len());
            out.len() > 0 ==> {
                let job = s.collections[i].0;
                &&& arrivals(s.collections, job) == s.flow_paths_in.len()
                &&& out.len() == s.flow_paths_out.len()
                &&& forall|k: int| 0 <= k < out.len() ==> #[trigger] out[k] == (
                    s.flow_paths_out[k],
                    job,
                )
                &&& arrivals(s1.collections, job) == 0
            }
        }),
{
    let c = s.collections;
    lemma_key_index(c, msg.1);
    if s.flow_paths_in.contains(msg.0) {
        let c1 = collect(c, msg.1);
        let i = key_index(c, msg.1);
        assert(keys_unique(c1)) by {
            assert forall|a: int, b: int| 0 <= a < b < c1.len() implies #[trigger] c1[a].0
                != #[trigger] c1[b].0 by {
                if i < 0 && b == c.len() {
                    assert(c1[a] == c[a]);
                } else {
                    assert(c[a].0 == c1[a].0 && c[b].0 == c1[b].0);
                }
            }
        }
        lemma_key_index(c1, msg.1);
        if i >= 0 {
            assert(c1[i].0 == msg.1);
            assert(key_index(c1, msg.1) == i);
        } else {
            assert(c1[c.len() as int].0 == msg.1);
            assert(key_index(c1, msg.1) == c.len());
        }
        assert forall|k: Seq<char>| k != msg.1 implies #[trigger] arrivals(c1, k) == arrivals(
            c,
            k,
        ) by {
            lemma_key_index(c, k);
            lemma_key_index(c1, k);
            let j = key_index(c, k);
            let j1 = key_index(c1, k);
            if j >= 0 {
                assert(c1[j].0 == k);
                assert(j1 == j);
            } else if j1 >= 0 {
                assert(c1[j1].0 == k);
                if j1 < c.len() {
                    assert(c[j1].0 == c1[j1].0);
                }
            }
        }
    }
    let n = s.flow_paths_in.len();
    let i = first_full(c, n);
    lemma_first_full(c, n);
    if i >= 0 {
        let job = c[i].0;
        lemma_key_index(c, job);
        let c1 = c.remove(i);
        lemma_key_index(c1, job);
        if key_index(c1, job) >= 0 {
            let j = key_index(c1, job);
            let j2 = if j < i { j } else { j + 1 };
            assert(c1[j] == c[j2]);
        }
    }
}

/// A collection that has arrived on every in flow path is released at
/// once: while some job's count equals the number of in flow paths, the
/// internal transition sends a job on every out flow path and stays due at
/// once; while none does, it sends nothing and the gateway is passive.
pub proof fn lemma_parallel_gateway_releases_full(s: ParallelGatewayView)
    ensures
        (exists|j: int| 0 <= j < s.collections.len() && #[trigger] s.collections[j].1
            == s.flow_paths_in.len()) ==> ({
            let (_, out, timer) = parallel_gateway_int(s);
            &&& out.len() == s.flow_paths_out.len()
            &&& timer == Timer::Immediate
        }),
        (forall|j: int| 0 <= j < s.collections.len() ==> #[trigger] s.collections[j].1
            != s.flow_paths_in.len()) ==> ({
            let (s1, out, timer) = parallel_gateway_int(s);
            &&& out.len() == 0
            &&& timer == Timer::Passive
            &&& s1 == s
        }),
{
    lemma_first_full(s.collections, s.flow_paths_in.len());
}

} // verus!
