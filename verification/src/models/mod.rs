//! The atomic models of the simulation.  Each model is a state machine:
//! `events_ext` takes a message that arrived on one of its input ports,
//! `events_int` runs the model's internal transition and returns the
//! messages it sends.  Both say what becomes of the model's timer (see
//! `Timer`); the simulator keeps the clock and the time until each model's
//! next event, and stamps the records that the models keep with it.
use vstd::prelude::*;

pub mod batcher;
pub mod coupled;
pub mod exclusive_gateway;
pub mod gate;
pub mod generator;
pub mod load_balancer;
pub mod parallel_gateway;
pub mod processor;
pub mod stochastic_gate;
pub mod stopwatch;
pub mod storage;

verus! {

/// A message that a model receives on, or sends from, one of its ports.
#[derive(Debug, Clone)]
pub struct ModelMessage {
    pub port_name: String,
    pub content: String,
}

impl View for ModelMessage {
    type V = (Seq<char>, Seq<char>);

    open spec fn view(&self) -> (Seq<char>, Seq<char>) {
        (self.port_name@, self.content@)
    }
}

impl ModelMessage {
    /// A message with the given port and content.
    pub fn new(port_name: String, content: String) -> (m: Self)
        ensures
            m@ == (port_name@, content@),
    {
        ModelMessage { port_name, content }
    }
}

/// A record that a model keeps of what happened to a job: the action
/// ("Arrival", "Departure", ...) and its subject.  The simulator stamps it
/// with the time at which the model produced it.
#[derive(Debug, Clone)]
pub struct ModelRecord {
    pub action: String,
    pub subject: String,
}

impl View for ModelRecord {
    type V = (Seq<char>, Seq<char>);

    open spec fn view(&self) -> (Seq<char>, Seq<char>) {
        (self.action@, self.subject@)
    }
}

/// What a transition does to the time until the model's next internal
/// event.
#[derive(Debug, Clone, Copy, PartialEq, Eq)]
pub enum Timer {
    /// The time left runs on unchanged.
    Keep,
    /// No internal event is scheduled (an infinite time).
    Passive,
    /// The internal event is due at once (a time of zero).
    Immediate,
    /// The internal event is due after the model's configured delay: a
    /// fresh draw of its service or interdeparture distribution, or its
    /// maximum batching time.
    Scheduled,
}

/// The views of a sequence of messages.
pub open spec fn messages_view(messages: Seq<ModelMessage>) -> Seq<(Seq<char>, Seq<char>)> {
    messages.map_values(|m: ModelMessage| m@)
}

/// The views of a sequence of records.
pub open spec fn records_view(records: Seq<ModelRecord>) -> Seq<(Seq<char>, Seq<char>)> {
    records.map_values(|r: ModelRecord| r@)
}

/// The views of a sequence of strings.
pub open spec fn strings_view(strings: Seq<String>) -> Seq<Seq<char>> {
    strings.map_values(|s: String| s@)
}

/// The records after a transition that produced `new`: appended when the
/// model stores records, unchanged otherwise.
pub open spec fn recorded(
    before: Seq<(Seq<char>, Seq<char>)>,
    store_records: bool,
    new: Seq<(Seq<char>, Seq<char>)>,
) -> Seq<(Seq<char>, Seq<char>)> {
    if store_records {
        before + new
    } else {
        before
    }
}

/// The messages that send `jobs` on `port`, in order.
pub open spec fn sent_on(port: Seq<char>, jobs: Seq<Seq<char>>) -> Seq<(Seq<char>, Seq<char>)> {
    jobs.map_values(|j: Seq<char>| (port, j))
}

/// The records of an action on each of `jobs`, in order.
pub open spec fn records_of(action: Seq<char>, jobs: Seq<Seq<char>>) -> Seq<(Seq<char>, Seq<char>)> {
    jobs.map_values(|j: Seq<char>| (action, j))
}

/// Sends the first `k` jobs, in order, on `port`, recording the departure
/// of each.
pub fn release_front(
    jobs: &mut Vec<String>,
    records: &mut Vec<ModelRecord>,
    store_records: bool,
    port: &String,
    k: usize,
) -> (out: Vec<ModelMessage>)
    requires
        k <= old(jobs)@.len(),
    ensures
        strings_view(final(jobs)@) == strings_view(old(jobs)@).skip(k as int),
        records_view(final(records)@) == recorded(
            records_view(old(records)@),
            store_records,
            records_of("Departure"@, strings_view(old(jobs)@).take(k as int)),
        ),
        messages_view(out@) == sent_on(port@, strings_view(old(jobs)@).take(k as int)),
{
    let ghost jobs0 = strings_view(jobs@);
    let ghost records0 = records_view(records@);
    let mut out: Vec<ModelMessage> = Vec::new();
    let mut i: usize = 0;
    while i < k
        invariant
            i <= k,
            k <= jobs0.len(),
            strings_view(jobs@) == jobs0.skip(i as int),
            records_view(records@) == recorded(
                records0,
                store_records,
                records_of("Departure"@, jobs0.take(i as int)),
            ),
            messages_view(out@) == sent_on(port@, jobs0.take(i as int)),
        decreases k - i,
    {
        let ghost jobs_before = jobs@;
        assert(strings_view(jobs_before).len() == jobs_before.len());
        assert(strings_view(jobs_before)[0] == jobs_before[0]@);
        assert(jobs0.skip(i as int)[0] == jobs0[i as int]);
        let job = jobs.remove(0);
        assert(job@ == jobs0[i as int]);
        assert(jobs@ =~= jobs_before.subrange(1, jobs_before.len() as int));
        assert forall|j: int| 0 <= j < jobs@.len() implies #[trigger] strings_view(jobs@)[j]
            == jobs0.skip(i + 1)[j] by {
            assert(strings_view(jobs_before)[j + 1] == jobs_before[j + 1]@);
            assert(jobs0.skip(i as int)[j + 1] == jobs0[i + 1 + j]);
        }
        assert(strings_view(jobs@) =~= jobs0.skip(i + 1));
        record(records, store_records, "Departure", job.clone());
        assert(jobs0.take(i + 1) =~= jobs0.take(i as int).push(jobs0[i as int]));
        assert(records_of("Departure"@, jobs0.take(i + 1)) =~= records_of(
            "Departure"@,
            jobs0.take(i as int),
        ) + seq![("Departure"@, job@)]);
        assert(recorded(
            recorded(records0, store_records, records_of("Departure"@, jobs0.take(i as int))),
            store_records,
            seq![("Departure"@, job@)],
        ) =~= recorded(records0, store_records, records_of("Departure"@, jobs0.take(i + 1))));
        let ghost out_before = out@;
        out.push(ModelMessage::new(port.clone(), job));
        assert(messages_view(out@) =~= messages_view(out_before).push((port@, jobs0[i as int])));
        assert(messages_view(out@) =~= sent_on(port@, jobs0.take(i + 1)));
        i = i + 1;
    }
    out
}

/// The subject "`content` on `port`" of the gateways' and load balancer's
/// records.
pub open spec fn on_port(content: Seq<char>, port: Seq<char>) -> Seq<char> {
    content + " on "@ + port
}

/// Appends the record (`action`, `subject`) when `store_records` holds.
pub fn record(records: &mut Vec<ModelRecord>, store_records: bool, action: &str, subject: String)
    ensures
        records_view(final(records)@) == recorded(
            records_view(old(records)@),
            store_records,
            seq![(action@, subject@)],
        ),
{
    let ghost before = old(records)@;
    if store_records {
        let action_string = action.to_string();
        proof {
            vstd::string::to_string_from_display_ensures_for_str(action, action_string);
        }
        records.push(ModelRecord { action: action_string, subject });
        assert(records_view(records@) =~= records_view(before) + seq![(action@, subject@)]);
    }
}

/// "`content` on `port`".
pub fn join_on(content: &String, port: &String) -> (s: String)
    ensures
        s@ == on_port(content@, port@),
{
    content.clone().concat(" on ").concat(port.as_str())
}

/// The string form of a literal.
pub fn text(s: &str) -> (r: String)
    ensures
        r@ == s@,
{
    let r = s.to_string();
    proof {
        vstd::string::to_string_from_display_ensures_for_str(s, r);
    }
    r
}

/// `Model` wraps a model and provides common ID functionality.  The
/// simulator requires all models to have an ID.
pub struct Model<M> {
    id: String,
    inner: M,
}

impl<M: Clone> Clone for Model<M> {
    /// A copy of the model under the same ID.
    fn clone(&self) -> (c: Self)
        ensures
            c.spec_id() == self.spec_id(),
    {
        Model { id: self.id.clone(), inner: self.inner.clone() }
    }
}

impl<M> Model<M> {
    /// The model's ID.
    pub closed spec fn spec_id(&self) -> Seq<char> {
        self.id@
    }

    /// The wrapped model.
    pub closed spec fn spec_inner(&self) -> M {
        self.inner
    }

    /// Wraps `inner` under the ID `id`.
    pub fn new(id: String, inner: M) -> (model: Self)
        ensures
            model.spec_id() == id@,
            model.spec_inner() == inner,
    {
        Model { id, inner }
    }

    /// The model's ID.
    pub fn id(&self) -> (id: &str)
        ensures
            id@ == self.spec_id(),
    {
        self.id.as_str()
    }

    /// Whether the model's ID is `id`.
    pub fn id_is(&self, id: &String) -> (b: bool)
        ensures
            b == (self.spec_id() == id@),
    {
        self.id == *id
    }

    /// The wrapped model.
    pub fn inner(&self) -> (inner: &M)
        ensures
            *inner == self.spec_inner(),
    {
        &self.inner
    }

    /// The wrapped model, for a transition.
    pub fn inner_mut(&mut self) -> (inner: &mut M)
        ensures
            *inner == old(self).spec_inner(),
            final(self).spec_id() == old(self).spec_id(),
            final(self).spec_inner() == *final(inner),
    {
        &mut self.inner
    }
}

/// The status and record-keeping of a model, for reporting; they do not
/// change how the simulation runs.
pub trait Reportable {
    /// A short human-readable status.
    fn status(&self) -> String;

    /// The records the model kept.
    fn records(&self) -> &Vec<ModelRecord>;
}

} // verus!
