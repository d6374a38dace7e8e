//! The storage model stores a value, and responds with it upon request.
use vstd::prelude::*;

use super::{
    messages_view, record, recorded, records_view, text, ModelMessage, ModelRecord,
    Reportable, Timer,
};
use crate::errors::SimulationError;

verus! {

/// The abstract state of a storage model: its ports, whether it keeps
/// records, whether a fetch is pending, the stored value and the records.
pub struct StorageView {
    pub put_port: Seq<char>,
    pub get_port: Seq<char>,
    pub stored_port: Seq<char>,
    pub store_records: bool,
    pub fetching: bool,
    pub job: Option<Seq<char>>,
    pub records: Seq<(Seq<char>, Seq<char>)>,
}

/// A new storage model: empty, with no fetch pending.
pub open spec fn storage_init(
    put_port: Seq<char>,
    get_port: Seq<char>,
    stored_port: Seq<char>,
    store_records: bool,
) -> StorageView {
    StorageView {
        put_port,
        get_port,
        stored_port,
        store_records,
        fetching: false,
        job: None,
        records: seq![],
    }
}

/// A message on the put port replaces the stored value; one on the get
/// port requests it, at once; any other port is an invalid message.
pub open spec fn storage_ext(s: StorageView, msg: (Seq<char>, Seq<char>)) -> (
    StorageView,
    Result<Timer, SimulationError>,
) {
    if msg.0 == s.put_port {
        (
            StorageView {
                job: Some(msg.1),
                records: recorded(s.records, s.store_records, seq![("Arrival"@, msg.1)]),
                ..s
            },
            Ok(Timer::Keep),
        )
    } else if msg.0 == s.get_port {
        (StorageView { fetching: true, ..s }, Ok(Timer::Immediate))
    } else {
        (s, Err(SimulationError::InvalidMessage))
    }
}

/// A pending fetch sends the stored value, if any, on the stored port; then
/// the model is passive.
pub open spec fn storage_int(s: StorageView) -> (StorageView, Seq<(Seq<char>, Seq<char>)>, Timer) {
    if !s.fetching {
        (s, seq![], Timer::Passive)
    } else {
        let subject = match s.job {
            Some(j) => j,
            None => "None"@,
        };
        let out = match s.job {
            Some(j) => seq![(s.stored_port, j)],
            None => seq![],
        };
        (
            StorageView {
                fetching: false,
                records: recorded(s.records, s.store_records, seq![("Departure"@, subject)]),
                ..s
            },
            out,
            Timer::Passive,
        )
    }
}

/// The storage model stores a value, and responds with it upon request.
/// Values are stored and value requests are handled instantaneously.
#[derive(Debug, Clone)]
pub struct Storage {
    put_port: String,
    get_port: String,
    stored_port: String,
    store_records: bool,
    fetching: bool,
    job: Option<String>,
    records: Vec<ModelRecord>,
}

impl View for Storage {
    type V = StorageView;

    closed spec fn view(&self) -> StorageView {
        StorageView {
            put_port: self.put_port@,
            get_port: self.get_port@,
            stored_port: self.stored_port@,
            store_records: self.store_records,
            fetching: self.fetching,
            job: match self.job {
                Some(j) => Some(j@),
                None => None,
            },
            records: records_view(self.records@),
        }
    }
}

impl Storage {
    pub fn new(put_port: String, get_port: String, stored_port: String, store_records: bool) -> (m:
        Self)
        ensures
            m@ == storage_init(put_port@, get_port@, stored_port@, store_records),
    {
        let m = Storage {
            put_port,
            get_port,
            stored_port,
            store_records,
            fetching: false,
            job: None,
            records: Vec::new(),
        };
        assert(records_view(m.records@) =~= seq![]);
        m
    }

    /// A storage model restored from a saved state: whether a fetch is
    /// pending, the stored value and the records.
    pub fn restore(
        put_port: String,
        get_port: String,
        stored_port: String,
        store_records: bool,
        fetching: bool,
        job: Option<String>,
        records: Vec<ModelRecord>,
    ) -> (m: Self)
        ensures
            m@ == (StorageView {
                put_port: put_port@,
                get_port: get_port@,
                stored_port: stored_port@,
                store_records,
                fetching,
                job: match job {
                    Some(j) => Some(j@),
                    None => None,
                },
                records: records_view(records@),
            }),
    {
        Storage { put_port, get_port, stored_port, store_records, fetching, job, records }
    }

    /// Whether a fetch is pending.
    pub fn is_fetching(&self) -> (b: bool)
        ensures
            b == self@.fetching,
    {
        self.fetching
    }

    /// The stored value.
    pub fn job(&self) -> (j: &Option<String>)
        ensures
            j.is_some() == self@.job.is_some(),
            j matches Some(v) ==> self@.job == Some(v@),
    {
        &self.job
    }

    /// The external transition for a message that arrived on `msg.port_name`.
    pub fn events_ext(&mut self, msg: &ModelMessage) -> (r: Result<Timer, SimulationError>)
        ensures
            (final(self)@, r) == storage_ext(old(self)@, msg@),
    {
        if msg.port_name == self.put_port {
            self.job = Some(msg.content.clone());
            record(&mut self.records, self.store_records, "Arrival", msg.content.clone());
            Ok(Timer::Keep)
        } else if msg.port_name == self.get_port {
            self.fetching = true;
            Ok(Timer::Immediate)
        } else {
            Err(SimulationError::InvalidMessage)
        }
    }

    /// The internal transition: the messages sent, and the timer.
    pub fn events_int(&mut self) -> (r: Result<(Vec<ModelMessage>, Timer), SimulationError>)
        ensures
            r matches Ok(out) && (final(self)@, messages_view(out.0@), out.1) == storage_int(
                old(self)@,
            ),
    {
        if !self.fetching {
            return Ok((Vec::new(), Timer::Passive));
        }
        self.fetching = false;
        let subject = match &self.job {
            Some(j) => j.clone(),
            None => text("None"),
        };
        record(&mut self.records, self.store_records, "Departure", subject);
        let mut out: Vec<ModelMessage> = Vec::new();
        match &self.job {
            Some(j) => {
                out.push(ModelMessage::new(self.stored_port.clone(), j.clone()));
            },
            None => {},
        }
        assert(messages_view(out@) =~= storage_int(old(self)@).1);
        Ok((out, Timer::Passive))
    }
}

impl Reportable for Storage {
    /// "Storing <value>" or "Empty".
    fn status(&self) -> (s: String)
        ensures
            s@ == match self@.job {
                Some(j) => "Storing "@ + j,
                None => "Empty"@,
            },
    {
        match &self.job {
            Some(stored) => text("Storing ").concat(stored.as_str()),
            None => text("Empty"),
        }
    }

    fn records(&self) -> (r: &Vec<ModelRecord>)
        ensures
            records_view(r@) == self@.records,
    {
        &self.records
    }
}

/// A read answers with what the last write stored: after a value `v` is
/// put into a storage model and then requested, the next internal
/// transition sends exactly `v` on the stored port, and the model keeps `v`.
pub proof fn lemma_storage_read_after_write(s: StorageView, put: (Seq<char>, Seq<char>), get: (
    Seq<char>,
    Seq<char>,
))
    requires
        put.0 == s.put_port,
        get.0 == s.get_port,
        get.0 != s.put_port,
    ensures
        ({
            let s1 = storage_ext(s, put).0;
            let s2 = storage_ext(s1, get).0;
            let (s3, out, timer) = storage_int(s2);
            &&& out == seq![(s.stored_port, put.1)]
            &&& s3.job == Some(put.1)
            &&& timer == Timer::Passive
        }),
{
}

} // verus!
