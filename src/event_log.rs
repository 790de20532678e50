use vstd::prelude::*;

use crate::events::{EventModel, ReservationEvent};
use crate::keyed::KeyedStore;

verus! {

/// Side-channel data attached to a command and carried by its events.
pub type Metadata = Vec<(String, String)>;

/// The model of metadata: its pairs of texts, in order.
pub open spec fn metadata_model(m: Seq<(String, String)>) -> Seq<(Seq<char>, Seq<char>)> {
    m.map_values(|p: (String, String)| (p.0@, p.1@))
}

/// A copy of metadata with the same pairs.
pub fn copy_metadata(m: &Metadata) -> (r: Metadata)
    ensures
        metadata_model(r@) == metadata_model(m@),
{
    let mut r: Metadata = Vec::new();
    let mut i: usize = 0;
    while i < m.len()
        invariant
            i <= m.len(),
            r.len() == i,
            forall|j: int| 0 <= j < i ==> r@[j].0@ == m@[j].0@ && r@[j].1@ == m@[j].1@,
        decreases m.len() - i,
    {
        r.push((m[i].0.clone(), m[i].1.clone()));
        i = i + 1;
    }
    assert(metadata_model(r@) =~= metadata_model(m@));
    r
}

/// A committed event: its aggregate, its place in that aggregate's stream,
/// what happened, and the metadata of the command that produced it.
#[derive(Debug, Clone, PartialEq, Eq)]
pub struct EventEnvelope {
    pub aggregate_id: String,
    pub sequence: u64,
    pub payload: ReservationEvent,
    pub metadata: Metadata,
}

/// The mathematical content of a committed event.
pub ghost struct EnvelopeModel {
    pub aggregate_id: Seq<char>,
    pub sequence: int,
    pub payload: EventModel,
    pub metadata: Seq<(Seq<char>, Seq<char>)>,
}

impl View for EventEnvelope {
    type V = EnvelopeModel;

    open spec fn view(&self) -> EnvelopeModel {
        EnvelopeModel {
            aggregate_id: self.aggregate_id@,
            sequence: self.sequence as int,
            payload: self.payload@,
            metadata: metadata_model(self.metadata@),
        }
    }
}

/// The models of a list of committed events.
pub open spec fn envelope_models(v: Seq<EventEnvelope>) -> Seq<EnvelopeModel> {
    v.map_values(|e: EventEnvelope| e@)
}

/// The payloads of a list of committed events.
pub open spec fn payloads(v: Seq<EnvelopeModel>) -> Seq<EventModel> {
    v.map_values(|e: EnvelopeModel| e.payload)
}

/// The events of one batch as they are committed after `expected` events:
/// numbered on from `expected + 1`, each with the batch's metadata.
pub open spec fn batch(
    id: Seq<char>,
    expected: int,
    es: Seq<EventModel>,
    md: Seq<(Seq<char>, Seq<char>)>,
) -> Seq<EnvelopeModel> {
    Seq::new(
        es.len(),
        |i: int|
            EnvelopeModel { aggregate_id: id, sequence: expected + i + 1, payload: es[i], metadata: md },
    )
}

/// The stream of an aggregate in a log: empty where nothing was recorded.
pub open spec fn stream_of(log: Map<Seq<char>, Seq<EnvelopeModel>>, id: Seq<char>) -> Seq<
    EnvelopeModel,
> {
    if log.contains_key(id) {
        log[id]
    } else {
        Seq::empty()
    }
}

/// A stream is numbered 1, 2, 3, ... without gaps and belongs to one aggregate.
pub open spec fn stream_wf(id: Seq<char>, s: Seq<EnvelopeModel>) -> bool {
    forall|i: int| #![trigger s[i]] 0 <= i < s.len() ==> s[i].sequence == i + 1 && s[i].aggregate_id == id
}

/// Why an append was refused.
#[derive(Debug, Clone, Copy, PartialEq, Eq)]
pub enum AppendError {
    /// The stream does not end at the sequence number the writer expected.
    ConcurrencyConflict,
    /// The batch would take sequence numbers past the largest one.
    SequenceExhausted,
}

/// What appending a batch does to a log: the new log, or the refusal.
pub open spec fn append_outcome(
    log: Map<Seq<char>, Seq<EnvelopeModel>>,
    id: Seq<char>,
    expected: int,
    es: Seq<EventModel>,
    md: Seq<(Seq<char>, Seq<char>)>,
) -> Result<Map<Seq<char>, Seq<EnvelopeModel>>, AppendError> {
    if expected != stream_of(log, id).len() {
        Err(AppendError::ConcurrencyConflict)
    } else if expected + es.len() > u64::MAX {
        Err(AppendError::SequenceExhausted)
    } else {
        Ok(log.insert(id, stream_of(log, id) + batch(id, expected, es, md)))
    }
}

fn make_envelope(id: &String, sequence: u64, payload: &ReservationEvent, metadata: &Metadata) -> (r:
    EventEnvelope)
    ensures
        r@ == (EnvelopeModel {
            aggregate_id: id@,
            sequence: sequence as int,
            payload: payload@,
            metadata: metadata_model(metadata@),
        }),
{
    EventEnvelope {
        aggregate_id: id.clone(),
        sequence,
        payload: payload.duplicate(),
        metadata: copy_metadata(metadata),
    }
}

/// An append-only log of events, one stream per aggregate id.
pub struct EventLog {
    streams: KeyedStore<Vec<EventEnvelope>>,
}

impl View for EventLog {
    type V = Map<Seq<char>, Seq<EnvelopeModel>>;

    closed spec fn view(&self) -> Map<Seq<char>, Seq<EnvelopeModel>> {
        self.streams.view().map_values(|v: Vec<EventEnvelope>| envelope_models(v@))
    }
}

impl EventLog {
    /// Every stream is gapless from 1 and belongs to its key.
    pub closed spec fn wf(&self) -> bool {
        &&& self.streams.wf()
        &&& forall|id: Seq<char>| #[trigger]
            self@.contains_key(id) ==> stream_wf(id, self@[id])
    }

    /// A log with no events.
    pub fn new() -> (r: EventLog)
        ensures
            r.wf(),
            r@ == Map::<Seq<char>, Seq<EnvelopeModel>>::empty(),
    {
        let r = EventLog { streams: KeyedStore::new() };
        assert(r@ =~= Map::<Seq<char>, Seq<EnvelopeModel>>::empty());
        r
    }

    /// The number of events recorded for an aggregate, which is also the
    /// sequence number of its latest event (0 for none).
    pub fn current_sequence(&self, id: &String) -> (r: u64)
        requires
            self.wf(),
        ensures
            r == stream_of(self@, id@).len(),
    {
        match self.streams.get(id) {
            Some(v) => {
                let n = v.len();
                if n > 0 {
                    assert(self@.contains_key(id@));
                    assert(self@[id@] == envelope_models(v@));
                    assert(stream_wf(id@, self@[id@]));
                    assert(self@[id@][n - 1].sequence == n);
                }
                n as u64
            },
            None => 0,
        }
    }

    /// The full history of an aggregate, oldest event first.
    pub fn load(&self, id: &String) -> (r: Vec<EventEnvelope>)
        requires
            self.wf(),
        ensures
            envelope_models(r@) == stream_of(self@, id@),
    {
        let mut r: Vec<EventEnvelope> = Vec::new();
        match self.streams.get(id) {
            Some(v) => {
                let mut i: usize = 0;
                while i < v.len()
                    invariant
                        i <= v.len(),
                        r.len() == i,
                        forall|j: int| 0 <= j < i ==> r@[j]@ == v@[j]@,
                    decreases v.len() - i,
                {
                    let e = &v[i];
                    r.push(make_envelope(&e.aggregate_id, e.sequence, &e.payload, &e.metadata));
                    i = i + 1;
                }
                assert(envelope_models(r@) =~= envelope_models(v@));
                assert(self@.contains_key(id@));
            },
            None => {
                assert(envelope_models(r@) =~= Seq::<EnvelopeModel>::empty());
            },
        }
        r
    }

    /// Appends a batch to an aggregate's stream if the stream ends at
    /// `expected`; the batch is recorded whole or not at all. On success the
    /// committed events are handed back, in order.
    pub fn append(
        &mut self,
        id: &String,
        expected: u64,
        events: Vec<ReservationEvent>,
        metadata: &Metadata,
    ) -> (r: Result<Vec<EventEnvelope>, AppendError>)
        requires
            old(self).wf(),
        ensures
            final(self).wf(),
            match append_outcome(
                old(self)@,
                id@,
                expected as int,
                events@.map_values(|e: ReservationEvent| e@),
                metadata_model(metadata@),
            ) {
                Ok(log) => r is Ok && final(self)@ == log && envelope_models(r->Ok_0@) == batch(
                    id@,
                    expected as int,
                    events@.map_values(|e: ReservationEvent| e@),
                    metadata_model(metadata@),
                ),
                Err(e) => r == Err::<Vec<EventEnvelope>, AppendError>(e) && final(self)@ == old(
                    self,
                )@,
            },
    {
        let current = self.current_sequence(id);
        if expected != current {
            return Err(AppendError::ConcurrencyConflict);
        }
        let n = events.len();
        if n as u64 > u64::MAX - expected {
            return Err(AppendError::SequenceExhausted);
        }
        let ghost es = events@.map_values(|e: ReservationEvent| e@);
        let ghost md = metadata_model(metadata@);
        let ghost old_stream = stream_of(self@, id@);
        let mut stream = match self.streams.insert(id, Vec::new()) {
            Some(v) => v,
            None => Vec::new(),
        };
        assert(envelope_models(stream@) =~= old_stream);
        let mut committed: Vec<EventEnvelope> = Vec::new();
        let ghost full = batch(id@, expected as int, es, md);
        let ghost base = old_stream.len();
        let mut i: usize = 0;
        while i < n
            invariant
                n == events.len(),
                i <= n,
                expected + n <= u64::MAX,
                expected == base,
                es == events@.map_values(|e: ReservationEvent| e@),
                md == metadata_model(metadata@),
                full == batch(id@, expected as int, es, md),
                stream.len() == base + i,
                forall|j: int| 0 <= j < base ==> stream@[j]@ == old_stream[j],
                forall|j: int| 0 <= j < i ==> stream@[base + j]@ == full[j],
                committed.len() == i,
                forall|j: int| 0 <= j < i ==> committed@[j]@ == full[j],
            decreases n - i,
        {
            let sequence = expected + i as u64 + 1;
            stream.push(make_envelope(id, sequence, &events[i], metadata));
            committed.push(make_envelope(id, sequence, &events[i], metadata));
            i = i + 1;
        }
        assert(envelope_models(committed@) =~= full);
        assert(envelope_models(stream@) =~= old_stream + full);
        let ghost new_stream = envelope_models(stream@);
        self.streams.insert(id, stream);
        proof {
            assert(self@ =~= old(self)@.insert(id@, new_stream));
            assert forall|k: Seq<char>| #[trigger] self@.contains_key(k) implies stream_wf(
                k,
                self@[k],
            ) by {
                if k != id@ {
                    assert(old(self)@.contains_key(k));
                } else {
                    assert(self@[k] == old_stream + full);
                    assert forall|j: int| 0 <= j < self@[k].len() implies self@[k][j].sequence == j
                        + 1 && self@[k][j].aggregate_id == k by {
                        if j < base {
                            assert(old(self)@.contains_key(k));
                            assert(stream_wf(k, old(self)@[k]));
                            assert(old_stream[j] == old(self)@[k][j]);
                        } else {
                            assert(self@[k][j] == full[j - base]);
                        }
                    }
                }
            }
        }
        Ok(committed)
    }
}

} // verus!
