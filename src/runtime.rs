use vstd::prelude::*;

use crate::aggregate::{
    decide, event_models, initial_state, lemma_decide_then_apply, lemma_replay_concat,
    nothing_to_cancel, replay, transition, Reservation,
};
use crate::commands::{CommandModel, ReservationCommand};
use crate::event_log::{
    append_outcome, batch, envelope_models, metadata_model, payloads, stream_of, AppendError,
    EnvelopeModel, EventEnvelope, EventLog, Metadata,
};
use crate::events::{EventModel, ReservationError, ReservationEvent};
use crate::queries::{project, record_or_default, ViewRecordModel, ViewRepository};

verus! {

/// Why a command was not carried out.
#[derive(Debug, Clone, PartialEq, Eq)]
pub enum CqrsError {
    /// The aggregate rejected the command.
    Domain(ReservationError),
    /// The stream moved on since the state the command was decided on.
    ConcurrencyConflict,
    /// The stream has no sequence numbers left for the batch.
    SequenceExhausted,
}

/// The error that reports a refused append.
pub open spec fn reports(err: CqrsError, e: AppendError) -> bool {
    match e {
        AppendError::ConcurrencyConflict => err is ConcurrencyConflict,
        AppendError::SequenceExhausted => err is SequenceExhausted,
    }
}

/// The mathematical content of a framework: its event log and the stored
/// views of each registered query.
pub ghost struct FrameworkModel {
    pub log: Map<Seq<char>, Seq<EnvelopeModel>>,
    pub views: Seq<Map<Seq<char>, ViewRecordModel>>,
}

/// Each query folds the committed batch into its own view of the aggregate;
/// what one query holds has no bearing on another.
pub open spec fn dispatch_all(
    views: Seq<Map<Seq<char>, ViewRecordModel>>,
    id: Seq<char>,
    committed: Seq<EnvelopeModel>,
) -> Seq<Map<Seq<char>, ViewRecordModel>> {
    views.map_values(
        |v: Map<Seq<char>, ViewRecordModel>| v.insert(id, project(record_or_default(v, id), committed)),
    )
}

/// What committing a decided batch does: append it, then dispatch it to
/// every query; or the refusal of the append, with nothing changed.
pub open spec fn commit_outcome(
    m: FrameworkModel,
    id: Seq<char>,
    expected: int,
    es: Seq<EventModel>,
    md: Seq<(Seq<char>, Seq<char>)>,
) -> Result<FrameworkModel, AppendError> {
    match append_outcome(m.log, id, expected, es, md) {
        Ok(log) => Ok(
            FrameworkModel { log, views: dispatch_all(m.views, id, batch(id, expected, es, md)) },
        ),
        Err(e) => Err(e),
    }
}

/// The state of an aggregate as its stream in a log rebuilds it.
pub open spec fn current_state(
    log: Map<Seq<char>, Seq<EnvelopeModel>>,
    id: Seq<char>,
) -> crate::aggregate::ReservationState {
    replay(initial_state(), payloads(stream_of(log, id)))
}

/// Committing the events that a command was decided into moves the state
/// that the log rebuilds exactly as carrying out the command directly would.
pub proof fn lemma_commit_advances_state(
    m: FrameworkModel,
    id: Seq<char>,
    c: CommandModel,
    md: Seq<(Seq<char>, Seq<char>)>,
)
    requires
        decide(current_state(m.log, id), c) is Some,
        commit_outcome(
            m,
            id,
            stream_of(m.log, id).len() as int,
            decide(current_state(m.log, id), c)->Some_0,
            md,
        ) is Ok,
    ensures
        current_state(
            commit_outcome(
                m,
                id,
                stream_of(m.log, id).len() as int,
                decide(current_state(m.log, id), c)->Some_0,
                md,
            )->Ok_0.log,
            id,
        ) == transition(current_state(m.log, id), c),
{
    let old_stream = stream_of(m.log, id);
    let es = decide(current_state(m.log, id), c)->Some_0;
    let b = batch(id, old_stream.len() as int, es, md);
    let m2 = commit_outcome(m, id, old_stream.len() as int, es, md)->Ok_0;
    assert(stream_of(m2.log, id) == old_stream + b);
    assert(payloads(old_stream + b) =~= payloads(old_stream) + es);
    lemma_replay_concat(initial_state(), payloads(old_stream), es);
    lemma_decide_then_apply(current_state(m.log, id), c);
}

/// Two writers that both decided on the same state of a stream and both
/// append at its current sequence number: the first to arrive succeeds, and
/// the second is refused as a concurrency conflict, leaving the log as the
/// first left it.
pub proof fn lemma_concurrent_commits(
    m: FrameworkModel,
    id: Seq<char>,
    expected: int,
    first: Seq<EventModel>,
    second: Seq<EventModel>,
    md1: Seq<(Seq<char>, Seq<char>)>,
    md2: Seq<(Seq<char>, Seq<char>)>,
)
    requires
        expected == stream_of(m.log, id).len(),
        expected + first.len() <= u64::MAX,
        first.len() > 0,
    ensures
        commit_outcome(m, id, expected, first, md1) is Ok,
        commit_outcome(commit_outcome(m, id, expected, first, md1)->Ok_0, id, expected, second, md2)
            == Err::<FrameworkModel, AppendError>(AppendError::ConcurrencyConflict),
{
    let m1 = commit_outcome(m, id, expected, first, md1)->Ok_0;
    assert(stream_of(m1.log, id).len() == expected + first.len());
}

/// Views are updated per query: after a commit, each query's store is what
/// that query alone made of the batch, whatever the other queries hold.
pub proof fn lemma_queries_independent(
    m: FrameworkModel,
    id: Seq<char>,
    expected: int,
    es: Seq<EventModel>,
    md: Seq<(Seq<char>, Seq<char>)>,
    q: int,
)
    requires
        commit_outcome(m, id, expected, es, md) is Ok,
        0 <= q < m.views.len(),
    ensures
        commit_outcome(m, id, expected, es, md)->Ok_0.views[q] == m.views[q].insert(
            id,
            project(record_or_default(m.views[q], id), batch(id, expected, es, md)),
        ),
{
}

/// The event log together with the view-materializing queries fed from it.
pub struct CqrsFramework {
    log: EventLog,
    queries: Vec<ViewRepository>,
}

impl View for CqrsFramework {
    type V = FrameworkModel;

    closed spec fn view(&self) -> FrameworkModel {
        FrameworkModel {
            log: self.log@,
            views: self.queries@.map_values(|q: ViewRepository| q@),
        }
    }
}

impl CqrsFramework {
    pub closed spec fn wf(&self) -> bool {
        &&& self.log.wf()
        &&& forall|i: int| 0 <= i < self.queries.len() ==> #[trigger] self.queries@[i].wf()
    }

    /// A framework with an empty log and the given number of queries, each
    /// with an empty view store.
    pub fn new(query_count: usize) -> (r: CqrsFramework)
        ensures
            r.wf(),
            r@.log == Map::<Seq<char>, Seq<EnvelopeModel>>::empty(),
            r@.views == Seq::new(
                query_count as nat,
                |i: int| Map::<Seq<char>, ViewRecordModel>::empty(),
            ),
    {
        let mut queries: Vec<ViewRepository> = Vec::new();
        let mut i: usize = 0;
        while i < query_count
            invariant
                i <= query_count,
                queries.len() == i,
                forall|j: int| 0 <= j < i ==> #[trigger] queries@[j].wf(),
                forall|j: int| 0 <= j < i ==> #[trigger] queries@[j]@ == Map::<
                    Seq<char>,
                    ViewRecordModel,
                >::empty(),
            decreases query_count - i,
        {
            queries.push(ViewRepository::new());
            i = i + 1;
        }
        let r = CqrsFramework { log: EventLog::new(), queries };
        assert(r@.views =~= Seq::new(
            query_count as nat,
            |i: int| Map::<Seq<char>, ViewRecordModel>::empty(),
        ));
        r
    }

    /// The event log.
    pub fn log(&self) -> (r: &EventLog)
        ensures
            r@ == self@.log,
            self.wf() ==> r.wf(),
    {
        &self.log
    }

    /// The number of registered queries.
    pub fn query_count(&self) -> (r: usize)
        ensures
            r == self@.views.len(),
    {
        self.queries.len()
    }

    /// The view store of one query.
    pub fn query(&self, i: usize) -> (r: &ViewRepository)
        requires
            i < self@.views.len(),
        ensures
            r@ == self@.views[i as int],
            self.wf() ==> r.wf(),
    {
        &self.queries[i]
    }

    /// Loads an aggregate's history and decides a command against the state
    /// it rebuilds. On acceptance, gives the sequence number the history ends
    /// at and the events to record. Changes nothing.
    pub fn prepare(&self, id: &String, command: ReservationCommand) -> (r: Result<
        (u64, Vec<ReservationEvent>),
        ReservationError,
    >)
        requires
            self.wf(),
        ensures
            match decide(current_state(self@.log, id@), command@) {
                Some(es) => r is Ok && r->Ok_0.0 == stream_of(self@.log, id@).len()
                    && event_models(r->Ok_0.1@) == es,
                None => r is Err && r->Err_0.0@ == nothing_to_cancel(),
            },
    {
        let history = self.log.load(id);
        let mut events: Vec<ReservationEvent> = Vec::new();
        let mut i: usize = 0;
        while i < history.len()
            invariant
                i <= history.len(),
                events.len() == i,
                forall|j: int| 0 <= j < i ==> #[trigger] events@[j]@ == history@[j].payload@,
            decreases history.len() - i,
        {
            events.push(history[i].payload.duplicate());
            i = i + 1;
        }
        assert(event_models(events@) =~= payloads(envelope_models(history@)));
        let state = Reservation::from_events(&events);
        let expected = self.log.current_sequence(id);
        match state.handle(command) {
            Ok(es) => Ok((expected, es)),
            Err(e) => Err(e),
        }
    }

    /// Appends a decided batch at `expected` and, once it is recorded,
    /// dispatches the committed events in order to every query. A refused
    /// append changes nothing and reaches no query.
    pub fn commit(
        &mut self,
        id: &String,
        expected: u64,
        events: Vec<ReservationEvent>,
        metadata: &Metadata,
    ) -> (r: Result<Vec<EventEnvelope>, CqrsError>)
        requires
            old(self).wf(),
        ensures
            final(self).wf(),
            match commit_outcome(
                old(self)@,
                id@,
                expected as int,
                event_models(events@),
                metadata_model(metadata@),
            ) {
                Ok(m) => r is Ok && final(self)@ == m && envelope_models(r->Ok_0@) == batch(
                    id@,
                    expected as int,
                    event_models(events@),
                    metadata_model(metadata@),
                ),
                Err(e) => r is Err && reports(r->Err_0, e) && final(self)@ == old(self)@,
            },
    {
        let committed = match self.log.append(id, expected, events, metadata) {
            Ok(c) => c,
            Err(AppendError::ConcurrencyConflict) => {
                return Err(CqrsError::ConcurrencyConflict);
            },
            Err(AppendError::SequenceExhausted) => {
                return Err(CqrsError::SequenceExhausted);
            },
        };
        let ghost cm = envelope_models(committed@);
        let ghost views0 = old(self)@.views;
        let ghost log1 = self.log@;
        let mut q: usize = 0;
        while q < self.queries.len()
            invariant
                q <= self.queries.len(),
                self.log.wf(),
                self.log@ == log1,
                self.queries.len() == views0.len(),
                cm == envelope_models(committed@),
                forall|j: int| 0 <= j < self.queries.len() ==> #[trigger] self.queries@[j].wf(),
                forall|j: int| 0 <= j < q ==> #[trigger] self.queries@[j]@ == views0[j].insert(
                    id@,
                    project(record_or_default(views0[j], id@), cm),
                ),
                forall|j: int| q <= j < self.queries.len() ==> #[trigger] self.queries@[j]@
                    == views0[j],
            decreases self.queries.len() - q,
        {
            assert(committed@.map_values(|e: EventEnvelope| e@) == cm);
            self.queries[q].dispatch(id, &committed);
            q = q + 1;
        }
        proof {
            let want = dispatch_all(views0, id@, cm);
            assert(self@.views =~= want);
        }
        Ok(committed)
    }

    /// Carries out a command against an aggregate: rebuilds its state from
    /// its history, decides the command, appends the resulting events and
    /// dispatches them to every query. A rejected command records nothing
    /// and reaches no query.
    pub fn execute(&mut self, id: &String, command: ReservationCommand, metadata: &Metadata) -> (r:
        Result<Vec<EventEnvelope>, CqrsError>)
        requires
            old(self).wf(),
        ensures
            final(self).wf(),
            match decide(current_state(old(self)@.log, id@), command@) {
                None => r is Err && r->Err_0 is Domain && r->Err_0->Domain_0.0@ == nothing_to_cancel()
                    && final(self)@ == old(self)@,
                Some(es) => match commit_outcome(
                    old(self)@,
                    id@,
                    stream_of(old(self)@.log, id@).len() as int,
                    es,
                    metadata_model(metadata@),
                ) {
                    Ok(m) => r is Ok && final(self)@ == m && envelope_models(r->Ok_0@) == batch(
                        id@,
                        stream_of(old(self)@.log, id@).len() as int,
                        es,
                        metadata_model(metadata@),
                    ),
                    Err(e) => r is Err && reports(r->Err_0, e) && final(self)@ == old(self)@,
                },
            },
    {
        match self.prepare(id, command) {
            Ok((expected, events)) => self.commit(id, expected, events, metadata),
            Err(e) => Err(CqrsError::Domain(e)),
        }
    }
}

} // verus!
