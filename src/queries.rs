use vstd::prelude::*;

use crate::event_log::{EnvelopeModel, EventEnvelope};
use crate::events::{EventModel, ReservationEvent};
use crate::keyed::KeyedStore;

verus! {

/// A query that prints each committed event; its output is produced by the
/// application around this library, and it keeps no state of its own.
pub struct SimpleLoggingQuery;

/// The read-side view of one reservation.
#[derive(Debug, Clone, PartialEq, Eq)]
pub struct ReservationView {
    pub hotel_id: String,
    pub room_type: String,
    pub reserved: bool,
    pub reason: String,
}

/// The mathematical content of a view.
pub ghost struct ViewModel {
    pub hotel_id: Seq<char>,
    pub room_type: Seq<char>,
    pub reserved: bool,
    pub reason: Seq<char>,
}

impl View for ReservationView {
    type V = ViewModel;

    open spec fn view(&self) -> ViewModel {
        ViewModel {
            hotel_id: self.hotel_id@,
            room_type: self.room_type@,
            reserved: self.reserved,
            reason: self.reason@,
        }
    }
}

/// The view before any event: unreserved, all text empty.
pub open spec fn empty_view() -> ViewModel {
    ViewModel {
        hotel_id: Seq::empty(),
        room_type: Seq::empty(),
        reserved: false,
        reason: Seq::empty(),
    }
}

/// Folds one event into a view.
pub open spec fn view_apply(v: ViewModel, e: EventModel) -> ViewModel {
    match e {
        EventModel::Made { hotel_id, room_type } => ViewModel {
            hotel_id,
            room_type,
            reserved: true,
            ..v
        },
        EventModel::Cancelled => ViewModel { reserved: false, ..v },
    }
}

/// A stored view together with its watermark: the sequence number of the
/// latest event folded into it.
pub ghost struct ViewRecordModel {
    pub view: ViewModel,
    pub watermark: int,
}

/// Folds a batch of committed events into a stored view, skipping each event
/// whose sequence number is not above the watermark, which it has seen.
pub open spec fn project(r: ViewRecordModel, es: Seq<EnvelopeModel>) -> ViewRecordModel
    decreases es.len(),
{
    if es.len() == 0 {
        r
    } else {
        let prev = project(r, es.drop_last());
        let e = es.last();
        if e.sequence > prev.watermark {
            ViewRecordModel { view: view_apply(prev.view, e.payload), watermark: e.sequence }
        } else {
            prev
        }
    }
}

/// The record of an id in a repository, or a fresh one where there is none.
pub open spec fn record_or_default(m: Map<Seq<char>, ViewRecordModel>, id: Seq<char>) -> ViewRecordModel {
    if m.contains_key(id) {
        m[id]
    } else {
        ViewRecordModel { view: empty_view(), watermark: 0 }
    }
}

/// A projection never lowers the watermark, and afterwards the watermark is
/// at least the sequence number of every event of the batch.
pub proof fn lemma_project_watermark(r: ViewRecordModel, es: Seq<EnvelopeModel>)
    ensures
        project(r, es).watermark >= r.watermark,
        forall|i: int| 0 <= i < es.len() ==> project(r, es).watermark >= #[trigger] es[i].sequence,
    decreases es.len(),
{
    if es.len() > 0 {
        lemma_project_watermark(r, es.drop_last());
        let prev = es.drop_last();
        assert forall|i: int| 0 <= i < es.len() implies project(r, es).watermark
            >= #[trigger] es[i].sequence by {
            if i < es.len() - 1 {
                assert(es[i] == prev[i]);
            }
        }
    }
}

/// Events at or below the watermark leave a stored view as it is.
pub proof fn lemma_project_seen(r: ViewRecordModel, es: Seq<EnvelopeModel>)
    requires
        forall|i: int| 0 <= i < es.len() ==> #[trigger] es[i].sequence <= r.watermark,
    ensures
        project(r, es) == r,
    decreases es.len(),
{
    if es.len() > 0 {
        let prev = es.drop_last();
        assert forall|i: int| 0 <= i < prev.len() implies #[trigger] prev[i].sequence
            <= r.watermark by {
            assert(prev[i] == es[i]);
        }
        lemma_project_seen(r, prev);
    }
}

/// Dispatching events to a view a second time, as a rebuild does, gives the
/// same view as dispatching them once.
pub proof fn lemma_redispatch_idempotent(r: ViewRecordModel, es: Seq<EnvelopeModel>)
    ensures
        project(project(r, es), es) == project(r, es),
{
    lemma_project_watermark(r, es);
    lemma_project_seen(project(r, es), es);
}

impl ReservationView {
    /// A view with no event folded in.
    pub fn new() -> (r: ReservationView)
        ensures
            r@ == empty_view(),
    {
        ReservationView {
            hotel_id: String::new(),
            room_type: String::new(),
            reserved: false,
            reason: String::new(),
        }
    }

    /// Folds one committed event into the view.
    pub fn update(&mut self, event: &EventEnvelope)
        ensures
            final(self)@ == view_apply(old(self)@, event.payload@),
    {
        match &event.payload {
            ReservationEvent::ReservationMade { hotel_id, room_type } => {
                self.hotel_id = hotel_id.clone();
                self.room_type = room_type.clone();
                self.reserved = true;
            },
            ReservationEvent::ReservationCancelled => {
                self.reserved = false;
            },
        }
    }

    /// A copy of this view with the same content.
    pub fn duplicate(&self) -> (r: ReservationView)
        ensures
            r@ == self@,
    {
        ReservationView {
            hotel_id: self.hotel_id.clone(),
            room_type: self.room_type.clone(),
            reserved: self.reserved,
            reason: self.reason.clone(),
        }
    }
}

impl Default for ReservationView {
    fn default() -> (r: ReservationView)
        ensures
            r@ == empty_view(),
    {
        ReservationView::new()
    }
}

struct ViewRecord {
    view: ReservationView,
    watermark: u64,
}

/// A store of views keyed by aggregate id, each with its watermark.
pub struct ViewRepository {
    records: KeyedStore<ViewRecord>,
}

impl View for ViewRepository {
    type V = Map<Seq<char>, ViewRecordModel>;

    closed spec fn view(&self) -> Map<Seq<char>, ViewRecordModel> {
        self.records.view().map_values(
            |r: ViewRecord| ViewRecordModel { view: r.view@, watermark: r.watermark as int },
        )
    }
}

impl ViewRepository {
    pub closed spec fn wf(&self) -> bool {
        self.records.wf()
    }

    /// A repository with no view.
    pub fn new() -> (r: ViewRepository)
        ensures
            r.wf(),
            r@ == Map::<Seq<char>, ViewRecordModel>::empty(),
    {
        let r = ViewRepository { records: KeyedStore::new() };
        assert(r@ =~= Map::<Seq<char>, ViewRecordModel>::empty());
        r
    }

    /// The view of an aggregate, or `None` where no event has been
    /// materialized for it. Reading never stores anything.
    pub fn load(&self, id: &String) -> (r: Option<ReservationView>)
        requires
            self.wf(),
        ensures
            r is Some <==> self@.contains_key(id@),
            r is Some ==> r->Some_0@ == self@[id@].view,
    {
        match self.records.get(id) {
            Some(rec) => Some(rec.view.duplicate()),
            None => None,
        }
    }

    /// The watermark of an aggregate's view: 0 where there is none.
    pub fn watermark(&self, id: &String) -> (r: u64)
        requires
            self.wf(),
        ensures
            r == record_or_default(self@, id@).watermark,
    {
        match self.records.get(id) {
            Some(rec) => rec.watermark,
            None => 0,
        }
    }

    /// Stores a view and its watermark for an aggregate, replacing what was there.
    pub fn upsert(&mut self, id: &String, view: ReservationView, watermark: u64)
        requires
            old(self).wf(),
        ensures
            final(self).wf(),
            final(self)@ == old(self)@.insert(
                id@,
                ViewRecordModel { view: view@, watermark: watermark as int },
            ),
    {
        let ghost vm = view@;
        self.records.insert(id, ViewRecord { view, watermark });
        assert(self@ =~= old(self)@.insert(id@, ViewRecordModel { view: vm, watermark: watermark as int }));
    }

    /// Folds a batch of committed events for one aggregate into its stored
    /// view (a fresh one where there is none), skipping the events the view
    /// has already seen, and stores the result.
    pub fn dispatch(&mut self, id: &String, events: &Vec<EventEnvelope>)
        requires
            old(self).wf(),
        ensures
            final(self).wf(),
            final(self)@ == old(self)@.insert(
                id@,
                project(
                    record_or_default(old(self)@, id@),
                    events@.map_values(|e: EventEnvelope| e@),
                ),
            ),
    {
        let ghost es = events@.map_values(|e: EventEnvelope| e@);
        let (mut view, mut watermark) = match self.records.get(id) {
            Some(rec) => (rec.view.duplicate(), rec.watermark),
            None => (ReservationView::new(), 0),
        };
        let mut i: usize = 0;
        while i < events.len()
            invariant
                i <= events.len(),
                es == events@.map_values(|e: EventEnvelope| e@),
                (ViewRecordModel { view: view@, watermark: watermark as int }) == project(
                    record_or_default(self@, id@),
                    es.take(i as int),
                ),
            decreases events.len() - i,
        {
            assert(es.take(i + 1).drop_last() =~= es.take(i as int));
            let e = &events[i];
            if e.sequence > watermark {
                view.update(e);
                watermark = e.sequence;
            }
            i = i + 1;
        }
        assert(es.take(events.len() as int) =~= es);
        self.upsert(id, view, watermark);
    }
}

} // verus!
