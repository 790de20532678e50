use vstd::prelude::*;
use vstd::string::StringExecFns;

verus! {

/// A domain event of the reservation aggregate.
#[derive(Debug, Clone, PartialEq, Eq)]
pub enum ReservationEvent {
    ReservationMade { hotel_id: String, room_type: String },
    ReservationCancelled,
}

/// The mathematical content of an event.
pub ghost enum EventModel {
    Made { hotel_id: Seq<char>, room_type: Seq<char> },
    Cancelled,
}

impl View for ReservationEvent {
    type V = EventModel;

    open spec fn view(&self) -> EventModel {
        match self {
            ReservationEvent::ReservationMade { hotel_id, room_type } => EventModel::Made {
                hotel_id: hotel_id@,
                room_type: room_type@,
            },
            ReservationEvent::ReservationCancelled => EventModel::Cancelled,
        }
    }
}

/// The name under which an event of this shape is stored.
pub open spec fn event_type_name(e: EventModel) -> Seq<char> {
    match e {
        EventModel::Made { .. } => "ReservationMade"@,
        EventModel::Cancelled => "ReservationCancelled"@,
    }
}

/// The schema version of every event this aggregate emits.
pub open spec fn event_version_name() -> Seq<char> {
    "1.0"@
}

impl ReservationEvent {
    /// The stored type name of this event.
    pub fn event_type(&self) -> (r: String)
        ensures
            r@ == event_type_name(self@),
    {
        match self {
            ReservationEvent::ReservationMade { .. } => String::from_str("ReservationMade"),
            ReservationEvent::ReservationCancelled => String::from_str("ReservationCancelled"),
        }
    }

    /// The schema version of this event.
    pub fn event_version(&self) -> (r: String)
        ensures
            r@ == event_version_name(),
    {
        String::from_str("1.0")
    }

    /// A copy of this event with the same content.
    pub fn duplicate(&self) -> (r: ReservationEvent)
        ensures
            r@ == self@,
    {
        match self {
            ReservationEvent::ReservationMade { hotel_id, room_type } => {
                ReservationEvent::ReservationMade {
                    hotel_id: hotel_id.clone(),
                    room_type: room_type.clone(),
                }
            },
            ReservationEvent::ReservationCancelled => ReservationEvent::ReservationCancelled,
        }
    }
}

/// A command rejected by the aggregate, with a message for the caller.
#[derive(Debug, Clone, PartialEq, Eq)]
pub struct ReservationError(pub String);

impl ReservationError {
    /// An error that carries the given message.
    pub fn new(msg: &str) -> (r: ReservationError)
        ensures
            r.0@ == msg@,
    {
        ReservationError(String::from_str(msg))
    }

    /// The message that explains the rejection.
    pub fn message(&self) -> (r: String)
        ensures
            r@ == self.0@,
    {
        self.0.clone()
    }
}

} // verus!
