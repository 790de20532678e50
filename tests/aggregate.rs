use reservation_cqrs::aggregate::Reservation;
use reservation_cqrs::commands::ReservationCommand;
use reservation_cqrs::events::{ReservationError, ReservationEvent};

fn made(hotel_id: &str, room_type: &str) -> ReservationEvent {
    ReservationEvent::ReservationMade {
        hotel_id: hotel_id.to_string(),
        room_type: room_type.to_string(),
    }
}

fn when(given: Vec<ReservationEvent>, command: ReservationCommand) -> Result<Vec<ReservationEvent>, ReservationError> {
    Reservation::from_events(&given).handle(command)
}

#[test]
fn test_make_reservation() {
    let expected = made("id", "Queen");
    let command = ReservationCommand::MakeReservation {
        hotel_id: "id".to_string(),
        room_type: "Queen".to_string(),
    };
    assert_eq!(when(vec![], command), Ok(vec![expected]));
}

#[test]
fn test_cancel_reservation() {
    let previous = made("id", "Queen");
    let expected = ReservationEvent::ReservationCancelled;
    let command = ReservationCommand::CancelReservation;
    assert_eq!(when(vec![previous], command), Ok(vec![expected]));
}

#[test]
fn cancel_without_reservation_is_rejected() {
    let r = when(vec![], ReservationCommand::CancelReservation);
    assert_eq!(
        r,
        Err(ReservationError::new("there is no reservation to cancel"))
    );
    let r = when(
        vec![made("id", "Queen"), ReservationEvent::ReservationCancelled],
        ReservationCommand::CancelReservation,
    );
    assert!(r.is_err());
}

#[test]
fn error_message_is_kept() {
    let e = ReservationError::new("no room");
    assert_eq!(e.message(), "no room".to_string());
}

#[test]
fn fold_reproduces_command_effects() {
    let mut state = Reservation::new();
    assert!(!state.is_reserved());
    let commands = vec![
        ReservationCommand::MakeReservation { hotel_id: "h1".to_string(), room_type: "Twin".to_string() },
        ReservationCommand::CancelReservation,
        ReservationCommand::MakeReservation { hotel_id: "h2".to_string(), room_type: "King".to_string() },
    ];
    let mut log: Vec<ReservationEvent> = Vec::new();
    for c in commands {
        let events = state.handle(c).unwrap();
        for e in events {
            log.push(e.clone());
            state.apply(e);
        }
    }
    assert_eq!(log.len(), 3);
    let rebuilt = Reservation::from_events(&log);
    assert!(rebuilt.is_reserved());
    assert_eq!(rebuilt.hotel_id(), "h2");
    assert_eq!(rebuilt.room_type(), "King");
    assert_eq!(rebuilt.reason(), "");
    assert_eq!(rebuilt.hotel_id(), state.hotel_id());
    assert_eq!(rebuilt.is_reserved(), state.is_reserved());
}

#[test]
fn make_then_cancel_yield_one_event_each() {
    let first = when(vec![], ReservationCommand::MakeReservation {
        hotel_id: "h".to_string(),
        room_type: "Suite".to_string(),
    })
    .unwrap();
    assert_eq!(first, vec![made("h", "Suite")]);
    let second = when(first, ReservationCommand::CancelReservation).unwrap();
    assert_eq!(second, vec![ReservationEvent::ReservationCancelled]);
}

#[test]
fn event_names_and_version() {
    assert_eq!(made("a", "b").event_type(), "ReservationMade");
    assert_eq!(ReservationEvent::ReservationCancelled.event_type(), "ReservationCancelled");
    assert_eq!(made("a", "b").event_version(), "1.0");
    assert_eq!(Reservation::aggregate_type(), "reservation");
}

#[test]
fn default_state_is_unreserved() {
    let s = Reservation::default();
    assert!(!s.is_reserved());
    assert_eq!(s.hotel_id(), "");
    assert_eq!(made("x", "y").duplicate(), made("x", "y"));
}
