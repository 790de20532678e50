use reservation_cqrs::commands::ReservationCommand;
use reservation_cqrs::event_log::{AppendError, EventLog, Metadata};
use reservation_cqrs::events::ReservationEvent;
use reservation_cqrs::queries::{ReservationView, ViewRepository};
use reservation_cqrs::runtime::{CqrsError, CqrsFramework};

fn make(hotel_id: &str, room_type: &str) -> ReservationCommand {
    ReservationCommand::MakeReservation {
        hotel_id: hotel_id.to_string(),
        room_type: room_type.to_string(),
    }
}

fn made(hotel_id: &str, room_type: &str) -> ReservationEvent {
    ReservationEvent::ReservationMade {
        hotel_id: hotel_id.to_string(),
        room_type: room_type.to_string(),
    }
}

fn meta() -> Metadata {
    vec![("time".to_string(), "noon".to_string())]
}

#[test]
fn first_command_gets_sequence_one() {
    let mut cqrs = CqrsFramework::new(1);
    let id = "id".to_string();
    let committed = cqrs.execute(&id, make("id", "Queen"), &meta()).unwrap();
    assert_eq!(committed.len(), 1);
    assert_eq!(committed[0].payload, made("id", "Queen"));
    assert_eq!(committed[0].sequence, 1);
    assert_eq!(committed[0].aggregate_id, "id");
    assert_eq!(committed[0].metadata, meta());
    assert_eq!(cqrs.log().current_sequence(&id), 1);
}

#[test]
fn cancel_gets_sequence_two_and_updates_view() {
    let mut cqrs = CqrsFramework::new(1);
    let id = "id".to_string();
    cqrs.execute(&id, make("id", "Queen"), &Vec::new()).unwrap();
    let committed = cqrs.execute(&id, ReservationCommand::CancelReservation, &Vec::new()).unwrap();
    assert_eq!(committed.len(), 1);
    assert_eq!(committed[0].payload, ReservationEvent::ReservationCancelled);
    assert_eq!(committed[0].sequence, 2);
    let view = cqrs.query(0).load(&id).unwrap();
    assert_eq!(view.hotel_id, "id");
    assert_eq!(view.room_type, "Queen");
    assert!(!view.reserved);
    assert_eq!(cqrs.query(0).watermark(&id), 2);
    let history = cqrs.log().load(&id);
    assert_eq!(history.iter().map(|e| e.sequence).collect::<Vec<u64>>(), vec![1, 2]);
}

#[test]
fn rejected_command_records_nothing() {
    let mut cqrs = CqrsFramework::new(1);
    let id = "r1".to_string();
    let r = cqrs.execute(&id, ReservationCommand::CancelReservation, &Vec::new());
    assert!(matches!(r, Err(CqrsError::Domain(_))));
    assert_eq!(cqrs.log().current_sequence(&id), 0);
    assert!(cqrs.query(0).load(&id).is_none());
}

#[test]
fn redispatch_leaves_view_unchanged() {
    let mut log = EventLog::new();
    let id = "a".to_string();
    let first = log.append(&id, 0, vec![made("h", "Queen")], &Vec::new()).unwrap();
    let second = log.append(&id, 1, vec![ReservationEvent::ReservationCancelled], &Vec::new()).unwrap();
    let mut once = ViewRepository::new();
    once.dispatch(&id, &first);
    once.dispatch(&id, &second);
    let mut twice = ViewRepository::new();
    twice.dispatch(&id, &first);
    twice.dispatch(&id, &second);
    twice.dispatch(&id, &first);
    twice.dispatch(&id, &log.load(&id));
    assert_eq!(once.load(&id), twice.load(&id));
    assert_eq!(twice.watermark(&id), 2);
    assert!(!twice.load(&id).unwrap().reserved);
}

#[test]
fn concurrent_append_conflicts() {
    let mut cqrs = CqrsFramework::new(1);
    let id = "c".to_string();
    let (seq_a, events_a) = cqrs.prepare(&id, make("h", "Queen")).unwrap();
    let (seq_b, events_b) = cqrs.prepare(&id, make("h", "King")).unwrap();
    assert_eq!(seq_a, 0);
    assert_eq!(seq_b, 0);
    assert!(cqrs.commit(&id, seq_a, events_a, &Vec::new()).is_ok());
    let r = cqrs.commit(&id, seq_b, events_b, &Vec::new());
    assert_eq!(r, Err(CqrsError::ConcurrencyConflict));
    let history = cqrs.log().load(&id);
    assert_eq!(history.len(), 1);
    assert_eq!(history[0].payload, made("h", "Queen"));
    assert_eq!(cqrs.query(0).load(&id).unwrap().room_type, "Queen");
}

#[test]
fn log_append_conflict_keeps_log() {
    let mut log = EventLog::new();
    let id = "l".to_string();
    assert_eq!(
        log.append(&id, 3, vec![made("h", "Queen")], &Vec::new()),
        Err(AppendError::ConcurrencyConflict)
    );
    assert!(log.load(&id).is_empty());
    let batch = log
        .append(&id, 0, vec![made("h", "Queen"), ReservationEvent::ReservationCancelled], &meta())
        .unwrap();
    assert_eq!(batch.iter().map(|e| e.sequence).collect::<Vec<u64>>(), vec![1, 2]);
    assert_eq!(log.current_sequence(&id), 2);
}

#[test]
fn every_query_gets_its_own_update() {
    let mut cqrs = CqrsFramework::new(2);
    assert_eq!(cqrs.query_count(), 2);
    let id = "q".to_string();
    cqrs.execute(&id, make("h", "Queen"), &Vec::new()).unwrap();
    for i in 0..2 {
        let v = cqrs.query(i).load(&id).unwrap();
        assert!(v.reserved);
        assert_eq!(v.hotel_id, "h");
    }
}

#[test]
fn unknown_id_is_not_found() {
    let mut cqrs = CqrsFramework::new(1);
    cqrs.execute(&"known".to_string(), make("h", "Queen"), &Vec::new()).unwrap();
    let unknown = "unknown".to_string();
    assert_eq!(cqrs.query(0).load(&unknown), None);
    assert_eq!(cqrs.query(0).load(&unknown), None);
    assert_eq!(cqrs.query(0).watermark(&unknown), 0);
    assert!(cqrs.log().load(&unknown).is_empty());
}

#[test]
fn view_update_folds_events() {
    let mut log = EventLog::new();
    let id = "v".to_string();
    let batch = log.append(&id, 0, vec![made("h", "Twin")], &Vec::new()).unwrap();
    let mut view = ReservationView::default();
    view.update(&batch[0]);
    assert!(view.reserved);
    assert_eq!(view.room_type, "Twin");
    assert_eq!(view.reason, "");
}
