use rust_pin_service::pincode::lifecycle::{
    pin_code_response, reservation_expiry, reserve_start, reserve_step, take_start, take_step,
    ReserveAction, ReserveEvent, ReserveState, TakeAction, TakeEvent, TakeState,
    RESERVATION_TTL_MILLIS,
};
use rust_pin_service::pincode::model::repository::{
    PinCodeRepository, PinCodeReservationRepository, RepositoryError,
};
use rust_pin_service::pincode::model::{ObjectId, PinCode, PinCodeReservation, PinStatus};
use rust_pin_service::pincode::service::report_of;
use rust_pin_service::vault::{Code, Status};

const CODE: ObjectId = ObjectId { seconds: 10, unique: 1 };
const HOLD: ObjectId = ObjectId { seconds: 20, unique: 2 };

#[test]
fn reservation_lasts_three_minutes() {
    assert_eq!(RESERVATION_TTL_MILLIS, 3 * 60 * 1000);
    assert_eq!(reservation_expiry(0), Some(180_000));
    assert_eq!(reservation_expiry(1_700_000_000_000), Some(1_700_000_180_000));
    assert_eq!(reservation_expiry(-180_000), Some(0));
    assert_eq!(reservation_expiry(i64::MIN), Some(i64::MIN + 180_000));
    assert_eq!(reservation_expiry(i64::MAX - 180_000), Some(i64::MAX));
    assert_eq!(reservation_expiry(i64::MAX - 179_999), None);
    assert_eq!(reservation_expiry(i64::MAX), None);
}

#[test]
fn reserve_steps_from_selection_to_answer() {
    let (state, action) = reserve_step(reserve_start(), ReserveEvent::Selected { candidate: Some(CODE), now: 1000 });
    assert_eq!(state, ReserveState::Recording { code: CODE, now: 1000, expires_at: 181_000 });
    match action {
        ReserveAction::InsertReservation(hold) => {
            assert_eq!(hold, PinCodeReservation { id: None, pincode_id: Some(CODE), reserved_at: 1000 })
        }
        other => panic!("{:?}", other),
    }
    let (state, action) = reserve_step(state, ReserveEvent::Recorded(Ok(HOLD)));
    assert_eq!(state, ReserveState::Marking { reservation: HOLD });
    match action {
        ReserveAction::ReservePinCode { id, reservation, now, expires_at } => {
            assert_eq!((id, reservation, now, expires_at), (CODE, HOLD, 1000, 181_000))
        }
        other => panic!("{:?}", other),
    }
    let (state, action) = reserve_step(state, ReserveEvent::Marked(Ok(CODE)));
    assert_eq!(state, ReserveState::Done);
    match action {
        ReserveAction::Respond(Ok(reply)) => {
            assert!(reply.success);
            assert_eq!(reply.message, "PIN reserved");
            assert_eq!(reply.id, "000000140000000000000002");
        }
        other => panic!("{:?}", other),
    }
}

#[test]
fn reserve_ends_early_where_nothing_is_selected() {
    let (state, action) = reserve_step(ReserveState::Selecting, ReserveEvent::Selected { candidate: None, now: 1000 });
    assert_eq!(state, ReserveState::Done);
    match action {
        ReserveAction::Respond(Ok(reply)) => {
            assert!(!reply.success);
            assert_eq!(reply.message, "No PIN Available!");
            assert_eq!(reply.id, "");
        }
        other => panic!("{:?}", other),
    }
}

fn failure_of(action: ReserveAction) -> Status {
    match action {
        ReserveAction::Respond(Err(status)) => status,
        other => panic!("{:?}", other),
    }
}

#[test]
fn reserve_surfaces_store_failures_as_internal_errors() {
    let recording = ReserveState::Recording { code: CODE, now: 1000, expires_at: 181_000 };
    let (state, action) = reserve_step(recording, ReserveEvent::Recorded(Err("store is down".to_string())));
    assert_eq!(state, ReserveState::Done);
    let status = failure_of(action);
    assert_eq!(status.code, Code::Internal);
    assert_eq!(status.message, "Failed to insert reservation: store is down");
    let marking = ReserveState::Marking { reservation: HOLD };
    let (state, action) = reserve_step(marking, ReserveEvent::Marked(Err("No matching document found to update".to_string())));
    assert_eq!(state, ReserveState::Done);
    let status = failure_of(action);
    assert_eq!(status.code, Code::Internal);
    assert_eq!(status.message, "Failed to reserve pin code: No matching document found to update");
    let (state, action) = reserve_step(ReserveState::Selecting, ReserveEvent::Selected { candidate: Some(CODE), now: i64::MAX });
    assert_eq!(state, ReserveState::Done);
    assert_eq!(failure_of(action).message, "Failed to reserve pin code: expiry out of range");
}

#[test]
fn reserve_reports_a_failed_selection_as_an_internal_error() {
    let (state, action) =
        reserve_step(reserve_start(), ReserveEvent::SelectionFailed("store is down".to_string()));
    assert_eq!(state, ReserveState::Done);
    let status = failure_of(action);
    assert_eq!(status.code, Code::Internal);
    assert_eq!(status.message, "Failed to select pin code: store is down");
    let marking = ReserveState::Marking { reservation: HOLD };
    let (state, action) = reserve_step(marking, ReserveEvent::SelectionFailed("late".to_string()));
    assert_eq!(state, ReserveState::Done);
    assert_eq!(failure_of(action).message, "Failed to reserve pin code: unexpected event");
}

#[test]
fn take_reports_a_failed_resolution_as_an_internal_error() {
    let (state, action) = take_step(
        take_start("abc".to_string()),
        TakeEvent::ResolutionFailed("store is down".to_string()),
    );
    assert!(matches!(state, TakeState::Done));
    match action {
        TakeAction::Respond(Err(status)) => {
            assert_eq!(status.code, Code::Internal);
            assert_eq!(status.message, "Failed to resolve reservation: store is down");
        }
        other => panic!("{:?}", other),
    }
    let purchasing =
        TakeState::Purchasing { reservation_id: "abc".to_string(), pin_code: "4711".to_string() };
    let (_, action) = take_step(purchasing, TakeEvent::ResolutionFailed("late".to_string()));
    assert!(matches!(action, TakeAction::Respond(Err(status)) if status.message == "Failed to reserve pin code: unexpected event"));
}

#[test]
fn reserve_rejects_events_out_of_turn() {
    for (state, event) in [
        (ReserveState::Selecting, ReserveEvent::Recorded(Ok(HOLD))),
        (ReserveState::Selecting, ReserveEvent::Marked(Ok(CODE))),
        (ReserveState::Marking { reservation: HOLD }, ReserveEvent::Recorded(Ok(HOLD))),
        (ReserveState::Done, ReserveEvent::Selected { candidate: Some(CODE), now: 1 }),
        (ReserveState::Done, ReserveEvent::Marked(Ok(CODE))),
    ] {
        let (state, action) = reserve_step(state, event);
        assert_eq!(state, ReserveState::Done);
        let status = failure_of(action);
        assert_eq!(status.code, Code::Internal);
        assert_eq!(status.message, "Failed to reserve pin code: unexpected event");
    }
}

#[test]
fn take_steps_from_resolution_to_answer() {
    let start = take_start("abc".to_string());
    assert!(matches!(&start, TakeState::Resolving { reservation_id } if reservation_id == "abc"));
    let (state, action) = take_step(start, TakeEvent::Resolved { held: Some((CODE, "4711".to_string())), now: 2000 });
    assert!(matches!(&state, TakeState::Purchasing { reservation_id, pin_code } if reservation_id == "abc" && pin_code == "4711"));
    assert!(matches!(action, TakeAction::PurchasePinCode { id: CODE, now: 2000 }));
    let (state, action) = take_step(state, TakeEvent::Purchased(Ok(CODE)));
    assert!(matches!(state, TakeState::Done));
    match action {
        TakeAction::Respond(Ok(reply)) => {
            assert!(reply.success);
            assert_eq!(reply.message, "PIN reserved");
            assert_eq!(reply.id, "abc");
            assert_eq!(reply.pin_code, "4711");
        }
        other => panic!("{:?}", other),
    }
}

#[test]
fn take_gives_nothing_where_nothing_is_held() {
    let (state, action) = take_step(take_start("abc".to_string()), TakeEvent::Resolved { held: None, now: 2000 });
    assert!(matches!(state, TakeState::Done));
    match action {
        TakeAction::Respond(Ok(reply)) => {
            assert!(!reply.success);
            assert_eq!(reply.message, "Reservation does not exist anymore!");
            assert_eq!(reply.id, "");
            assert_eq!(reply.pin_code, "");
        }
        other => panic!("{:?}", other),
    }
}

#[test]
fn take_surfaces_failures_and_rejects_events_out_of_turn() {
    let purchasing = TakeState::Purchasing { reservation_id: "abc".to_string(), pin_code: "4711".to_string() };
    let (state, action) = take_step(purchasing, TakeEvent::Purchased(Err("gone".to_string())));
    assert!(matches!(state, TakeState::Done));
    match action {
        TakeAction::Respond(Err(status)) => {
            assert_eq!(status.code, Code::Internal);
            assert_eq!(status.message, "Failed to reserve pin code: gone");
        }
        other => panic!("{:?}", other),
    }
    let (state, action) = take_step(take_start("abc".to_string()), TakeEvent::Purchased(Ok(CODE)));
    assert!(matches!(state, TakeState::Done));
    assert!(matches!(action, TakeAction::Respond(Err(status)) if status.message == "Failed to reserve pin code: unexpected event"));
    let (_, action) = take_step(TakeState::Done, TakeEvent::Resolved { held: None, now: 1 });
    assert!(matches!(action, TakeAction::Respond(Err(_))));
}

#[test]
fn lookup_answers() {
    let found = pin_code_response("id-1".to_string(), Some("4711".to_string()));
    assert!(found.success);
    assert_eq!((found.message.as_str(), found.id.as_str(), found.pin_code.as_str()), ("PIN found", "id-1", "4711"));
    let missing = pin_code_response("id-2".to_string(), None);
    assert!(!missing.success);
    assert_eq!((missing.message.as_str(), missing.id.as_str(), missing.pin_code.as_str()), ("PIN not found", "id-2", ""));
}

#[test]
fn store_reports_are_put_in_words() {
    assert_eq!(report_of(Ok(CODE)), Ok(CODE));
    assert_eq!(report_of(Err(RepositoryError::NotFound)), Err("No matching document found to update".to_string()));
    assert_eq!(report_of(Err(RepositoryError::InvalidId)), Err("Invalid ObjectId string".to_string()));
}

#[test]
fn status_constructors() {
    let status = Status::internal("a");
    assert_eq!((status.code, status.message.as_str()), (Code::Internal, "a"));
    let status = Status::internal_with("a: ", "b");
    assert_eq!((status.code, status.message.as_str()), (Code::Internal, "a: b"));
    let status = Status::invalid_argument("c");
    assert_eq!((status.code, status.message.as_str()), (Code::InvalidArgument, "c"));
}

// Two calls to reserve that both select before either marks: the store
// matches by identifier alone, so both win and the later mark stands.
#[test]
fn interleaved_reserve_calls_both_win_the_same_code() {
    let mut codes = PinCodeRepository::new();
    let mut log = PinCodeReservationRepository::new();
    let code = codes.insert_one(PinCode::active("4711".to_string(), "enc".to_string(), 1)).unwrap();
    let select = |codes: &PinCodeRepository| codes.find_available_at(1000).map(|c| c.id.unwrap());
    let (a, insert_a) = reserve_step(reserve_start(), ReserveEvent::Selected { candidate: select(&codes), now: 1000 });
    let (b, insert_b) = reserve_step(reserve_start(), ReserveEvent::Selected { candidate: select(&codes), now: 1000 });
    let mut run = |state: ReserveState, action: ReserveAction, codes: &mut PinCodeRepository| {
        let hold = match action {
            ReserveAction::InsertReservation(hold) => hold,
            other => panic!("{:?}", other),
        };
        let (state, action) = reserve_step(state, ReserveEvent::Recorded(report_of(log.insert_one(hold))));
        let marked = match action {
            ReserveAction::ReservePinCode { id, reservation, now, expires_at } => {
                codes.reserve_pincode(&id.to_hex(), &reservation.to_hex(), now, expires_at)
            }
            other => panic!("{:?}", other),
        };
        match reserve_step(state, ReserveEvent::Marked(report_of(marked))).1 {
            ReserveAction::Respond(Ok(reply)) => reply,
            other => panic!("{:?}", other),
        }
    };
    let first = run(a, insert_a, &mut codes);
    let second = run(b, insert_b, &mut codes);
    assert!(first.success && second.success);
    assert_ne!(first.id, second.id);
    let stored = codes.find_by_id(&code.to_hex()).unwrap();
    assert_eq!(stored.status, PinStatus::Reserved);
    assert_eq!(stored.reservation_id, ObjectId::parse_str(&second.id));
    assert!(codes.find_by_reservation_id_at(&first.id, 1000).is_none());
    assert!(codes.find_by_reservation_id_at(&second.id, 1000).is_some());
}
