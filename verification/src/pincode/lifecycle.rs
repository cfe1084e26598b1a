use crate::pincode::model::{hex_of_object_id, object_id_hex, Millis, ObjectId, PinCodeReservation};
use crate::vault::{
    PinCodeResponse, PinCodeResponseView, ReservationResponse, ReservationResponseView, Status,
    StatusView,
};
use vstd::prelude::*;
use vstd::string::*;

verus! {

/// How long a reservation holds its code: three minutes.
pub const RESERVATION_TTL_MILLIS: Millis = 180_000;

/// Where a call to reserve a code stands.
#[derive(Clone, Copy, Debug, PartialEq, Eq, Structural)]
pub enum ReserveState {
    /// The store has been asked for a code that may be reserved.
    Selecting,
    /// The log has been asked to record the hold on `code`.
    Recording { code: ObjectId, now: Millis, expires_at: Millis },
    /// The store has been asked to mark the code as held by `reservation`.
    Marking { reservation: ObjectId },
    /// The call has been answered.
    Done,
}

/// What the stores report back to a call to reserve a code.
#[derive(Debug)]
pub enum ReserveEvent {
    /// The identifier of the code selected at `now`, if there was one.
    Selected { candidate: Option<ObjectId>, now: Millis },
    /// Why the store could not be asked for a code.
    SelectionFailed(String),
    /// The identifier the reservation was logged under, or why it was not.
    Recorded(Result<ObjectId, String>),
    /// The identifier of the code marked, or why none was.
    Marked(Result<ObjectId, String>),
}

/// What a call to reserve a code does next.
#[derive(Debug)]
pub enum ReserveAction {
    /// Log this reservation.
    InsertReservation(PinCodeReservation),
    /// Mark the code `id` as held by `reservation` from `now` until `expires_at`.
    ReservePinCode { id: ObjectId, reservation: ObjectId, now: Millis, expires_at: Millis },
    /// Answer the caller.
    Respond(Result<ReservationResponse, Status>),
}

/// What a `ReserveEvent` holds.
pub enum ReserveEventView {
    Selected { candidate: Option<ObjectId>, now: Millis },
    SelectionFailed(Seq<char>),
    Recorded(Result<ObjectId, Seq<char>>),
    Marked(Result<ObjectId, Seq<char>>),
}

/// What a `ReserveAction` holds.
pub enum ReserveActionView {
    InsertReservation(PinCodeReservation),
    ReservePinCode { id: ObjectId, reservation: ObjectId, now: Millis, expires_at: Millis },
    Respond(Result<ReservationResponseView, StatusView>),
}

/// What a store's report holds.
pub open spec fn report_view(report: Result<ObjectId, String>) -> Result<ObjectId, Seq<char>> {
    match report {
        Ok(id) => Ok(id),
        Err(text) => Err(text@),
    }
}

impl View for ReserveEvent {
    type V = ReserveEventView;

    open spec fn view(&self) -> ReserveEventView {
        match *self {
            ReserveEvent::Selected { candidate, now } => ReserveEventView::Selected {
                candidate,
                now,
            },
            ReserveEvent::SelectionFailed(text) => ReserveEventView::SelectionFailed(text@),
            ReserveEvent::Recorded(report) => ReserveEventView::Recorded(report_view(report)),
            ReserveEvent::Marked(report) => ReserveEventView::Marked(report_view(report)),
        }
    }
}

impl View for ReserveAction {
    type V = ReserveActionView;

    open spec fn view(&self) -> ReserveActionView {
        match *self {
            ReserveAction::InsertReservation(reservation) => ReserveActionView::InsertReservation(
                reservation,
            ),
            ReserveAction::ReservePinCode {
                id,
                reservation,
                now,
                expires_at,
            } => ReserveActionView::ReservePinCode { id, reservation, now, expires_at },
            ReserveAction::Respond(Ok(response)) => ReserveActionView::Respond(Ok(response@)),
            ReserveAction::Respond(Err(status)) => ReserveActionView::Respond(Err(status@)),
        }
    }
}

impl ReservationResponseView {
    /// The answer where no code may be reserved.
    pub open spec fn unavailable() -> ReservationResponseView {
        ReservationResponseView {
            success: false,
            message: "No PIN Available!"@,
            id: Seq::empty(),
        }
    }

    /// The answer that gives out a reservation.
    pub open spec fn reserved(id: Seq<char>) -> ReservationResponseView {
        ReservationResponseView { success: true, message: "PIN reserved"@, id }
    }
}

/// When a reservation placed at `now` runs out, where that time can be told.
pub open spec fn expiry_of(now: Millis) -> Option<Millis> {
    if now + RESERVATION_TTL_MILLIS <= i64::MAX {
        Some((now + RESERVATION_TTL_MILLIS) as Millis)
    } else {
        None
    }
}

/// When a reservation placed at `now` runs out: three minutes later. There
/// is no such time within three minutes of the end of time.
pub fn reservation_expiry(now: Millis) -> (expires_at: Option<Millis>)
    ensures
        expires_at == expiry_of(now),
{
    if now <= i64::MAX - RESERVATION_TTL_MILLIS {
        Some(now + RESERVATION_TTL_MILLIS)
    } else {
        None
    }
}

/// The next state of a call to reserve a code, and what it does next. A
/// code is selected; the hold on it is logged; the code is marked; the
/// caller gets the reservation. The call ends early, with nothing more
/// done, where no code is selected or where a store reports a failure. That
/// there is no code to select is an answer; that a store failed, at the
/// selection or later, is a failure of the service's own.
pub open spec fn reserve_transition(state: ReserveState, event: ReserveEventView) -> (
    ReserveState,
    ReserveActionView,
) {
    match (state, event) {
        (ReserveState::Selecting, ReserveEventView::Selected { candidate: None, now }) => (
            ReserveState::Done,
            ReserveActionView::Respond(Ok(ReservationResponseView::unavailable())),
        ),
        (
            ReserveState::Selecting,
            ReserveEventView::Selected { candidate: Some(code), now },
        ) => match expiry_of(now) {
            Some(expires_at) => (
                ReserveState::Recording { code, now, expires_at },
                ReserveActionView::InsertReservation(
                    PinCodeReservation { id: None, pincode_id: Some(code), reserved_at: now },
                ),
            ),
            None => (
                ReserveState::Done,
                ReserveActionView::Respond(
                    Err(StatusView::internal("Failed to reserve pin code: "@, "expiry out of range"@)),
                ),
            ),
        },
        (ReserveState::Selecting, ReserveEventView::SelectionFailed(text)) => (
            ReserveState::Done,
            ReserveActionView::Respond(
                Err(StatusView::internal("Failed to select pin code: "@, text)),
            ),
        ),
        (
            ReserveState::Recording { code, now, expires_at },
            ReserveEventView::Recorded(Ok(reservation)),
        ) => (
            ReserveState::Marking { reservation },
            ReserveActionView::ReservePinCode { id: code, reservation, now, expires_at },
        ),
        (ReserveState::Recording { .. }, ReserveEventView::Recorded(Err(text))) => (
            ReserveState::Done,
            ReserveActionView::Respond(
                Err(StatusView::internal("Failed to insert reservation: "@, text)),
            ),
        ),
        (ReserveState::Marking { reservation }, ReserveEventView::Marked(Ok(_))) => (
            ReserveState::Done,
            ReserveActionView::Respond(
                Ok(ReservationResponseView::reserved(hex_of_object_id(reservation))),
            ),
        ),
        (ReserveState::Marking { .. }, ReserveEventView::Marked(Err(text))) => (
            ReserveState::Done,
            ReserveActionView::Respond(
                Err(StatusView::internal("Failed to reserve pin code: "@, text)),
            ),
        ),
        _ => (
            ReserveState::Done,
            ReserveActionView::Respond(
                Err(StatusView::internal("Failed to reserve pin code: "@, "unexpected event"@)),
            ),
        ),
    }
}

/// The state a call to reserve a code starts in, once the store has been
/// asked for a code that may be reserved.
pub fn reserve_start() -> (state: ReserveState)
    ensures
        state == ReserveState::Selecting,
{
    ReserveState::Selecting
}

/// Takes a call to reserve a code one step on: from its state and what the
/// stores reported, its next state and what to do next.
pub fn reserve_step(state: ReserveState, event: ReserveEvent) -> (next: (
    ReserveState,
    ReserveAction,
))
    ensures
        (next.0, next.1@) == reserve_transition(state, event@),
{
    match (state, event) {
        (ReserveState::Selecting, ReserveEvent::Selected { candidate: None, now }) => (
            ReserveState::Done,
            ReserveAction::Respond(
                Ok(
                    ReservationResponse {
                        success: false,
                        message: String::from_str("No PIN Available!"),
                        id: String::new(),
                    },
                ),
            ),
        ),
        (
            ReserveState::Selecting,
            ReserveEvent::Selected { candidate: Some(code), now },
        ) => match reservation_expiry(now) {
            Some(expires_at) => (
                ReserveState::Recording { code, now, expires_at },
                ReserveAction::InsertReservation(
                    PinCodeReservation { id: None, pincode_id: Some(code), reserved_at: now },
                ),
            ),
            None => (
                ReserveState::Done,
                ReserveAction::Respond(
                    Err(Status::internal_with("Failed to reserve pin code: ", "expiry out of range")),
                ),
            ),
        },
        (ReserveState::Selecting, ReserveEvent::SelectionFailed(text)) => (
            ReserveState::Done,
            ReserveAction::Respond(
                Err(Status::internal_with("Failed to select pin code: ", text.as_str())),
            ),
        ),
        (
            ReserveState::Recording { code, now, expires_at },
            ReserveEvent::Recorded(Ok(reservation)),
        ) => (
            ReserveState::Marking { reservation },
            ReserveAction::ReservePinCode { id: code, reservation, now, expires_at },
        ),
        (ReserveState::Recording { .. }, ReserveEvent::Recorded(Err(text))) => (
            ReserveState::Done,
            ReserveAction::Respond(
                Err(Status::internal_with("Failed to insert reservation: ", text.as_str())),
            ),
        ),
        (ReserveState::Marking { reservation }, ReserveEvent::Marked(Ok(_))) => (
            ReserveState::Done,
            ReserveAction::Respond(
                Ok(
                    ReservationResponse {
                        success: true,
                        message: String::from_str("PIN reserved"),
                        id: object_id_hex(reservation),
                    },
                ),
            ),
        ),
        (ReserveState::Marking { .. }, ReserveEvent::Marked(Err(text))) => (
            ReserveState::Done,
            ReserveAction::Respond(
                Err(Status::internal_with("Failed to reserve pin code: ", text.as_str())),
            ),
        ),
        _ => (
            ReserveState::Done,
            ReserveAction::Respond(
                Err(Status::internal_with("Failed to reserve pin code: ", "unexpected event")),
            ),
        ),
    }
}

/// Where a call to redeem a reservation stands.
#[derive(Debug)]
pub enum TakeState {
    /// The store has been asked for the code that the reservation spelled
    /// by `reservation_id` holds.
    Resolving { reservation_id: String },
    /// The store has been asked to mark the code purchased.
    Purchasing { reservation_id: String, pin_code: String },
    /// The call has been answered.
    Done,
}

/// What the store reports back to a call to redeem a reservation.
#[derive(Debug)]
pub enum TakeEvent {
    /// The identifier and the value of the code that the reservation holds
    /// at `now`, if it holds one.
    Resolved { held: Option<(ObjectId, String)>, now: Millis },
    /// Why the store could not be asked for the code.
    ResolutionFailed(String),
    /// The identifier of the code marked, or why none was.
    Purchased(Result<ObjectId, String>),
}

/// What a call to redeem a reservation does next.
#[derive(Debug)]
pub enum TakeAction {
    /// Mark the code `id` purchased at `now`.
    PurchasePinCode { id: ObjectId, now: Millis },
    /// Answer the caller.
    Respond(Result<PinCodeResponse, Status>),
}

/// What a `TakeState` holds.
pub enum TakeStateView {
    Resolving { reservation_id: Seq<char> },
    Purchasing { reservation_id: Seq<char>, pin_code: Seq<char> },
    Done,
}

/// What a `TakeEvent` holds.
pub enum TakeEventView {
    Resolved { held: Option<(ObjectId, Seq<char>)>, now: Millis },
    ResolutionFailed(Seq<char>),
    Purchased(Result<ObjectId, Seq<char>>),
}

/// What a `TakeAction` holds.
pub enum TakeActionView {
    PurchasePinCode { id: ObjectId, now: Millis },
    Respond(Result<PinCodeResponseView, StatusView>),
}

impl View for TakeState {
    type V = TakeStateView;

    open spec fn view(&self) -> TakeStateView {
        match *self {
            TakeState::Resolving { reservation_id } => TakeStateView::Resolving {
                reservation_id: reservation_id@,
            },
            TakeState::Purchasing { reservation_id, pin_code } => TakeStateView::Purchasing {
                reservation_id: reservation_id@,
                pin_code: pin_code@,
            },
            TakeState::Done => TakeStateView::Done,
        }
    }
}

impl View for TakeEvent {
    type V = TakeEventView;

    open spec fn view(&self) -> TakeEventView {
        match *self {
            TakeEvent::Resolved { held: Some((id, pin_code)), now } => TakeEventView::Resolved {
                held: Some((id, pin_code@)),
                now,
            },
            TakeEvent::Resolved { held: None, now } => TakeEventView::Resolved { held: None, now },
            TakeEvent::ResolutionFailed(text) => TakeEventView::ResolutionFailed(text@),
            TakeEvent::Purchased(report) => TakeEventView::Purchased(report_view(report)),
        }
    }
}

impl View for TakeAction {
    type V = TakeActionView;

    open spec fn view(&self) -> TakeActionView {
        match *self {
            TakeAction::PurchasePinCode { id, now } => TakeActionView::PurchasePinCode { id, now },
            TakeAction::Respond(Ok(response)) => TakeActionView::Respond(Ok(response@)),
            TakeAction::Respond(Err(status)) => TakeActionView::Respond(Err(status@)),
        }
    }
}

impl PinCodeResponseView {
    /// The answer where the reservation holds no code any more. It gives
    /// out no code.
    pub open spec fn gone() -> PinCodeResponseView {
        PinCodeResponseView {
            success: false,
            message: "Reservation does not exist anymore!"@,
            id: Seq::empty(),
            pin_code: Seq::empty(),
        }
    }

    /// The answer that gives out the code a reservation held.
    pub open spec fn taken(reservation_id: Seq<char>, pin_code: Seq<char>) -> PinCodeResponseView {
        PinCodeResponseView { success: true, message: "PIN reserved"@, id: reservation_id, pin_code }
    }

    /// The answer that shows the code asked for.
    pub open spec fn shown(id: Seq<char>, pin_code: Seq<char>) -> PinCodeResponseView {
        PinCodeResponseView { success: true, message: "PIN found"@, id, pin_code }
    }

    /// The answer where there is no code with the identifier asked for.
    pub open spec fn missing(id: Seq<char>) -> PinCodeResponseView {
        PinCodeResponseView {
            success: false,
            message: "PIN not found"@,
            id,
            pin_code: Seq::empty(),
        }
    }
}

/// The next state of a call to redeem a reservation, and what it does
/// next. The reservation is resolved to the code it holds; the code is
/// marked purchased; the caller gets the code's value. Where the
/// reservation holds no code, the caller gets none, and that is an answer;
/// that the store failed, at the resolution or later, is a failure of the
/// service's own.
pub open spec fn take_transition(state: TakeStateView, event: TakeEventView) -> (
    TakeStateView,
    TakeActionView,
) {
    match (state, event) {
        (TakeStateView::Resolving { .. }, TakeEventView::Resolved { held: None, .. }) => (
            TakeStateView::Done,
            TakeActionView::Respond(Ok(PinCodeResponseView::gone())),
        ),
        (
            TakeStateView::Resolving { reservation_id },
            TakeEventView::Resolved { held: Some((id, pin_code)), now },
        ) => (
            TakeStateView::Purchasing { reservation_id, pin_code },
            TakeActionView::PurchasePinCode { id, now },
        ),
        (TakeStateView::Resolving { .. }, TakeEventView::ResolutionFailed(text)) => (
            TakeStateView::Done,
            TakeActionView::Respond(
                Err(StatusView::internal("Failed to resolve reservation: "@, text)),
            ),
        ),
        (
            TakeStateView::Purchasing { reservation_id, pin_code },
            TakeEventView::Purchased(Ok(_)),
        ) => (
            TakeStateView::Done,
            TakeActionView::Respond(Ok(PinCodeResponseView::taken(reservation_id, pin_code))),
        ),
        (TakeStateView::Purchasing { .. }, TakeEventView::Purchased(Err(text))) => (
            TakeStateView::Done,
            TakeActionView::Respond(
                Err(StatusView::internal("Failed to reserve pin code: "@, text)),
            ),
        ),
        _ => (
            TakeStateView::Done,
            TakeActionView::Respond(
                Err(StatusView::internal("Failed to reserve pin code: "@, "unexpected event"@)),
            ),
        ),
    }
}

/// The state a call to redeem the reservation spelled by `reservation_id`
/// starts in, once the store has been asked for the code it holds.
pub fn take_start(reservation_id: String) -> (state: TakeState)
    ensures
        state@ == (TakeStateView::Resolving { reservation_id: reservation_id@ }),
{
    TakeState::Resolving { reservation_id }
}

/// Takes a call to redeem a reservation one step on: from its state and
/// what the store reported, its next state and what to do next.
pub fn take_step(state: TakeState, event: TakeEvent) -> (next: (TakeState, TakeAction))
    ensures
        (next.0@, next.1@) == take_transition(state@, event@),
{
    match (state, event) {
        (TakeState::Resolving { .. }, TakeEvent::Resolved { held: None, .. }) => (
            TakeState::Done,
            TakeAction::Respond(
                Ok(
                    PinCodeResponse {
                        success: false,
                        message: String::from_str("Reservation does not exist anymore!"),
                        id: String::new(),
                        pin_code: String::new(),
                    },
                ),
            ),
        ),
        (
            TakeState::Resolving { reservation_id },
            TakeEvent::Resolved { held: Some((id, pin_code)), now },
        ) => (
            TakeState::Purchasing { reservation_id, pin_code },
            TakeAction::PurchasePinCode { id, now },
        ),
        (TakeState::Resolving { .. }, TakeEvent::ResolutionFailed(text)) => (
            TakeState::Done,
            TakeAction::Respond(
                Err(Status::internal_with("Failed to resolve reservation: ", text.as_str())),
            ),
        ),
        (TakeState::Purchasing { reservation_id, pin_code }, TakeEvent::Purchased(Ok(_))) => (
            TakeState::Done,
            TakeAction::Respond(
                Ok(
                    PinCodeResponse {
                        success: true,
                        message: String::from_str("PIN reserved"),
                        id: reservation_id,
                        pin_code,
                    },
                ),
            ),
        ),
        (TakeState::Purchasing { .. }, TakeEvent::Purchased(Err(text))) => (
            TakeState::Done,
            TakeAction::Respond(
                Err(Status::internal_with("Failed to reserve pin code: ", text.as_str())),
            ),
        ),
        _ => (
            TakeState::Done,
            TakeAction::Respond(
                Err(Status::internal_with("Failed to reserve pin code: ", "unexpected event")),
            ),
        ),
    }
}

/// The answer to a request for the code `id`: the code's value where the
/// store found the code, the news that it did not otherwise.
pub fn pin_code_response(id: String, found: Option<String>) -> (response: PinCodeResponse)
    ensures
        response@ == match found {
            Some(pin_code) => PinCodeResponseView::shown(id@, pin_code@),
            None => PinCodeResponseView::missing(id@),
        },
{
    match found {
        Some(pin_code) => PinCodeResponse {
            success: true,
            message: String::from_str("PIN found"),
            id,
            pin_code,
        },
        None => PinCodeResponse {
            success: false,
            message: String::from_str("PIN not found"),
            id,
            pin_code: String::new(),
        },
    }
}

} // verus!
