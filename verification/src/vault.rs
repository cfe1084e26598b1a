use vstd::prelude::*;
use vstd::string::*;

verus! {

/// One piece of an uploaded file.
#[derive(Debug)]
pub struct PinCodeChunk {
    pub file_name: String,
    pub content: Vec<u8>,
}

/// A request for `count` new codes.
#[derive(Clone, Copy, Debug, PartialEq, Eq, Structural)]
pub struct GenerationRequest {
    pub count: i32,
}

/// A request that names a code or a reservation.
#[derive(Debug)]
pub struct IdRequest {
    pub id: String,
}

/// Whether a bulk operation was carried out.
#[derive(Debug)]
pub struct StatusResponse {
    pub success: bool,
    pub message: String,
}

/// A code, or the news that there is none to give.
#[derive(Debug)]
pub struct PinCodeResponse {
    pub success: bool,
    pub message: String,
    pub id: String,
    pub pin_code: String,
}

/// A reservation, or the news that no code could be reserved.
#[derive(Debug)]
pub struct ReservationResponse {
    pub success: bool,
    pub message: String,
    pub id: String,
}

/// The kinds of failure a call can end in.
#[derive(Clone, Copy, Debug, PartialEq, Eq, Structural)]
pub enum Code {
    /// The caller sent something that cannot be read.
    InvalidArgument,
    /// The service could not do its own part.
    Internal,
}

/// A call's failure: its kind and what there is to say about it.
#[derive(Debug)]
pub struct Status {
    pub code: Code,
    pub message: String,
}

/// What a `StatusResponse` holds.
pub struct StatusResponseView {
    pub success: bool,
    pub message: Seq<char>,
}

/// What a `PinCodeResponse` holds.
pub struct PinCodeResponseView {
    pub success: bool,
    pub message: Seq<char>,
    pub id: Seq<char>,
    pub pin_code: Seq<char>,
}

/// What a `ReservationResponse` holds.
pub struct ReservationResponseView {
    pub success: bool,
    pub message: Seq<char>,
    pub id: Seq<char>,
}

/// What a `Status` holds.
pub struct StatusView {
    pub code: Code,
    pub message: Seq<char>,
}

impl View for StatusResponse {
    type V = StatusResponseView;

    open spec fn view(&self) -> StatusResponseView {
        StatusResponseView { success: self.success, message: self.message@ }
    }
}

impl View for PinCodeResponse {
    type V = PinCodeResponseView;

    open spec fn view(&self) -> PinCodeResponseView {
        PinCodeResponseView {
            success: self.success,
            message: self.message@,
            id: self.id@,
            pin_code: self.pin_code@,
        }
    }
}

impl View for ReservationResponse {
    type V = ReservationResponseView;

    open spec fn view(&self) -> ReservationResponseView {
        ReservationResponseView { success: self.success, message: self.message@, id: self.id@ }
    }
}

impl View for Status {
    type V = StatusView;

    open spec fn view(&self) -> StatusView {
        StatusView { code: self.code, message: self.message@ }
    }
}

impl StatusView {
    /// A failure of the service's own, which says `prefix` and then `detail`.
    pub open spec fn internal(prefix: Seq<char>, detail: Seq<char>) -> StatusView {
        StatusView { code: Code::Internal, message: prefix + detail }
    }
}

impl Status {
    /// A failure of the service's own, which says `message`.
    pub fn internal(message: &str) -> (status: Status)
        ensures
            status@ == (StatusView { code: Code::Internal, message: message@ }),
    {
        Status { code: Code::Internal, message: String::from_str(message) }
    }

    /// A failure of the service's own, which says `prefix` and then `detail`.
    pub fn internal_with(prefix: &str, detail: &str) -> (status: Status)
        ensures
            status@ == StatusView::internal(prefix@, detail@),
    {
        let mut message = String::from_str(prefix);
        message.append(detail);
        Status { code: Code::Internal, message }
    }

    /// The failure to read what the caller sent, which says `message`.
    pub fn invalid_argument(message: &str) -> (status: Status)
        ensures
            status@ == (StatusView { code: Code::InvalidArgument, message: message@ }),
    {
        Status { code: Code::InvalidArgument, message: String::from_str(message) }
    }
}

/// What a call's result holds.
pub open spec fn reply_view<R: View>(reply: Result<R, Status>) -> Result<R::V, StatusView> {
    match reply {
        Ok(response) => Ok(response@),
        Err(status) => Err(status@),
    }
}

} // verus!
