use crate::pincode::model::hex::{
    hex_number, hex_text, lemma_hex_number_bound, lemma_hex_round_trip, lemma_pow16, parse_hex,
    push_hex,
};
use vstd::prelude::*;
use vstd::string::*;

pub mod hex;
pub mod repository;

verus! {

/// A point in time: milliseconds since the start of 1970, UTC.
pub type Millis = i64;

/// The 12-byte identifier of a stored record, as two big-endian numbers: the
/// second it was made in, and the eight bytes that tell it from the others
/// made in that second.
#[derive(Clone, Copy, Debug, PartialEq, Eq, Structural)]
pub struct ObjectId {
    pub seconds: u32,
    pub unique: u64,
}

/// How many hexadecimal digits spell an identifier.
pub const OBJECT_ID_HEX_LEN: usize = 24;

/// The 24 hexadecimal digits that spell `id`: eight for its seconds, then
/// sixteen for what makes it unique, in lower case.
pub open spec fn hex_of_object_id(id: ObjectId) -> Seq<char> {
    hex_text(id.seconds as nat, 8) + hex_text(id.unique as nat, 16)
}

/// The identifier that the 24 hexadecimal digits `text` spell, in either
/// case, or `None` where `text` is no such spelling.
pub open spec fn object_id_of_hex(text: Seq<char>) -> Option<ObjectId> {
    if text.len() == OBJECT_ID_HEX_LEN {
        match (hex_number(text.subrange(0, 8)), hex_number(text.subrange(8, 24))) {
            (Some(seconds), Some(unique)) => Some(
                ObjectId { seconds: seconds as u32, unique: unique as u64 },
            ),
            _ => None,
        }
    } else {
        None
    }
}

/// The digits that spell an identifier spell that identifier and no
/// other.
pub proof fn lemma_object_id_hex_round_trip(id: ObjectId)
    ensures
        hex_of_object_id(id).len() == OBJECT_ID_HEX_LEN,
        object_id_of_hex(hex_of_object_id(id)) == Some(id),
{
    lemma_pow16();
    lemma_hex_round_trip(id.seconds as nat, 8);
    lemma_hex_round_trip(id.unique as nat, 16);
    let text = hex_of_object_id(id);
    assert(text.subrange(0, 8) =~= hex_text(id.seconds as nat, 8));
    assert(text.subrange(8, 24) =~= hex_text(id.unique as nat, 16));
}

/// The identifier that `text` spells, if it spells one.
pub(crate) fn parse_object_id(text: &str) -> (id: Option<ObjectId>)
    ensures
        id == object_id_of_hex(text@),
{
    let mut chars: Vec<char> = Vec::new();
    for c in it: text.chars()
        invariant
            it.seq() == text@,
            chars@ == text@.take(it.index() as int),
            chars@.len() <= OBJECT_ID_HEX_LEN,
    {
        if chars.len() == OBJECT_ID_HEX_LEN {
            return None;
        }
        chars.push(c);
        assert(text@.take(it.index() as int).push(c) =~= text@.take(it.index() + 1));
    }
    assert(text@.take(text@.len() as int) =~= text@);
    if chars.len() != OBJECT_ID_HEX_LEN {
        return None;
    }
    proof {
        lemma_hex_number_bound(chars@.subrange(0, 8));
        lemma_hex_number_bound(chars@.subrange(8, 24));
        lemma_pow16();
    }
    match (parse_hex(&chars, 0, 8), parse_hex(&chars, 8, 24)) {
        (Some(seconds), Some(unique)) => Some(ObjectId { seconds: seconds as u32, unique }),
        _ => None,
    }
}

/// The 24 hexadecimal digits that spell `id`.
pub(crate) fn object_id_hex(id: ObjectId) -> (text: String)
    ensures
        text@ == hex_of_object_id(id),
        object_id_of_hex(text@) == Some(id),
{
    let mut text = String::new();
    push_hex(&mut text, id.seconds as u64, 8);
    push_hex(&mut text, id.unique, 16);
    proof {
        lemma_object_id_hex_round_trip(id);
        assert(text@ =~= hex_of_object_id(id));
    }
    text
}

/// Calls `ObjectId::new` of the `bson` crate, which makes an identifier from
/// the clock, the process and a counter. Nothing is claimed of the
/// identifier made.
#[verifier::external_body]
pub(crate) fn fresh_object_id() -> (id: ObjectId) {
    let b = bson::oid::ObjectId::new().bytes();
    ObjectId {
        seconds: u32::from_be_bytes([b[0], b[1], b[2], b[3]]),
        unique: u64::from_be_bytes([b[4], b[5], b[6], b[7], b[8], b[9], b[10], b[11]]),
    }
}

/// Calls `DateTime::now` of the `bson` crate and takes its milliseconds.
/// Nothing is claimed of the time read.
#[verifier::external_body]
pub(crate) fn current_millis() -> (now: Millis) {
    bson::DateTime::now().timestamp_millis()
}

impl ObjectId {
    /// A newly made identifier. Which one is made depends on the clock, the
    /// process and how many were made before.
    pub fn new() -> (id: ObjectId) {
        fresh_object_id()
    }

    /// The identifier that `text` spells, if it spells one.
    pub fn parse_str(text: &str) -> (id: Option<ObjectId>)
        ensures
            id == object_id_of_hex(text@),
    {
        parse_object_id(text)
    }

    /// The 24 hexadecimal digits that spell the identifier. Parsing them
    /// gives the identifier back.
    pub fn to_hex(&self) -> (text: String)
        ensures
            text@ == hex_of_object_id(*self),
            object_id_of_hex(text@) == Some(*self),
    {
        object_id_hex(*self)
    }
}

/// Where a code stands in its life. A code only ever moves forward:
/// from `Active` to `Reserved` to `Purchased`.
#[derive(Clone, Copy, Debug, PartialEq, Eq, Structural)]
pub enum PinStatus {
    Active,
    Reserved,
    Purchased,
}

impl PinStatus {
    /// How far along its life a code in this status is.
    pub open spec fn rank(self) -> int {
        match self {
            PinStatus::Active => 0,
            PinStatus::Reserved => 1,
            PinStatus::Purchased => 2,
        }
    }

    /// The status's name.
    pub open spec fn name(self) -> Seq<char> {
        match self {
            PinStatus::Active => "Active"@,
            PinStatus::Reserved => "Reserved"@,
            PinStatus::Purchased => "Purchased"@,
        }
    }

    /// The status's name, as text.
    pub fn to_string(&self) -> (text: String)
        ensures
            text@ == self.name(),
    {
        match self {
            PinStatus::Active => String::from_str("Active"),
            PinStatus::Reserved => String::from_str("Reserved"),
            PinStatus::Purchased => String::from_str("Purchased"),
        }
    }
}

/// A stored code and the state of its life.
#[derive(Debug)]
pub struct PinCode {
    pub id: Option<ObjectId>,
    pub pincode: String,
    pub encrypted: String,
    pub status: PinStatus,
    pub created_at: Option<Millis>,
    pub purchased_at: Option<Millis>,
    pub reserved_at: Option<Millis>,
    pub reservation_id: Option<ObjectId>,
    pub expires_at: Option<Millis>,
}

/// What a stored code holds.
pub struct PinCodeView {
    pub id: Option<ObjectId>,
    pub pincode: Seq<char>,
    pub encrypted: Seq<char>,
    pub status: PinStatus,
    pub created_at: Option<Millis>,
    pub purchased_at: Option<Millis>,
    pub reserved_at: Option<Millis>,
    pub reservation_id: Option<ObjectId>,
    pub expires_at: Option<Millis>,
}

impl View for PinCode {
    type V = PinCodeView;

    open spec fn view(&self) -> PinCodeView {
        PinCodeView {
            id: self.id,
            pincode: self.pincode@,
            encrypted: self.encrypted@,
            status: self.status,
            created_at: self.created_at,
            purchased_at: self.purchased_at,
            reserved_at: self.reserved_at,
            reservation_id: self.reservation_id,
            expires_at: self.expires_at,
        }
    }
}

impl PinCodeView {
    /// A code as it is when it enters the store: active, made at `now`,
    /// with no identifier yet and no trace of a reservation or a purchase.
    pub open spec fn active(pincode: Seq<char>, encrypted: Seq<char>, now: Millis) -> PinCodeView {
        PinCodeView {
            id: None,
            pincode,
            encrypted,
            status: PinStatus::Active,
            created_at: Some(now),
            purchased_at: None,
            reserved_at: None,
            reservation_id: None,
            expires_at: None,
        }
    }

    /// The code under the identifier `id`.
    pub open spec fn identified(self, id: ObjectId) -> PinCodeView {
        PinCodeView { id: Some(id), ..self }
    }

    /// Whether the code has an expiry, and it is at `now` or before.
    pub open spec fn expired_by(self, now: Millis) -> bool {
        match self.expires_at {
            Some(expiry) => expiry <= now,
            None => false,
        }
    }

    /// Whether the code has an expiry, and it is at `now` or after.
    pub open spec fn lasts_until(self, now: Millis) -> bool {
        match self.expires_at {
            Some(expiry) => expiry >= now,
            None => false,
        }
    }

    /// Whether the code may be reserved at `now`: it is active, or it is
    /// reserved and that reservation has run out.
    pub open spec fn available_at(self, now: Millis) -> bool {
        self.status == PinStatus::Active || (self.status == PinStatus::Reserved && self.expired_by(
            now,
        ))
    }

    /// Whether the reservation `reservation` holds the code at `now`: the
    /// code is reserved under it and that reservation has not run out.
    pub open spec fn held_by(self, reservation: ObjectId, now: Millis) -> bool {
        self.status == PinStatus::Reserved && self.reservation_id == Some(reservation)
            && self.lasts_until(now)
    }

    /// The code once reserved: whatever it was, it is now reserved under
    /// `reservation` from `now` until `expires_at`. All else stays.
    pub open spec fn reserved(self, reservation: ObjectId, now: Millis, expires_at: Millis) -> PinCodeView {
        PinCodeView {
            status: PinStatus::Reserved,
            reserved_at: Some(now),
            reservation_id: Some(reservation),
            expires_at: Some(expires_at),
            ..self
        }
    }

    /// The code once purchased at `now`. The trace of its reservation stays.
    pub open spec fn purchased(self, now: Millis) -> PinCodeView {
        PinCodeView { status: PinStatus::Purchased, purchased_at: Some(now), ..self }
    }
}

impl Clone for PinCode {
    fn clone(&self) -> (copy: Self)
        ensures
            copy == *self,
    {
        PinCode {
            id: self.id,
            pincode: self.pincode.clone(),
            encrypted: self.encrypted.clone(),
            status: self.status,
            created_at: self.created_at,
            purchased_at: self.purchased_at,
            reserved_at: self.reserved_at,
            reservation_id: self.reservation_id,
            expires_at: self.expires_at,
        }
    }
}

impl PinCode {
    /// The code under the identifier it has or, where it has none, under
    /// `drawn`.
    pub fn with_id_or(self, drawn: ObjectId) -> (code: Self)
        ensures
            code@ == self@.identified(
                match self.id {
                    Some(own) => own,
                    None => drawn,
                },
            ),
    {
        let mut code = self;
        code.id = match code.id {
            Some(own) => Some(own),
            None => Some(drawn),
        };
        code
    }

    /// A new code, active from `now`.
    pub fn active(pincode: String, encrypted: String, now: Millis) -> (code: Self)
        ensures
            code@ == PinCodeView::active(pincode@, encrypted@, now),
    {
        PinCode {
            id: None,
            pincode,
            encrypted,
            status: PinStatus::Active,
            created_at: Some(now),
            purchased_at: None,
            reserved_at: None,
            reservation_id: None,
            expires_at: None,
        }
    }

    /// Tests whether the code may be reserved at `now`.
    pub fn is_available(&self, now: Millis) -> (available: bool)
        ensures
            available == self@.available_at(now),
    {
        match self.status {
            PinStatus::Active => true,
            PinStatus::Reserved => match self.expires_at {
                Some(expiry) => expiry <= now,
                None => false,
            },
            PinStatus::Purchased => false,
        }
    }

    /// Tests whether the reservation `reservation` holds the code at `now`.
    pub fn is_held_by(&self, reservation: ObjectId, now: Millis) -> (held: bool)
        ensures
            held == self@.held_by(reservation, now),
    {
        match (self.status, self.reservation_id, self.expires_at) {
            (PinStatus::Reserved, Some(holder), Some(expiry)) => holder == reservation && expiry
                >= now,
            _ => false,
        }
    }

    /// Reserves the code under `reservation` from `now` until `expires_at`,
    /// whatever state it was in.
    pub fn reserve(&mut self, reservation: ObjectId, now: Millis, expires_at: Millis)
        ensures
            final(self)@ == old(self)@.reserved(reservation, now, expires_at),
    {
        self.status = PinStatus::Reserved;
        self.reserved_at = Some(now);
        self.reservation_id = Some(reservation);
        self.expires_at = Some(expires_at);
    }

    /// Marks the code purchased at `now`, whatever state it was in.
    pub fn purchase(&mut self, now: Millis)
        ensures
            final(self)@ == old(self)@.purchased(now),
    {
        self.status = PinStatus::Purchased;
        self.purchased_at = Some(now);
    }
}

/// The record of a hold placed on a code. It is written once and never
/// changed; the code it points to lives on without it.
#[derive(Clone, Copy, Debug, PartialEq, Eq, Structural)]
pub struct PinCodeReservation {
    pub id: Option<ObjectId>,
    pub pincode_id: Option<ObjectId>,
    pub reserved_at: Millis,
}

} // verus!
